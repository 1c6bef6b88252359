use lingxiao_core::runtime::{ResourceKind, RuntimeBudget, RuntimeManager};

#[test]
fn test_runtime_creation() {
    let rm = RuntimeManager::new();
    assert_eq!(rm.budget().max_sidecars, 3);
    assert_eq!(rm.usage().active_sidecars, 0);
}

#[test]
fn test_gs030_sidecar_acquire_and_release_budget() {
    let mut runtime = RuntimeManager::with_budget(RuntimeBudget {
        max_sidecars: 2,
        max_workers: 2,
        max_memory_mb: 300,
        max_tokens: 100,
        max_file_write_bytes: 1024,
        max_tool_concurrency: 4,
    });
    runtime.try_acquire_sidecar("a", 100).unwrap();
    runtime.try_acquire_sidecar("b", 150).unwrap();

    let err = runtime.try_acquire_sidecar("c", 10).unwrap_err();
    assert_eq!(err.resource, ResourceKind::Sidecar);
    assert_eq!(runtime.usage().active_sidecars, 2);

    assert!(runtime.release_sidecar("a"));
    assert_eq!(runtime.usage().active_sidecars, 1);
    assert_eq!(runtime.usage().memory_mb, 150);
    assert!(runtime.try_acquire_sidecar("c", 10).is_ok());
}

#[test]
fn test_gs029_token_budget_check() {
    let runtime = RuntimeManager::with_budget(RuntimeBudget {
        max_sidecars: 1,
        max_workers: 1,
        max_memory_mb: 128,
        max_tokens: 100,
        max_file_write_bytes: 1024,
        max_tool_concurrency: 4,
    });
    assert!(runtime.check_token_budget(80, 10).is_ok());
    let err = runtime.check_token_budget(95, 10).unwrap_err();
    assert_eq!(err.requested, 105);
    assert_eq!(err.available, 100);
}

#[test]
fn test_token_reservation_prevents_concurrent_overspend() {
    let mut runtime = RuntimeManager::with_budget(RuntimeBudget {
        max_sidecars: 1,
        max_workers: 1,
        max_memory_mb: 128,
        max_tokens: 100,
        max_file_write_bytes: 1024,
        max_tool_concurrency: 4,
    });
    assert_eq!(runtime.try_reserve_tokens("a", 80).unwrap(), "a");
    let err = runtime.try_reserve_tokens("b", 30).unwrap_err();
    assert_eq!(err.resource, ResourceKind::Token);
    assert!(runtime.release_token_reservation("a"));
    assert!(runtime.try_reserve_tokens("b", 30).is_ok());
    assert!(runtime.commit_token_reservation("b"));
    assert_eq!(runtime.usage().tokens, 30);
}

#[test]
fn test_agent_token_budget_check_and_commit() {
    let mut runtime = RuntimeManager::new();
    runtime.set_agent_token_budget("agent-1", 10);
    runtime.commit_agent_tokens("agent-1", 7);
    assert!(runtime.check_agent_token_budget("agent-1", 3).is_ok());
    let err = runtime.check_agent_token_budget("agent-1", 4).unwrap_err();
    assert_eq!(err.resource, ResourceKind::Token);
    assert_eq!(err.requested, 11);
    assert_eq!(err.available, 10);
    assert!(runtime.check_agent_token_budget("agent-2", 1_000).is_ok());
}

#[test]
fn test_empty_agent_does_not_record_agent_tokens() {
    let mut runtime = RuntimeManager::new();
    runtime.commit_agent_tokens("", 42);
    assert_eq!(runtime.agent_token_usage(""), 0);
}

#[test]
fn test_file_write_budget_check() {
    let mut runtime = RuntimeManager::with_budget(RuntimeBudget {
        max_sidecars: 1,
        max_workers: 1,
        max_memory_mb: 128,
        max_tokens: 100,
        max_file_write_bytes: 10,
        max_tool_concurrency: 4,
    });
    runtime.commit_file_write(7);
    assert!(runtime.check_file_write(2).is_ok());
    let err = runtime.check_file_write(4).unwrap_err();
    assert_eq!(err.requested, 11);
}

#[test]
fn test_file_write_reservation_prevents_concurrent_overspend() {
    let mut runtime = RuntimeManager::with_budget(RuntimeBudget {
        max_sidecars: 1,
        max_workers: 1,
        max_memory_mb: 128,
        max_tokens: 100,
        max_file_write_bytes: 10,
        max_tool_concurrency: 4,
    });
    assert_eq!(runtime.try_reserve_file_write("a", 8).unwrap(), "a");
    let err = runtime.try_reserve_file_write("b", 4).unwrap_err();
    assert_eq!(err.resource, ResourceKind::FileWrite);
    assert!(runtime.commit_file_write_reservation("a"));
    assert_eq!(runtime.usage().file_write_bytes, 8);
}

#[test]
fn test_tool_concurrency_acquire_and_release() {
    let mut runtime = RuntimeManager::with_budget(RuntimeBudget {
        max_sidecars: 1,
        max_workers: 1,
        max_memory_mb: 128,
        max_tokens: 100,
        max_file_write_bytes: 1024,
        max_tool_concurrency: 1,
    });
    let token = runtime.try_acquire_tool("tool-1").unwrap();
    assert_eq!(runtime.usage().active_tools, 1);
    let err = runtime.try_acquire_tool("tool-2").unwrap_err();
    assert_eq!(err.resource, ResourceKind::Tool);
    assert!(runtime.release_tool(&token));
    assert_eq!(runtime.usage().active_tools, 0);
}

#[test]
fn test_worker_concurrency_acquire_and_release() {
    let mut runtime = RuntimeManager::with_budget(RuntimeBudget {
        max_sidecars: 1,
        max_workers: 1,
        max_memory_mb: 128,
        max_tokens: 100,
        max_file_write_bytes: 1024,
        max_tool_concurrency: 4,
    });
    let token = runtime.try_acquire_worker("agent-1").unwrap();
    assert_eq!(runtime.usage().active_workers, 1);
    assert_eq!(runtime.try_acquire_worker("agent-1").unwrap(), "agent-1");
    assert_eq!(runtime.usage().active_workers, 1);
    let err = runtime.try_acquire_worker("agent-2").unwrap_err();
    assert_eq!(err.resource, ResourceKind::Worker);
    assert!(runtime.release_worker(&token));
    assert_eq!(runtime.usage().active_workers, 0);
    assert!(runtime.try_acquire_worker("agent-2").is_ok());
}

fn small_budget() -> RuntimeBudget {
    RuntimeBudget {
        max_sidecars: 2,
        max_workers: 2,
        max_memory_mb: 300,
        max_tokens: 100,
        max_file_write_bytes: 10,
        max_tool_concurrency: 1,
    }
}

#[test]
fn test_sidecar_memory_is_bounded() {
    let mut runtime = RuntimeManager::with_budget(small_budget());
    runtime.try_acquire_sidecar("a", 200).unwrap();
    let err = runtime.try_acquire_sidecar("b", 101).unwrap_err();
    assert_eq!(err.resource, ResourceKind::Memory);
    assert_eq!(err.requested, 301);
    assert_eq!(err.available, 300);
    assert!(!runtime.release_sidecar("b"));
    assert!(runtime.release_sidecar("a"));
    assert_eq!(runtime.usage().memory_mb, 0);
}

#[test]
fn test_actual_use_replaces_the_reservation() {
    let mut runtime = RuntimeManager::with_budget(small_budget());
    runtime.try_reserve_tokens("a", 80).unwrap();
    assert!(runtime.commit_token_reservation_actual("a", 12));
    assert!(!runtime.commit_token_reservation_actual("a", 12));
    assert_eq!(runtime.usage().tokens, 12);
    assert!(runtime.try_reserve_tokens("b", 88).is_ok());
    assert!(runtime.try_reserve_tokens("c", 1).is_err());
}

#[test]
fn test_agent_reservations_count_against_the_agent() {
    let mut runtime = RuntimeManager::new();
    runtime.set_agent_token_budget("agent-1", 10);
    runtime.try_reserve_agent_tokens("r1", "agent-1", 6).unwrap();
    let err = runtime.try_reserve_agent_tokens("r2", "agent-1", 5).unwrap_err();
    assert_eq!(err.requested, 11);
    assert!(runtime.commit_agent_token_reservation_actual("r1", 2));
    assert_eq!(runtime.agent_token_usage("agent-1"), 2);
    runtime.try_reserve_agent_tokens("r2", "agent-1", 8).unwrap();
    assert!(runtime.release_agent_token_reservation("r2"));
    runtime.try_reserve_agent_tokens("r3", "agent-1", 8).unwrap();
    assert!(runtime.commit_agent_token_reservation("r3"));
    assert_eq!(runtime.agent_token_usage("agent-1"), 10);
}

#[test]
fn test_released_file_reservations_leave_no_trace() {
    let mut runtime = RuntimeManager::with_budget(small_budget());
    runtime.try_reserve_file_write("a", 8).unwrap();
    assert!(runtime.check_file_write(3).is_err());
    assert!(runtime.release_file_write_reservation("a"));
    assert!(runtime.check_file_write(10).is_ok());
    assert_eq!(runtime.usage().file_write_bytes, 0);
}
