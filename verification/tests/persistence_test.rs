use lingxiao_core::persistence::{
    is_upgrade_already_made, schema_version_pragma, DbConfig, RecoveryReport, ADD_COMPACTED_SEQ,
    ADD_GRANT_SCOPE, DDL_INDEXES, DDL_TABLES, PAUSE_STUCK_WORKFLOWS, PRAGMA_INIT, SCHEMA_VERSION,
    STOP_STUCK_AGENTS, UPGRADE_TABLES,
};
use rusqlite::{Connection, Result};

fn upgrade(conn: &Connection, statement: &str) {
    if let Err(error) = conn.execute(statement, []) {
        assert!(is_upgrade_already_made(&error.to_string()), "{error}");
    }
}

fn initialize(conn: &Connection) {
    conn.execute_batch(PRAGMA_INIT).unwrap();
    conn.execute_batch(DDL_TABLES).unwrap();
    conn.execute_batch(DDL_INDEXES).unwrap();
    upgrade(conn, ADD_COMPACTED_SEQ);
    conn.execute_batch(UPGRADE_TABLES).unwrap();
    upgrade(conn, ADD_GRANT_SCOPE);
    conn.execute_batch(&schema_version_pragma()).unwrap();
}

fn create_test_db() -> Connection {
    let conn = Connection::open_in_memory().unwrap();
    initialize(&conn);
    conn
}

fn recover_orphans(conn: &Connection) -> RecoveryReport {
    RecoveryReport {
        workflows_paused: conn.execute(PAUSE_STUCK_WORKFLOWS, []).unwrap(),
        agents_stopped: conn.execute(STOP_STUCK_AGENTS, [1000.0]).unwrap(),
    }
}

#[test]
fn test_schema_version_constant() {
    assert_eq!(SCHEMA_VERSION, 19);
}

#[test]
fn test_default_config() {
    let config = DbConfig::default();
    assert_eq!(config.busy_timeout_ms, 30000);
    assert_eq!(config.wal_autocheckpoint, 1000);
}

#[test]
fn test_pragma_user_version() {
    let conn = create_test_db();
    let version: u32 = conn
        .pragma_query_value(None, "user_version", |row| row.get(0))
        .unwrap();
    assert_eq!(version, SCHEMA_VERSION);
}

#[test]
fn test_pragma_foreign_keys() {
    let conn = create_test_db();
    let fk: i32 = conn
        .pragma_query_value(None, "foreign_keys", |row| row.get(0))
        .unwrap();
    assert_eq!(fk, 1);
}

#[test]
fn test_pragma_busy_timeout() {
    let conn = create_test_db();
    let timeout: i32 = conn
        .pragma_query_value(None, "busy_timeout", |row| row.get(0))
        .unwrap();
    assert_eq!(timeout, 30000);
}

#[test]
fn test_pragma_synchronous() {
    let conn = create_test_db();
    let sync: i32 = conn
        .pragma_query_value(None, "synchronous", |row| row.get(0))
        .unwrap();
    assert_eq!(sync, 1);
}

#[test]
fn test_pragma_temp_store() {
    let conn = create_test_db();
    let store: i32 = conn
        .pragma_query_value(None, "temp_store", |row| row.get(0))
        .unwrap();
    assert_eq!(store, 2);
}

#[test]
fn test_pragma_wal_autocheckpoint() {
    let conn = create_test_db();
    let checkpoint: i32 = conn
        .pragma_query_value(None, "wal_autocheckpoint", |row| row.get(0))
        .unwrap();
    assert_eq!(checkpoint, 1000);
}

#[test]
fn test_p0_tables_exist() {
    let conn = create_test_db();
    let required_tables = [
        "sessions",
        "tasks",
        "messages",
        "leader_conversation",
        "event_log",
        "event_log_meta",
    ];
    for table in &required_tables {
        let count: i32 = conn
            .query_row(
                "SELECT COUNT(*) FROM sqlite_master WHERE type='table' AND name=?1",
                [table],
                |row| row.get(0),
            )
            .unwrap();
        assert_eq!(count, 1, "Required P0 table '{}' does not exist", table);
    }
}

#[test]
fn test_all_tables_exist() {
    let conn = create_test_db();
    let expected_tables = [
        "sessions",
        "tasks",
        "messages",
        "agent_logs",
        "agent_state",
        "session_state",
        "leader_conversation",
        "agent_conversation",
        "token_usage",
        "llm_gateway_requests",
        "traces",
        "execution_trace_events",
        "execution_project_models",
        "workflows",
        "workflow_executions",
        "workflow_execution_logs",
        "workflow_node_state",
        "scheduled_tasks",
        "health_reports",
        "worktrees",
        "graph_nodes",
        "graph_edges",
        "assumptions",
        "tool_registrations",
        "tool_calls",
        "owned_processes",
        "terminal_sessions",
        "teams",
        "team_members",
        "team_messages",
        "memory_entry",
        "memory_fts",
        "memory_embedding",
        "event_log",
        "event_log_meta",
        "command_dedupe",
        "permission_modes",
        "permission_requests",
        "permission_grants",
    ];
    for table in &expected_tables {
        let count: i32 = conn
            .query_row(
                "SELECT COUNT(*) FROM sqlite_master WHERE type='table' AND name=?1",
                [table],
                |row| row.get(0),
            )
            .unwrap();
        assert_eq!(count, 1, "Expected table '{}' does not exist", table);
    }
}

#[test]
fn test_traces_single_definition() {
    let conn = create_test_db();
    let count: i32 = conn
        .query_row(
            "SELECT COUNT(*) FROM sqlite_master WHERE type='table' AND name='traces'",
            [],
            |row| row.get(0),
        )
        .unwrap();
    assert_eq!(count, 1, "traces table must be defined exactly once");

    let index_info: i32 = conn
        .query_row(
            "SELECT COUNT(*) FROM sqlite_master WHERE type='index' AND tbl_name='traces' AND name LIKE 'idx_traces_%'",
            [],
            |row| row.get(0),
        )
        .unwrap();
    assert_eq!(
        index_info, 2,
        "traces should have exactly 2 indexes (idx_traces_trace, idx_traces_session)"
    );
}

#[test]
fn test_memory_embedding_exists() {
    let conn = create_test_db();
    let count: i32 = conn
        .query_row(
            "SELECT COUNT(*) FROM sqlite_master WHERE type='table' AND name='memory_embedding'",
            [],
            |row| row.get(0),
        )
        .unwrap();
    assert_eq!(
        count, 1,
        "memory_embedding table must be explicitly defined"
    );
    let col_count: i32 = conn
        .query_row(
            "SELECT COUNT(*) FROM pragma_table_info('memory_embedding')",
            [],
            |row| row.get(0),
        )
        .unwrap();
    assert_eq!(col_count, 5, "memory_embedding should have 5 columns: path, embedding, model, dimensions, created_at");
}

#[test]
fn test_init_idempotent() {
    let conn = create_test_db();
    let count_after_first: i32 = {
        conn.query_row(
            "SELECT COUNT(*) FROM sqlite_master WHERE type='table'",
            [],
            |row| row.get(0),
        )
        .unwrap()
    };
    initialize(&conn);
    let count_after_second: i32 = {
        conn.query_row(
            "SELECT COUNT(*) FROM sqlite_master WHERE type='table'",
            [],
            |row| row.get(0),
        )
        .unwrap()
    };
    assert_eq!(
        count_after_first, count_after_second,
        "Idempotent init should not duplicate tables"
    );
}

#[test]
fn test_session_schema() {
    let conn = create_test_db();
    let cols: Vec<String> = conn
        .prepare("SELECT name FROM pragma_table_info('sessions')")
        .unwrap()
        .query_map([], |row| row.get(0))
        .unwrap()
        .collect::<Result<Vec<_>, _>>()
        .unwrap();
    assert!(cols.contains(&"id".to_string()));
    assert!(cols.contains(&"created_at".to_string()));
    assert!(cols.contains(&"workspace".to_string()));
    assert!(cols.contains(&"status".to_string()));
}

#[test]
fn test_task_schema() {
    let conn = create_test_db();
    let cols: Vec<String> = conn
        .prepare("SELECT name FROM pragma_table_info('tasks')")
        .unwrap()
        .query_map([], |row| row.get(0))
        .unwrap()
        .collect::<Result<Vec<_>, _>>()
        .unwrap();
    assert!(cols.contains(&"id".to_string()));
    assert!(cols.contains(&"session_id".to_string()));
    assert!(cols.contains(&"subject".to_string()));
    assert!(cols.contains(&"status".to_string()));
    assert!(cols.contains(&"run_generation".to_string()));
    assert!(cols.contains(&"blocked_by".to_string()));
    assert!(cols.contains(&"blocks".to_string()));
}

#[test]
fn test_task_working_directory_nullable() {
    let conn = create_test_db();
    let (notnull, dflt_value): (i32, Option<String>) = conn
        .query_row(
            "SELECT `notnull`, `dflt_value` FROM pragma_table_info('tasks') WHERE name='working_directory'",
            [],
            |row| Ok((row.get(0)?, row.get(1)?)),
        )
        .unwrap();
    assert_eq!(notnull, 0, "working_directory must be nullable (notnull=0)");
    assert_eq!(
        dflt_value, None,
        "working_directory must have no DEFAULT (dflt_value=NULL)"
    );
}

#[test]
fn test_recover_orphans_returns_structured_counts() {
    let conn = create_test_db();
    {
        conn.execute(
            "INSERT INTO sessions (id, created_at, workspace, status) \
             VALUES ('recover-sess', 1, '/tmp', 'active')",
            [],
        )
        .unwrap();
        conn.execute(
            "INSERT INTO workflows (id, name) VALUES ('recover-wf', 'recover-wf')",
            [],
        )
        .unwrap();
        conn.execute(
            "INSERT INTO workflow_executions \
             (id, workflow_id, session_id, status, start_time, created_at) \
             VALUES ('recover-exec', 'recover-wf', 'recover-sess', 'running', 1, 1)",
            [],
        )
        .unwrap();
        conn.execute(
            "INSERT INTO agent_state \
             (session_id, agent_id, agent_name, agent_role, task_id, status, stopped, iteration, timestamp) \
             VALUES ('recover-sess', 'recover-agent', 'Recover Agent', 'worker', 'task', 'running', 0, 0, 1)",
            [],
        )
        .unwrap();
    }

    let report = recover_orphans(&conn);
    assert_eq!(
        report,
        RecoveryReport {
            workflows_paused: 1,
            agents_stopped: 1,
        }
    );
    assert!(report.recovered_any());

    let workflow_status: String = conn
        .query_row(
            "SELECT status FROM workflow_executions WHERE id = 'recover-exec'",
            [],
            |row| row.get(0),
        )
        .unwrap();
    let (agent_status, stopped): (String, i64) = conn
        .query_row(
            "SELECT status, stopped FROM agent_state WHERE agent_id = 'recover-agent'",
            [],
            |row| Ok((row.get(0)?, row.get(1)?)),
        )
        .unwrap();
    assert_eq!(workflow_status, "paused");
    assert_eq!(agent_status, "stopped");
    assert_eq!(stopped, 1);
}

#[test]
fn test_task_blocked_by_and_blocks_nullable() {
    let conn = create_test_db();
    for col in &["blocked_by", "blocks", "write_scope"] {
        let (notnull,): (i32,) = conn
            .query_row(
                "SELECT `notnull` FROM pragma_table_info('tasks') WHERE name=?1",
                [col],
                |row| Ok((row.get(0)?,)),
            )
            .unwrap();
        assert_eq!(
            notnull, 0,
            "tasks.{} must be nullable (notnull=0)",
            col
        );
    }
}

#[test]
fn test_event_log_schema() {
    let conn = create_test_db();
    let cols: Vec<String> = conn
        .prepare("SELECT name FROM pragma_table_info('event_log')")
        .unwrap()
        .query_map([], |row| row.get(0))
        .unwrap()
        .collect::<Result<Vec<_>, _>>()
        .unwrap();
    assert!(cols.contains(&"event_id".to_string()));
    assert!(cols.contains(&"session_id".to_string()));
    assert!(cols.contains(&"seq".to_string()));
    assert!(cols.contains(&"generation".to_string()));
    assert!(cols.contains(&"event_type".to_string()));
    assert!(cols.contains(&"source_kind".to_string()));
    assert!(cols.contains(&"source_id".to_string()));
    assert!(cols.contains(&"payload".to_string()));
    assert!(cols.contains(&"occurred_at".to_string()));
    assert!(cols.contains(&"causation_id".to_string()));
    assert!(cols.contains(&"correlation_id".to_string()));
}

#[test]
fn test_event_log_meta_schema() {
    let conn = create_test_db();
    let cols: Vec<String> = conn
        .prepare("SELECT name FROM pragma_table_info('event_log_meta')")
        .unwrap()
        .query_map([], |row| row.get(0))
        .unwrap()
        .collect::<Result<Vec<_>, _>>()
        .unwrap();
    assert!(cols.contains(&"session_id".to_string()));
    assert!(cols.contains(&"last_seq".to_string()));
    assert!(cols.contains(&"current_generation".to_string()));
}

#[test]
fn test_ddl_contains_single_traces_create() {
    let traces_count = DDL_TABLES
        .matches("CREATE TABLE IF NOT EXISTS traces")
        .count();
    assert_eq!(
        traces_count, 1,
        "traces DDL must be defined exactly once in DDL_TABLES"
    );
}

#[test]
fn test_memory_embedding_comment() {
    assert!(
        DDL_TABLES
            .contains("memory_embedding: explicitly defined (missing from TS MemoryFTS.ts"),
        "memory_embedding must say why it is defined here"
    );
}

#[test]
fn test_only_duplicate_columns_are_forgiven() {
    assert!(is_upgrade_already_made("duplicate column name: scope"));
    assert!(!is_upgrade_already_made("no such table: permission_grants"));
    assert_eq!(schema_version_pragma(), "PRAGMA user_version = 19;");
    assert!(!RecoveryReport { workflows_paused: 0, agents_stopped: 0 }.recovered_any());
}

#[test]
fn test_event_id_uniqueness_enforced_by_db() {
    let conn = create_test_db();
    conn.execute(
        "INSERT INTO event_log \
         (event_id, session_id, seq, generation, event_type, source_kind, \
          payload, occurred_at) \
         VALUES ('dup-test', 's', 1, 1, 't', 'system', '{}', 0)",
        [],
    )
    .unwrap();
    let err = conn.execute(
        "INSERT INTO event_log \
         (event_id, session_id, seq, generation, event_type, source_kind, \
          payload, occurred_at) \
         VALUES ('dup-test', 's', 2, 1, 't', 'system', '{}', 0)",
        [],
    );
    assert!(
        err.is_err(),
        "DB UNIQUE constraint on event_id should reject duplicate"
    );
}

#[test]
fn test_session_seq_uniqueness_enforced() {
    let conn = create_test_db();
    conn.execute(
        "INSERT INTO event_log \
         (event_id, session_id, seq, generation, event_type, source_kind, \
          payload, occurred_at) \
         VALUES ('a', 's1', 1, 1, 't', 'system', '{}', 0)",
        [],
    )
    .unwrap();
    let err = conn.execute(
        "INSERT INTO event_log \
         (event_id, session_id, seq, generation, event_type, source_kind, \
          payload, occurred_at) \
         VALUES ('b', 's1', 1, 1, 't', 'system', '{}', 0)",
        [],
    );
    assert!(
        err.is_err(),
        "PRIMARY KEY (session_id, seq) should reject duplicate"
    );
}
