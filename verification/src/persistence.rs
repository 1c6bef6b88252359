//! The schema of the store, and the rules of opening and repairing it.
use vstd::prelude::*;

use crate::text::{chars_of, contains_text, decimal, decimal_string, text_contains};

verus! {

pub const SCHEMA_VERSION: u32 = 19;

/// What a sweep after a crash has put right.
#[derive(Debug, Clone, Copy, PartialEq, Eq, Structural)]
pub struct RecoveryReport {
    pub workflows_paused: usize,
    pub agents_stopped: usize,
}

impl RecoveryReport {
    pub fn recovered_any(self) -> (b: bool)
        ensures
            b == (self.workflows_paused > 0 || self.agents_stopped > 0),
    {
        self.workflows_paused > 0 || self.agents_stopped > 0
    }
}

#[derive(Debug, Clone)]
pub struct DbConfig {
    pub path: String,
    pub busy_timeout_ms: u32,
    pub wal_autocheckpoint: u32,
}

impl Default for DbConfig {
    fn default() -> (c: Self)
        ensures
            c.path@ == "lingxiao.db"@,
            c.busy_timeout_ms == 30000,
            c.wal_autocheckpoint == 1000,
    {
        DbConfig {
            path: "lingxiao.db".to_owned(),
            busy_timeout_ms: 30000,
            wal_autocheckpoint: 1000,
        }
    }
}

/// The statement that records the version of the schema.
pub fn schema_version_pragma() -> (s: String)
    ensures
        s@ == "PRAGMA user_version = "@ + decimal(19) + ";"@,
{
    let mut s = "PRAGMA user_version = ".to_owned();
    let version = decimal_string(SCHEMA_VERSION as u64);
    s.append(version.as_str());
    s.append(";");
    s
}

/// Whether an error of adding a column says only that the column is there: then the
/// upgrade had been made before.
pub fn is_upgrade_already_made(message: &str) -> (b: bool)
    ensures
        b == contains_text(message@, "duplicate column name"@),
{
    let v = chars_of(message);
    let p = chars_of("duplicate column name");
    text_contains(&v, &p)
}

/// The settings of each connection.
pub const PRAGMA_INIT: &'static str = "\
    PRAGMA journal_mode = WAL;\
    PRAGMA busy_timeout = 30000;\
    PRAGMA foreign_keys = ON;\
    PRAGMA synchronous = NORMAL;\
    PRAGMA wal_autocheckpoint = 1000;\
    PRAGMA temp_store = MEMORY;\
";

/// The tables.
pub const DDL_TABLES: &'static str = "
    CREATE TABLE IF NOT EXISTS sessions (
        id TEXT PRIMARY KEY,
        created_at REAL NOT NULL,
        workspace TEXT NOT NULL,
        user_request TEXT,
        status TEXT NOT NULL DEFAULT 'active',
        summary TEXT,
        name TEXT
    );

    CREATE TABLE IF NOT EXISTS tasks (
        id TEXT NOT NULL,
        session_id TEXT NOT NULL,
        subject TEXT NOT NULL,
        description TEXT NOT NULL,
        context TEXT,
        status TEXT NOT NULL,
        exit_reason TEXT,
        run_generation INTEGER NOT NULL DEFAULT 0,
        agent_type TEXT NOT NULL,
        blocked_by TEXT,
        blocks TEXT,
        assigned_agent TEXT NOT NULL,
        preferred_agent_name TEXT,
        working_directory TEXT,
        write_scope TEXT,
        result TEXT,
        blocked_reason TEXT,
        orchestration TEXT,
        origin TEXT,
        goal TEXT,
        task_type TEXT,
        created_at REAL NOT NULL,
        updated_at REAL NOT NULL,
        PRIMARY KEY (id, session_id)
    );

    CREATE TABLE IF NOT EXISTS messages (
        id INTEGER PRIMARY KEY AUTOINCREMENT,
        session_id TEXT NOT NULL,
        sender TEXT NOT NULL,
        recipient TEXT NOT NULL,
        content TEXT NOT NULL,
        timestamp REAL NOT NULL
    );

    CREATE TABLE IF NOT EXISTS agent_logs (
        id INTEGER PRIMARY KEY AUTOINCREMENT,
        session_id TEXT NOT NULL,
        agent_id TEXT NOT NULL,
        agent_name TEXT NOT NULL,
        agent_role TEXT NOT NULL,
        task_id TEXT NOT NULL,
        event_type TEXT NOT NULL,
        content TEXT NOT NULL,
        token_usage TEXT,
        action TEXT,
        details TEXT,
        timestamp REAL NOT NULL
    );

    CREATE TABLE IF NOT EXISTS agent_state (
        session_id TEXT NOT NULL,
        agent_id TEXT NOT NULL,
        agent_name TEXT NOT NULL,
        agent_role TEXT NOT NULL,
        task_id TEXT NOT NULL,
        status TEXT NOT NULL,
        stopped INTEGER NOT NULL,
        iteration INTEGER NOT NULL,
        timestamp REAL NOT NULL,
        UNIQUE(session_id, agent_id)
    );

    CREATE TABLE IF NOT EXISTS session_state (
        session_id TEXT NOT NULL,
        key TEXT NOT NULL,
        value TEXT NOT NULL,
        timestamp REAL NOT NULL,
        UNIQUE(session_id, key)
    );

    CREATE TABLE IF NOT EXISTS leader_conversation (
        id INTEGER PRIMARY KEY AUTOINCREMENT,
        session_id TEXT NOT NULL,
        role TEXT NOT NULL,
        content TEXT NOT NULL,
        tool_calls TEXT,
        tool_call_id TEXT,
        thinking_blocks TEXT,
        timestamp REAL NOT NULL
    );

    CREATE TABLE IF NOT EXISTS agent_conversation (
        id INTEGER PRIMARY KEY AUTOINCREMENT,
        session_id TEXT NOT NULL,
        agent_id TEXT NOT NULL,
        agent_name TEXT NOT NULL,
        role TEXT NOT NULL,
        content TEXT NOT NULL,
        tool_calls TEXT,
        tool_call_id TEXT,
        thinking_blocks TEXT,
        timestamp REAL NOT NULL
    );

    CREATE TABLE IF NOT EXISTS token_usage (
        id INTEGER PRIMARY KEY AUTOINCREMENT,
        session_id TEXT NOT NULL,
        agent_id TEXT NOT NULL,
        agent_name TEXT NOT NULL,
        model_name TEXT NOT NULL,
        prompt_tokens INTEGER NOT NULL,
        completion_tokens INTEGER NOT NULL,
        total_tokens INTEGER NOT NULL,
        cache_read_tokens INTEGER DEFAULT 0,
        cache_creation_tokens INTEGER DEFAULT 0,
        timestamp REAL NOT NULL
    );

    CREATE TABLE IF NOT EXISTS llm_gateway_requests (
        id INTEGER PRIMARY KEY AUTOINCREMENT,
        trace_id TEXT NOT NULL,
        session_id TEXT,
        agent_id TEXT,
        agent_name TEXT,
        key_id TEXT,
        key_label TEXT,
        profile TEXT,
        requested_model TEXT,
        selected_model TEXT,
        final_model TEXT,
        provider TEXT,
        status TEXT NOT NULL,
        prompt_tokens INTEGER DEFAULT 0,
        completion_tokens INTEGER DEFAULT 0,
        total_tokens INTEGER DEFAULT 0,
        cache_read_tokens INTEGER DEFAULT 0,
        cache_creation_tokens INTEGER DEFAULT 0,
        latency_ms INTEGER DEFAULT 0,
        attempts_json TEXT,
        error_kind TEXT,
        error_message TEXT,
        created_at REAL NOT NULL
    );

    -- traces: defined only once
    CREATE TABLE IF NOT EXISTS traces (
        trace_id TEXT NOT NULL,
        span_id TEXT PRIMARY KEY,
        parent_span_id TEXT,
        operation TEXT NOT NULL,
        start_ts INTEGER NOT NULL,
        end_ts INTEGER,
        status TEXT DEFAULT 'ok',
        attributes TEXT,
        session_id TEXT,
        agent_id TEXT
    );

    CREATE TABLE IF NOT EXISTS execution_trace_events (
        id TEXT PRIMARY KEY,
        project_root TEXT NOT NULL,
        session_id TEXT,
        task_id TEXT,
        agent_id TEXT,
        agent_name TEXT,
        agent_role TEXT,
        task_type TEXT,
        status TEXT NOT NULL,
        duration_ms INTEGER NOT NULL DEFAULT 0,
        files_changed TEXT NOT NULL DEFAULT '[]',
        error_signature TEXT,
        fix_pattern TEXT,
        verification TEXT,
        metadata TEXT,
        created_at REAL NOT NULL
    );

    CREATE TABLE IF NOT EXISTS execution_project_models (
        project_root TEXT PRIMARY KEY,
        model_json TEXT NOT NULL,
        rebuilt_at REAL NOT NULL
    );

    CREATE TABLE IF NOT EXISTS workflows (
        id TEXT PRIMARY KEY,
        name TEXT NOT NULL,
        description TEXT,
        workspace TEXT,
        nodes TEXT,
        edges TEXT,
        version TEXT DEFAULT '1.0.0',
        config TEXT,
        tags TEXT,
        created_at REAL,
        updated_at REAL,
        created_by TEXT
    );

    CREATE TABLE IF NOT EXISTS workflow_executions (
        id TEXT PRIMARY KEY,
        workflow_id TEXT NOT NULL REFERENCES workflows(id) ON DELETE CASCADE,
        session_id TEXT NOT NULL,
        status TEXT NOT NULL,
        start_time INTEGER NOT NULL,
        end_time INTEGER,
        context TEXT,
        error TEXT,
        created_at INTEGER NOT NULL
    );

    CREATE TABLE IF NOT EXISTS workflow_execution_logs (
        id INTEGER PRIMARY KEY AUTOINCREMENT,
        execution_id TEXT NOT NULL REFERENCES workflow_executions(id) ON DELETE CASCADE,
        timestamp INTEGER NOT NULL,
        level TEXT NOT NULL,
        node_id TEXT,
        message TEXT NOT NULL,
        data TEXT
    );

    CREATE TABLE IF NOT EXISTS workflow_node_state (
        execution_id TEXT NOT NULL REFERENCES workflow_executions(id) ON DELETE CASCADE,
        node_id TEXT NOT NULL,
        node_type TEXT NOT NULL,
        status TEXT NOT NULL,
        output_json TEXT,
        error TEXT,
        attempt INTEGER NOT NULL DEFAULT 0,
        generation INTEGER NOT NULL DEFAULT 1,
        started_at INTEGER,
        completed_at INTEGER,
        updated_at INTEGER NOT NULL,
        PRIMARY KEY (execution_id, node_id)
    );

    CREATE TABLE IF NOT EXISTS scheduled_tasks (
        id TEXT PRIMARY KEY,
        session_id TEXT NOT NULL,
        cron TEXT NOT NULL,
        prompt TEXT NOT NULL,
        task_type TEXT NOT NULL DEFAULT 'prompt',
        intensity TEXT NOT NULL DEFAULT 'normal',
        audience TEXT NOT NULL DEFAULT 'personal',
        workflow_id TEXT,
        workflow_input TEXT,
        last_execution_id TEXT,
        last_error TEXT,
        source_type TEXT,
        source_id TEXT,
        source_node_id TEXT,
        recurring INTEGER NOT NULL DEFAULT 1,
        durable INTEGER NOT NULL DEFAULT 0,
        enabled INTEGER NOT NULL DEFAULT 1,
        last_run_at REAL,
        next_run_at REAL,
        created_at REAL NOT NULL
    );

    CREATE TABLE IF NOT EXISTS health_reports (
        id INTEGER PRIMARY KEY AUTOINCREMENT,
        session_id TEXT NOT NULL,
        timestamp REAL NOT NULL,
        source TEXT NOT NULL,
        has_critical INTEGER NOT NULL DEFAULT 0,
        decisions TEXT NOT NULL
    );

    CREATE TABLE IF NOT EXISTS worktrees (
        id TEXT PRIMARY KEY,
        name TEXT NOT NULL,
        repo_root TEXT NOT NULL,
        path TEXT NOT NULL UNIQUE,
        branch TEXT NOT NULL,
        base_branch TEXT NOT NULL,
        session_id TEXT,
        task_id TEXT,
        status TEXT NOT NULL DEFAULT 'active',
        created_at REAL NOT NULL,
        updated_at REAL NOT NULL,
        last_error TEXT
    );

    CREATE TABLE IF NOT EXISTS graph_nodes (
        id TEXT NOT NULL,
        session_id TEXT NOT NULL,
        kind TEXT NOT NULL,
        title TEXT NOT NULL,
        content TEXT NOT NULL,
        tags TEXT NOT NULL DEFAULT '[]',
        created_by TEXT NOT NULL,
        created_at REAL NOT NULL,
        superseded_by TEXT,
        confidence TEXT,
        intent_status TEXT,
        priority INTEGER,
        evidence TEXT,
        intent_from TEXT,
        intent_to TEXT,
        contract_allowed_scope TEXT,
        PRIMARY KEY (id, session_id)
    );

    CREATE TABLE IF NOT EXISTS graph_edges (
        id TEXT NOT NULL,
        session_id TEXT NOT NULL,
        from_node_id TEXT NOT NULL,
        to_node_id TEXT NOT NULL,
        edge_type TEXT NOT NULL,
        created_at REAL NOT NULL,
        created_by TEXT NOT NULL,
        metadata TEXT,
        PRIMARY KEY (id, session_id)
    );

    CREATE TABLE IF NOT EXISTS assumptions (
        id TEXT PRIMARY KEY,
        title TEXT NOT NULL,
        content TEXT,
        status TEXT NOT NULL DEFAULT 'unverified',
        verification_type TEXT NOT NULL,
        verification_target TEXT NOT NULL,
        verification_expected TEXT NOT NULL,
        verification_actual TEXT,
        dependents TEXT NOT NULL DEFAULT '[]',
        created_by TEXT,
        created_at REAL NOT NULL,
        verified_at REAL,
        falsified_at REAL,
        evidence TEXT,
        session_id TEXT
    );

    CREATE TABLE IF NOT EXISTS tool_registrations (
        id INTEGER PRIMARY KEY AUTOINCREMENT,
        session_id TEXT NOT NULL,
        tool_name TEXT NOT NULL,
        tool_type TEXT NOT NULL DEFAULT 'class',
        tool_description TEXT NOT NULL DEFAULT '',
        tool_schema TEXT NOT NULL DEFAULT '{}',
        registered_at REAL NOT NULL,
        UNIQUE(session_id, tool_name)
    );

    -- Tool calls: canonical tool and sidecar state, and resource accounting.
    CREATE TABLE IF NOT EXISTS tool_calls (
        id TEXT NOT NULL,
        session_id TEXT NOT NULL,
        tool_name TEXT NOT NULL,
        tool_type TEXT NOT NULL DEFAULT 'native',
        status TEXT NOT NULL,
        args_json TEXT NOT NULL DEFAULT '{}',
        result_json TEXT,
        error TEXT,
        started_at INTEGER NOT NULL,
        completed_at INTEGER,
        cancelled_at INTEGER,
        resource_usage_json TEXT NOT NULL DEFAULT '{}',
        PRIMARY KEY (session_id, id)
    );

    CREATE TABLE IF NOT EXISTS owned_processes (
        id TEXT PRIMARY KEY,
        pid INTEGER NOT NULL,
        owner_kind TEXT NOT NULL,
        owner_id TEXT NOT NULL,
        label TEXT NOT NULL,
        status TEXT NOT NULL,
        started_at REAL NOT NULL,
        completed_at REAL,
        cleanup_attempted_at REAL,
        exit_code INTEGER,
        last_error TEXT
    );

    CREATE TABLE IF NOT EXISTS terminal_sessions (
        id TEXT PRIMARY KEY,
        session_id TEXT NOT NULL,
        pid INTEGER NOT NULL,
        shell TEXT NOT NULL,
        cwd TEXT,
        status TEXT NOT NULL,
        created_at REAL NOT NULL,
        last_activity_at REAL NOT NULL,
        completed_at REAL,
        exit_code INTEGER,
        last_error TEXT
    );

    CREATE TABLE IF NOT EXISTS teams (
        name TEXT NOT NULL,
        description TEXT,
        leader_name TEXT NOT NULL,
        members_json TEXT NOT NULL DEFAULT '[]',
        workspace TEXT NOT NULL,
        session_id TEXT NOT NULL,
        created_at REAL NOT NULL,
        active INTEGER NOT NULL DEFAULT 1,
        PRIMARY KEY (session_id, name)
    );

    CREATE TABLE IF NOT EXISTS team_members (
        name TEXT NOT NULL,
        team TEXT NOT NULL,
        role TEXT NOT NULL,
        workspace TEXT NOT NULL,
        session_id TEXT NOT NULL,
        registered_at REAL NOT NULL,
        PRIMARY KEY (session_id, name)
    );

    CREATE TABLE IF NOT EXISTS team_messages (
        id TEXT PRIMARY KEY,
        from_team TEXT NOT NULL,
        from_member TEXT,
        to_team TEXT NOT NULL,
        to_member TEXT,
        content TEXT NOT NULL,
        urgency TEXT NOT NULL DEFAULT 'normal',
        kind TEXT NOT NULL DEFAULT 'normal',
        request_id TEXT,
        session_id TEXT NOT NULL,
        timestamp REAL NOT NULL,
        read_by TEXT NOT NULL DEFAULT '[]',
        metadata TEXT
    );

    -- memory_entry: kept in the same database.
    CREATE TABLE IF NOT EXISTS memory_entry (
        id TEXT PRIMARY KEY,
        path TEXT NOT NULL UNIQUE,
        scope TEXT NOT NULL,
        scope_id TEXT NOT NULL,
        type TEXT NOT NULL,
        body TEXT NOT NULL,
        fingerprint TEXT NOT NULL,
        last_indexed_at INTEGER NOT NULL
    );

    CREATE VIRTUAL TABLE IF NOT EXISTS memory_fts USING fts5(
        path UNINDEXED,
        scope UNINDEXED,
        scope_id UNINDEXED,
        type UNINDEXED,
        body
    );

    -- memory_embedding: explicitly defined (missing from TS MemoryFTS.ts).
    -- Whether memory gets a database of its own is open; until then it is defined here.
    CREATE TABLE IF NOT EXISTS memory_embedding (
        path TEXT PRIMARY KEY,
        embedding BLOB NOT NULL,
        model TEXT NOT NULL,
        dimensions INTEGER NOT NULL,
        created_at INTEGER NOT NULL
    );

    -- Event log: ordered durable event store for command sourcing and recovery.
    -- Columns mirror EventEnvelope; event_id is globally UNIQUE for idempotency;
    -- (session_id, seq) is the logical primary key for per-session ordering.
    CREATE TABLE IF NOT EXISTS event_log (
        event_id TEXT NOT NULL UNIQUE,
        session_id TEXT NOT NULL,
        seq INTEGER NOT NULL,
        generation INTEGER NOT NULL DEFAULT 1,
        event_type TEXT NOT NULL,
        source_kind TEXT NOT NULL,
        source_id TEXT,
        payload TEXT NOT NULL DEFAULT '{}',
        occurred_at INTEGER NOT NULL,
        causation_id TEXT,
        correlation_id TEXT,
        PRIMARY KEY (session_id, seq)
    );

    CREATE TABLE IF NOT EXISTS event_log_meta (
        session_id TEXT PRIMARY KEY,
        last_seq INTEGER NOT NULL DEFAULT 0,
        current_generation INTEGER NOT NULL DEFAULT 1,
        compacted_seq INTEGER NOT NULL DEFAULT 0
    );

    -- Command-level idempotency dedup table (composite PK: key + method)
    CREATE TABLE IF NOT EXISTS command_dedupe (
        idempotency_key TEXT NOT NULL,
        method TEXT NOT NULL,
        response_json TEXT NOT NULL,
        created_at INTEGER NOT NULL,
        PRIMARY KEY (idempotency_key, method)
    );

    CREATE TABLE IF NOT EXISTS provider_health (
        provider_id TEXT PRIMARY KEY,
        failure_count INTEGER NOT NULL DEFAULT 0,
        last_failure_ms INTEGER NOT NULL DEFAULT 0,
        circuit_open INTEGER NOT NULL DEFAULT 0,
        updated_at INTEGER NOT NULL
    );

    CREATE TABLE IF NOT EXISTS permission_modes (
        session_id TEXT PRIMARY KEY,
        mode TEXT NOT NULL,
        generation INTEGER NOT NULL DEFAULT 1,
        updated_at INTEGER NOT NULL
    );

    CREATE TABLE IF NOT EXISTS permission_requests (
        id TEXT PRIMARY KEY,
        session_id TEXT NOT NULL,
        tool_name TEXT NOT NULL,
        args_json TEXT NOT NULL DEFAULT '{}',
        mode TEXT NOT NULL,
        status TEXT NOT NULL,
        decision TEXT,
        reason TEXT,
        created_at INTEGER NOT NULL,
        resolved_at INTEGER
    );

    CREATE TABLE IF NOT EXISTS permission_grants (
        session_id TEXT NOT NULL,
        tool_name TEXT NOT NULL,
        mode TEXT NOT NULL,
        scope TEXT,
        granted_at INTEGER NOT NULL,
        PRIMARY KEY (session_id, tool_name)
    );
";

/// The indexes.
pub const DDL_INDEXES: &'static str = "
    CREATE INDEX IF NOT EXISTS idx_messages_session ON messages(session_id);
    CREATE INDEX IF NOT EXISTS idx_tasks_session ON tasks(session_id);
    CREATE INDEX IF NOT EXISTS idx_agent_logs_session ON agent_logs(session_id);
    CREATE INDEX IF NOT EXISTS idx_agent_state_session ON agent_state(session_id);
    CREATE INDEX IF NOT EXISTS idx_leader_conv_session ON leader_conversation(session_id);
    CREATE INDEX IF NOT EXISTS idx_agent_conv_session ON agent_conversation(session_id, agent_id);
    CREATE INDEX IF NOT EXISTS idx_token_usage_session ON token_usage(session_id);
    CREATE INDEX IF NOT EXISTS idx_llm_gateway_trace ON llm_gateway_requests(trace_id);
    CREATE INDEX IF NOT EXISTS idx_llm_gateway_session ON llm_gateway_requests(session_id, created_at);
    CREATE INDEX IF NOT EXISTS idx_llm_gateway_key ON llm_gateway_requests(key_id, created_at);
    CREATE INDEX IF NOT EXISTS idx_traces_trace ON traces(trace_id);
    CREATE INDEX IF NOT EXISTS idx_traces_session ON traces(session_id, start_ts);
    CREATE INDEX IF NOT EXISTS idx_execution_trace_project ON execution_trace_events(project_root, created_at);
    CREATE INDEX IF NOT EXISTS idx_execution_trace_task ON execution_trace_events(session_id, task_id);
    CREATE INDEX IF NOT EXISTS idx_execution_trace_status ON execution_trace_events(project_root, status);
    CREATE INDEX IF NOT EXISTS idx_workflow_executions_workflow ON workflow_executions(workflow_id);
    CREATE INDEX IF NOT EXISTS idx_workflow_executions_session ON workflow_executions(session_id);
    CREATE INDEX IF NOT EXISTS idx_workflow_logs_execution ON workflow_execution_logs(execution_id);
    CREATE INDEX IF NOT EXISTS idx_workflow_logs_timestamp ON workflow_execution_logs(timestamp);
    CREATE INDEX IF NOT EXISTS idx_workflow_node_state_status ON workflow_node_state(execution_id, status);
    CREATE INDEX IF NOT EXISTS idx_workflow_node_state_updated ON workflow_node_state(execution_id, updated_at);
    CREATE INDEX IF NOT EXISTS idx_scheduled_tasks_session ON scheduled_tasks(session_id);
    CREATE INDEX IF NOT EXISTS idx_scheduled_tasks_next ON scheduled_tasks(next_run_at);
    CREATE INDEX IF NOT EXISTS idx_scheduled_tasks_workflow ON scheduled_tasks(workflow_id) WHERE workflow_id IS NOT NULL;
    CREATE INDEX IF NOT EXISTS idx_scheduled_tasks_source ON scheduled_tasks(source_type, source_id, source_node_id) WHERE source_type IS NOT NULL;
    CREATE INDEX IF NOT EXISTS idx_hr_session_ts ON health_reports(session_id, timestamp);
    CREATE INDEX IF NOT EXISTS idx_worktrees_session ON worktrees(session_id);
    CREATE INDEX IF NOT EXISTS idx_worktrees_repo ON worktrees(repo_root);
    CREATE INDEX IF NOT EXISTS idx_worktrees_status ON worktrees(status);
    CREATE INDEX IF NOT EXISTS idx_graph_nodes_session ON graph_nodes(session_id);
    CREATE INDEX IF NOT EXISTS idx_graph_nodes_kind ON graph_nodes(session_id, kind);
    CREATE INDEX IF NOT EXISTS idx_graph_nodes_status ON graph_nodes(session_id, intent_status);
    CREATE INDEX IF NOT EXISTS idx_graph_edges_from ON graph_edges(session_id, from_node_id);
    CREATE INDEX IF NOT EXISTS idx_graph_edges_to ON graph_edges(session_id, to_node_id);
    CREATE INDEX IF NOT EXISTS idx_graph_edges_type ON graph_edges(session_id, edge_type);
    CREATE INDEX IF NOT EXISTS idx_assumptions_status ON assumptions(status, session_id);
    CREATE INDEX IF NOT EXISTS idx_assumptions_target ON assumptions(session_id, verification_target);
    CREATE INDEX IF NOT EXISTS idx_tool_registrations_session ON tool_registrations(session_id);
    CREATE INDEX IF NOT EXISTS idx_tool_registrations_name ON tool_registrations(tool_name);
    CREATE INDEX IF NOT EXISTS idx_tool_calls_session ON tool_calls(session_id);
    CREATE INDEX IF NOT EXISTS idx_tool_calls_status ON tool_calls(session_id, status);
    CREATE INDEX IF NOT EXISTS idx_teams_session ON teams(session_id);
    CREATE INDEX IF NOT EXISTS idx_team_members_team ON team_members(team);
    CREATE INDEX IF NOT EXISTS idx_team_members_session ON team_members(session_id);
    CREATE INDEX IF NOT EXISTS idx_team_messages_to_team ON team_messages(to_team);
    CREATE INDEX IF NOT EXISTS idx_team_messages_to_member ON team_messages(to_member);
    CREATE INDEX IF NOT EXISTS idx_team_messages_session ON team_messages(session_id);
    CREATE INDEX IF NOT EXISTS memory_scope_idx ON memory_entry(scope, scope_id);
    CREATE INDEX IF NOT EXISTS memory_type_idx ON memory_entry(type);
    CREATE INDEX IF NOT EXISTS idx_event_log_session ON event_log(session_id, seq);
";

/// Upgrades of older databases: a column that they lack.
pub const ADD_COMPACTED_SEQ: &'static str =
    "ALTER TABLE event_log_meta ADD COLUMN compacted_seq INTEGER NOT NULL DEFAULT 0";

/// Upgrades of older databases: tables that they lack.
pub const UPGRADE_TABLES: &'static str = "
    CREATE TABLE IF NOT EXISTS owned_processes (
        id TEXT PRIMARY KEY,
        pid INTEGER NOT NULL,
        owner_kind TEXT NOT NULL,
        owner_id TEXT NOT NULL,
        label TEXT NOT NULL,
        status TEXT NOT NULL,
        started_at REAL NOT NULL,
        completed_at REAL,
        cleanup_attempted_at REAL,
        exit_code INTEGER,
        last_error TEXT
    );
    CREATE TABLE IF NOT EXISTS terminal_sessions (
        id TEXT PRIMARY KEY,
        session_id TEXT NOT NULL,
        pid INTEGER NOT NULL,
        shell TEXT NOT NULL,
        cwd TEXT,
        status TEXT NOT NULL,
        created_at REAL NOT NULL,
        last_activity_at REAL NOT NULL,
        completed_at REAL,
        exit_code INTEGER,
        last_error TEXT
    );
    CREATE TABLE IF NOT EXISTS provider_health (
        provider_id TEXT PRIMARY KEY,
        failure_count INTEGER NOT NULL DEFAULT 0,
        last_failure_ms INTEGER NOT NULL DEFAULT 0,
        circuit_open INTEGER NOT NULL DEFAULT 0,
        updated_at INTEGER NOT NULL
    );
";

/// Upgrades of older databases: a column that they lack.
pub const ADD_GRANT_SCOPE: &'static str = "ALTER TABLE permission_grants ADD COLUMN scope TEXT";

/// Recovery after a crash: workflows that ran are paused.
pub const PAUSE_STUCK_WORKFLOWS: &'static str =
    "UPDATE workflow_executions SET status = 'paused' WHERE status = 'running'";

/// Recovery after a crash: agents that ran are stopped, at the time given.
pub const STOP_STUCK_AGENTS: &'static str =
    "UPDATE agent_state SET status = 'stopped', stopped = 1, timestamp = ? WHERE status = 'running'";

} // verus!
