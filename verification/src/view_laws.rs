//! What contracts say of a value is said of all of it: values of which the same is seen have
//! the same contents, part by part.
use vstd::prelude::*;

use crate::agent::escalation::ToolFailureLoopEscalation;
use crate::agent::failure_guard::{LoopGuardDecision, ToolFailureRecord};
use crate::agent::run::{AgentContextMessage, AgentEvent, ToolResult};
use crate::bus::DeadLetter;
use crate::context::{ActiveContextMessage, ConversationMessage};
use crate::event_log::EventRow;
use crate::leader::LeaderTaskDraft;
use crate::llm::registry::ModelRoutingMetadata;
use crate::llm::types::{AuthContext, StreamEvent, call_views, message_views, tool_views, GenerateRequest, Message, ProviderError, ToolCall, ToolDefinition};
use crate::protocol::actor::Actor;
use crate::protocol::command::{CommandEnvelope, CommandResponse};
use crate::protocol::error::CoreError;
use crate::protocol::event::{event_views, EventEnvelope};
use crate::protocol::snapshot::SnapshotEnvelope;
use crate::repl::RuntimeCandidate;
use crate::sidecar::{SidecarError, SidecarExecution};
use crate::terminal::TerminalRead;
use crate::text::texts;

verus! {

/// What is seen of an event envelope tells all of its parts.
pub proof fn law_event_envelope_views_tell_all(a: EventEnvelope, b: EventEnvelope)
    ensures
        a@ == b@ ==> {
            &&& a.event_id@ == b.event_id@
            &&& (a.session_id is Some <==> b.session_id is Some)
            &&& (a.session_id is Some ==> a.session_id->0@ == b.session_id->0@)
            &&& a.seq == b.seq
            &&& a.generation == b.generation
            &&& a.event_type@ == b.event_type@
            &&& a.source@ == b.source@
            &&& a.payload@ == b.payload@
            &&& a.occurred_at == b.occurred_at
            &&& (a.causation_id is Some <==> b.causation_id is Some)
            &&& (a.causation_id is Some ==> a.causation_id->0@ == b.causation_id->0@)
            &&& (a.correlation_id is Some <==> b.correlation_id is Some)
            &&& (a.correlation_id is Some ==> a.correlation_id->0@ == b.correlation_id->0@)
        },
{
}

/// What is seen of an actor tells all of its parts.
pub proof fn law_actor_views_tell_all(a: Actor, b: Actor)
    ensures
        a@ == b@ ==> {
            &&& a.kind == b.kind
            &&& (a.id is Some <==> b.id is Some)
            &&& (a.id is Some ==> a.id->0@ == b.id->0@)
        },
{
}

/// What is seen of a command envelope tells all of its parts.
pub proof fn law_command_envelope_views_tell_all(a: CommandEnvelope, b: CommandEnvelope)
    ensures
        a@ == b@ ==> {
            &&& a.request_id@ == b.request_id@
            &&& a.method@ == b.method@
            &&& a.params@ == b.params@
            &&& a.actor@ == b.actor@
            &&& (a.session_id is Some <==> b.session_id is Some)
            &&& (a.session_id is Some ==> a.session_id->0@ == b.session_id->0@)
            &&& (a.idempotency_key is Some <==> b.idempotency_key is Some)
            &&& (a.idempotency_key is Some ==> a.idempotency_key->0@ == b.idempotency_key->0@)
            &&& a.submitted_at == b.submitted_at
        },
{
}

/// What is seen of a command response tells all of its parts.
pub proof fn law_command_response_views_tell_all(a: CommandResponse, b: CommandResponse)
    ensures
        a@ == b@ ==> {
            &&& a.request_id@ == b.request_id@
            &&& a.success == b.success
            &&& (a.result is Some <==> b.result is Some)
            &&& (a.result is Some ==> a.result->0@ == b.result->0@)
            &&& (a.error is Some <==> b.error is Some)
            &&& (a.error is Some ==> a.error->0@ == b.error->0@)
            &&& a.events@.len() == b.events@.len()
            &&& (forall|i: int| 0 <= i < a.events@.len() ==> #[trigger] a.events@[i]@ == b.events@[i]@)
            &&& a.latest_seq == b.latest_seq
        },
{
    if a@ == b@ {
        assert(event_views(a.events@).len() == event_views(b.events@).len());
        assert forall|i: int| 0 <= i < a.events@.len() implies #[trigger] a.events@[i]@ == b.events@[i]@ by {
            assert(event_views(a.events@)[i] == event_views(b.events@)[i]);
        }
    }
}

/// What is seen of a core error tells all of its parts.
pub proof fn law_core_error_views_tell_all(a: CoreError, b: CoreError)
    ensures
        a@ == b@ ==> {
            &&& a.code == b.code
            &&& a.message@ == b.message@
            &&& (a.details is Some <==> b.details is Some)
            &&& (a.details is Some ==> a.details->0@ == b.details->0@)
            &&& a.retryable == b.retryable
        },
{
}

/// What is seen of a snapshot envelope tells all of its parts.
pub proof fn law_snapshot_envelope_views_tell_all(a: SnapshotEnvelope, b: SnapshotEnvelope)
    ensures
        a@ == b@ ==> {
            &&& (a.snapshot_id is Some <==> b.snapshot_id is Some)
            &&& (a.snapshot_id is Some ==> a.snapshot_id->0@ == b.snapshot_id->0@)
            &&& a.session_id@ == b.session_id@
            &&& a.generation == b.generation
            &&& a.last_seq == b.last_seq
            &&& a.status@ == b.status@
            &&& a.payload@ == b.payload@
            &&& a.created_at == b.created_at
        },
{
}

/// What is seen of an event row tells all of its parts.
pub proof fn law_event_row_views_tell_all(a: EventRow, b: EventRow)
    ensures
        a@ == b@ ==> {
            &&& a.event_id@ == b.event_id@
            &&& a.session_id@ == b.session_id@
            &&& a.seq == b.seq
            &&& a.generation == b.generation
            &&& a.event_type@ == b.event_type@
            &&& a.source_kind@ == b.source_kind@
            &&& (a.source_id is Some <==> b.source_id is Some)
            &&& (a.source_id is Some ==> a.source_id->0@ == b.source_id->0@)
            &&& a.payload@ == b.payload@
            &&& a.occurred_at == b.occurred_at
            &&& (a.causation_id is Some <==> b.causation_id is Some)
            &&& (a.causation_id is Some ==> a.causation_id->0@ == b.causation_id->0@)
            &&& (a.correlation_id is Some <==> b.correlation_id is Some)
            &&& (a.correlation_id is Some ==> a.correlation_id->0@ == b.correlation_id->0@)
        },
{
}

/// What is seen of a tool call tells all of its parts.
pub proof fn law_tool_call_views_tell_all(a: ToolCall, b: ToolCall)
    ensures
        a@ == b@ ==> {
            &&& a.id@ == b.id@
            &&& a.name@ == b.name@
            &&& a.arguments@ == b.arguments@
        },
{
}

/// What is seen of a message tells all of its parts.
pub proof fn law_message_views_tell_all(a: Message, b: Message)
    ensures
        a@ == b@ ==> {
            &&& a.role@ == b.role@
            &&& a.content@ == b.content@
            &&& a.tool_calls@.len() == b.tool_calls@.len()
            &&& (forall|i: int| 0 <= i < a.tool_calls@.len() ==> #[trigger] a.tool_calls@[i]@ == b.tool_calls@[i]@)
            &&& (a.tool_call_id is Some <==> b.tool_call_id is Some)
            &&& (a.tool_call_id is Some ==> a.tool_call_id->0@ == b.tool_call_id->0@)
            &&& (a.name is Some <==> b.name is Some)
            &&& (a.name is Some ==> a.name->0@ == b.name->0@)
        },
{
    if a@ == b@ {
        assert(call_views(a.tool_calls@).len() == call_views(b.tool_calls@).len());
        assert forall|i: int| 0 <= i < a.tool_calls@.len() implies #[trigger] a.tool_calls@[i]@ == b.tool_calls@[i]@ by {
            assert(call_views(a.tool_calls@)[i] == call_views(b.tool_calls@)[i]);
        }
    }
}

/// What is seen of a tool definition tells all of its parts.
pub proof fn law_tool_definition_views_tell_all(a: ToolDefinition, b: ToolDefinition)
    ensures
        a@ == b@ ==> {
            &&& a.name@ == b.name@
            &&& a.description@ == b.description@
            &&& a.input_schema@ == b.input_schema@
        },
{
}

/// What is seen of a generate request tells all of its parts.
pub proof fn law_generate_request_views_tell_all(a: GenerateRequest, b: GenerateRequest)
    ensures
        a@ == b@ ==> {
            &&& a.model@ == b.model@
            &&& a.messages@.len() == b.messages@.len()
            &&& (forall|i: int| 0 <= i < a.messages@.len() ==> #[trigger] a.messages@[i]@ == b.messages@[i]@)
            &&& a.tools@.len() == b.tools@.len()
            &&& (forall|i: int| 0 <= i < a.tools@.len() ==> #[trigger] a.tools@[i]@ == b.tools@[i]@)
            &&& a.stream == b.stream
            &&& a.auth_context@ == b.auth_context@
            &&& a.options == b.options
        },
{
    if a@ == b@ {
        assert(tool_views(a.tools@).len() == tool_views(b.tools@).len());
        assert(message_views(a.messages@).len() == message_views(b.messages@).len());
        assert forall|i: int| 0 <= i < a.messages@.len() implies #[trigger] a.messages@[i]@ == b.messages@[i]@ by {
            assert(message_views(a.messages@)[i] == message_views(b.messages@)[i]);
        }
        assert forall|i: int| 0 <= i < a.tools@.len() implies #[trigger] a.tools@[i]@ == b.tools@[i]@ by {
            assert(tool_views(a.tools@)[i] == tool_views(b.tools@)[i]);
        }
    }
}

/// What is seen of a provider error tells all of its parts.
pub proof fn law_provider_error_views_tell_all(a: ProviderError, b: ProviderError)
    ensures
        a@ == b@ ==> {
            &&& a.code == b.code
            &&& a.message@ == b.message@
            &&& a.retryable == b.retryable
        },
{
}

/// What is seen of a model routing metadata tells all of its parts.
pub proof fn law_model_routing_metadata_views_tell_all(a: ModelRoutingMetadata, b: ModelRoutingMetadata)
    ensures
        a@ == b@ ==> {
            &&& a.provider_id@ == b.provider_id@
            &&& a.model_id@ == b.model_id@
            &&& a.unit_cost == b.unit_cost
            &&& a.context_window == b.context_window
            &&& a.supports_tools == b.supports_tools
            &&& a.supports_streaming == b.supports_streaming
            &&& a.supports_vision == b.supports_vision
            &&& a.vision_declared == b.vision_declared
        },
{
}

/// What is seen of a conversation message tells all of its parts.
pub proof fn law_conversation_message_views_tell_all(a: ConversationMessage, b: ConversationMessage)
    ensures
        a@ == b@ ==> {
            &&& a.id == b.id
            &&& a.role@ == b.role@
            &&& a.content@ == b.content@
            &&& (a.tool_call_id is Some <==> b.tool_call_id is Some)
            &&& (a.tool_call_id is Some ==> a.tool_call_id->0@ == b.tool_call_id->0@)
        },
{
}

/// What is seen of an active context message tells all of its parts.
pub proof fn law_active_context_message_views_tell_all(a: ActiveContextMessage, b: ActiveContextMessage)
    ensures
        a@ == b@ ==> {
            &&& a.role@ == b.role@
            &&& a.content@ == b.content@
            &&& (a.tool_call_id is Some <==> b.tool_call_id is Some)
            &&& (a.tool_call_id is Some ==> a.tool_call_id->0@ == b.tool_call_id->0@)
        },
{
}

/// What is seen of an agent context message tells all of its parts.
pub proof fn law_agent_context_message_views_tell_all(a: AgentContextMessage, b: AgentContextMessage)
    ensures
        a@ == b@ ==> {
            &&& a.role@ == b.role@
            &&& a.content@ == b.content@
            &&& (a.tool_call_id is Some <==> b.tool_call_id is Some)
            &&& (a.tool_call_id is Some ==> a.tool_call_id->0@ == b.tool_call_id->0@)
        },
{
}

/// What is seen of a tool result tells all of its parts.
pub proof fn law_tool_result_views_tell_all(a: ToolResult, b: ToolResult)
    ensures
        a@ == b@ ==> {
            &&& a.success == b.success
            &&& a.output@ == b.output@
            &&& (a.error is Some <==> b.error is Some)
            &&& (a.error is Some ==> a.error->0@ == b.error->0@)
        },
{
}

/// What is seen of a tool failure record tells all of its parts.
pub proof fn law_tool_failure_record_views_tell_all(a: ToolFailureRecord, b: ToolFailureRecord)
    ensures
        a@ == b@ ==> {
            &&& a.tool_name@ == b.tool_name@
            &&& a.args_hash@ == b.args_hash@
            &&& a.error_kind == b.error_kind
            &&& a.error_code@ == b.error_code@
            &&& a.count == b.count
            &&& a.last_error_message@ == b.last_error_message@
            &&& a.tripped == b.tripped
        },
{
}

/// What is seen of a loop guard decision tells all of its parts.
pub proof fn law_loop_guard_decision_views_tell_all(a: LoopGuardDecision, b: LoopGuardDecision)
    ensures
        a@ == b@ ==> {
            &&& a.tripped == b.tripped
            &&& a.count == b.count
            &&& a.error_kind == b.error_kind
            &&& a.signature@ == b.signature@
            &&& a.requires_escalation == b.requires_escalation
            &&& a.just_tripped == b.just_tripped
        },
{
}

/// What is seen of a tool failure loop escalation tells all of its parts.
pub proof fn law_tool_failure_loop_escalation_views_tell_all(a: ToolFailureLoopEscalation, b: ToolFailureLoopEscalation)
    ensures
        a@ == b@ ==> {
            &&& a.session_id@ == b.session_id@
            &&& a.agent_id@ == b.agent_id@
            &&& a.agent_name@ == b.agent_name@
            &&& a.task_id@ == b.task_id@
            &&& a.tool_name@ == b.tool_name@
            &&& a.args_hash@ == b.args_hash@
            &&& a.error_kind == b.error_kind
            &&& a.error_code@ == b.error_code@
            &&& a.count == b.count
            &&& a.threshold == b.threshold
            &&& a.requires_escalation == b.requires_escalation
            &&& a.last_error_message@ == b.last_error_message@
        },
{
}

/// What is seen of a dead letter tells all of its parts.
pub proof fn law_dead_letter_views_tell_all(a: DeadLetter, b: DeadLetter)
    ensures
        a@ == b@ ==> {
            &&& a.message@ == b.message@
            &&& a.reason@ == b.reason@
        },
{
}

/// What is seen of a leader task draft tells all of its parts.
pub proof fn law_leader_task_draft_views_tell_all(a: LeaderTaskDraft, b: LeaderTaskDraft)
    ensures
        a@ == b@ ==> {
            &&& (a.task_id is Some <==> b.task_id is Some)
            &&& (a.task_id is Some ==> a.task_id->0@ == b.task_id->0@)
            &&& a.subject@ == b.subject@
            &&& a.description@ == b.description@
        },
{
}

/// What is seen of a sidecar execution tells all of its parts.
pub proof fn law_sidecar_execution_views_tell_all(a: SidecarExecution, b: SidecarExecution)
    ensures
        a@ == b@ ==> {
            &&& a.response@ == b.response@
            &&& a.stdout@ == b.stdout@
            &&& a.stderr@ == b.stderr@
        },
{
}

/// What is seen of a sidecar error tells all of its parts.
pub proof fn law_sidecar_error_views_tell_all(a: SidecarError, b: SidecarError)
    ensures
        a@ == b@ ==> {
            &&& a.request_id@ == b.request_id@
            &&& a.code == b.code
            &&& a.message@ == b.message@
            &&& (a.details is Some <==> b.details is Some)
            &&& (a.details is Some ==> a.details->0@ == b.details->0@)
            &&& a.usage == b.usage
        },
{
}

/// What is seen of a terminal read tells all of its parts.
pub proof fn law_terminal_read_views_tell_all(a: TerminalRead, b: TerminalRead)
    ensures
        a@ == b@ ==> {
            &&& a.terminal_id@ == b.terminal_id@
            &&& a.stdout@ == b.stdout@
            &&& a.stderr@ == b.stderr@
            &&& a.running == b.running
            &&& a.exit_code == b.exit_code
        },
{
}

/// What is seen of a runtime candidate tells all of its parts.
pub proof fn law_runtime_candidate_views_tell_all(a: RuntimeCandidate, b: RuntimeCandidate)
    ensures
        a@ == b@ ==> {
            &&& a.program@ == b.program@
            &&& a.args@.len() == b.args@.len()
            &&& (forall|i: int| 0 <= i < a.args@.len() ==> #[trigger] a.args@[i]@ == b.args@[i]@)
        },
{
    if a@ == b@ {
        assert(texts(a.args@).len() == texts(b.args@).len());
        assert forall|i: int| 0 <= i < a.args@.len() implies #[trigger] a.args@[i]@ == b.args@[i]@ by {
            assert(texts(a.args@)[i] == texts(b.args@)[i]);
        }
    }
}

/// Credentials of which the same is seen are the same credentials.
pub proof fn law_auth_context_views_tell_all(a: AuthContext, b: AuthContext)
    ensures
        a@ == b@ ==> match (a, b) {
            (AuthContext::NoAuth, AuthContext::NoAuth) => true,
            (
                AuthContext::ApiKey { provider: p, key: k },
                AuthContext::ApiKey { provider: q, key: l },
            ) => p@ == q@ && k@ == l@,
            (AuthContext::BearerToken { token: t }, AuthContext::BearerToken { token: u }) => t@
                == u@,
            (
                AuthContext::AwsSignature { access_key_id: i, secret_access_key: k, session_token: s },
                AuthContext::AwsSignature { access_key_id: j, secret_access_key: l, session_token: t },
            ) => i@ == j@ && k@ == l@ && (s is Some <==> t is Some) && (s is Some ==> s->0@
                == t->0@),
            (AuthContext::AzureToken { api_key: k }, AuthContext::AzureToken { api_key: l }) => k@
                == l@,
            _ => false,
        },
{
}

/// Events of a stream of which the same is seen are the same events.
pub proof fn law_stream_event_views_tell_all(a: StreamEvent, b: StreamEvent)
    ensures
        a@ == b@ ==> match (a, b) {
            (StreamEvent::ThinkingDelta(s), StreamEvent::ThinkingDelta(t)) => s@ == t@,
            (StreamEvent::TextDelta(s), StreamEvent::TextDelta(t)) => s@ == t@,
            (StreamEvent::ToolCall(c), StreamEvent::ToolCall(d)) => c@ == d@,
            (StreamEvent::ToolCallDelta(c), StreamEvent::ToolCallDelta(d)) => c@ == d@,
            (StreamEvent::Usage(u), StreamEvent::Usage(v)) => u == v,
            (StreamEvent::Finished(r), StreamEvent::Finished(t)) => r == t,
            (StreamEvent::Error(e), StreamEvent::Error(f)) => e@ == f@,
            _ => false,
        },
{
}

/// Events of an agent of which the same is seen are the same events.
pub proof fn law_agent_event_views_tell_all(a: AgentEvent, b: AgentEvent)
    ensures
        a@ == b@ ==> match (a, b) {
            (AgentEvent::Started { agent_id: i }, AgentEvent::Started { agent_id: j }) => i@ == j@,
            (
                AgentEvent::LlmRoundCompleted { agent_id: i, assistant_message: m },
                AgentEvent::LlmRoundCompleted { agent_id: j, assistant_message: n },
            ) => i@ == j@ && m@ == n@,
            (
                AgentEvent::ToolCallInitiated { agent_id: i, tool_call: c },
                AgentEvent::ToolCallInitiated { agent_id: j, tool_call: d },
            ) => i@ == j@ && c@ == d@,
            (
                AgentEvent::ToolCallCompleted { agent_id: i, tool_call_id: c, result: r },
                AgentEvent::ToolCallCompleted { agent_id: j, tool_call_id: d, result: s },
            ) => i@ == j@ && c@ == d@ && r@ == s@,
            (
                AgentEvent::ToolFailureLoopEscalated { agent_id: i, escalation: e },
                AgentEvent::ToolFailureLoopEscalated { agent_id: j, escalation: f },
            ) => i@ == j@ && e@ == f@,
            (
                AgentEvent::Completed { agent_id: i, result: r },
                AgentEvent::Completed { agent_id: j, result: s },
            ) => i@ == j@ && r@ == s@,
            (
                AgentEvent::Crashed { agent_id: i, error: e },
                AgentEvent::Crashed { agent_id: j, error: f },
            ) => i@ == j@ && e@ == f@,
            (
                AgentEvent::Heartbeat { agent_id: i, at_ms: t },
                AgentEvent::Heartbeat { agent_id: j, at_ms: u },
            ) => i@ == j@ && t == u,
            _ => false,
        },
{
}

} // verus!
