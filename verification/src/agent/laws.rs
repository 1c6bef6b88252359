//! What holds of the runs of agents from their beginning to their end.
use vstd::prelude::*;

use crate::agent::agent_loop::{
    answer_result, call_begun, call_finished, fresh_run, loop_warning, resumed, round_answered,
    round_begun, started, AnswerView, CallStepView, GuardEnvironmentView, RoundStartView,
    RunPhase, RunView,
};
use crate::agent::run::{
    call_index, first_of_each, has_call, request_messages, request_part, streamed_calls,
    streamed_text, AgentConfig, AgentEffectView, AgentEventView, StreamPieceView, ToolResultView,
};
use crate::agent::tool_loop::{looping, observed, truthy};
use crate::context::{projection_of, ActiveContextMessageView};
use crate::json::{json_get, json_written, member_index, JsonNumber, JsonView};
use crate::llm::types::{MessageView, ToolCallView, ToolDefinitionView};
use crate::text::{contains_text, decimal, lemma_contains_middle, occurs_at, text_before};
use crate::text_laws::{law_a_text_that_stands_in_another, law_what_stands_before_a_text};

verus! {

/// A call whose id has come before is left out, any other is kept at the end: of each id
/// the first call is worked off, and calls with different ids are all worked off, in the
/// order in which they came.
pub proof fn law_of_each_id_the_first_call_is_kept(calls: Seq<ToolCallView>, c: ToolCallView)
    ensures
        first_of_each(Seq::empty()) == Seq::<ToolCallView>::empty(),
        (exists|i: int| 0 <= i < calls.len() && (#[trigger] calls[i]).id == c.id)
            ==> first_of_each(calls.push(c)) == first_of_each(calls),
        (forall|i: int| 0 <= i < calls.len() ==> (#[trigger] calls[i]).id != c.id)
            ==> first_of_each(calls.push(c)) == first_of_each(calls).push(c),
        (forall|i: int, j: int|
            0 <= i < j < calls.len() ==> (#[trigger] calls[i]).id != (#[trigger] calls[j]).id)
            ==> first_of_each(calls) == calls,
{
    assert(calls.push(c).drop_last() =~= calls);
    lemma_same_ids(calls, c.id);
    if forall|i: int, j: int|
        0 <= i < j < calls.len() ==> (#[trigger] calls[i]).id != (#[trigger] calls[j]).id {
        lemma_distinct_calls_are_kept(calls);
    }
}

proof fn lemma_same_ids(calls: Seq<ToolCallView>, id: Seq<char>)
    ensures
        has_call(first_of_each(calls), id) == has_call(calls, id),
    decreases calls.len(),
{
    if calls.len() > 0 {
        let front = calls.drop_last();
        lemma_same_ids(front, id);
        lemma_same_ids(front, calls.last().id);
        let kept = first_of_each(front);
        if has_call(front, id) {
            let i = choose|i: int| 0 <= i < front.len() && (#[trigger] front[i]).id == id;
            assert(calls[i].id == id);
            let j = choose|j: int| 0 <= j < kept.len() && (#[trigger] kept[j]).id == id;
            assert(first_of_each(calls)[j].id == id);
        }
        if calls.last().id == id {
            assert(calls[calls.len() - 1].id == id);
            if !has_call(kept, id) {
                assert(first_of_each(calls)[kept.len() as int].id == id);
            }
        }
        if has_call(calls, id) {
            let i = choose|i: int| 0 <= i < calls.len() && (#[trigger] calls[i]).id == id;
            if i < front.len() {
                assert(front[i].id == id);
            }
        }
        if has_call(first_of_each(calls), id) {
            let j = choose|j: int|
                0 <= j < first_of_each(calls).len() && (#[trigger] first_of_each(calls)[j]).id
                    == id;
            if j < kept.len() {
                assert(kept[j].id == id);
            }
        }
    }
}

proof fn lemma_distinct_calls_are_kept(calls: Seq<ToolCallView>)
    requires
        forall|i: int, j: int|
            0 <= i < j < calls.len() ==> (#[trigger] calls[i]).id != (#[trigger] calls[j]).id,
    ensures
        first_of_each(calls) == calls,
    decreases calls.len(),
{
    if calls.len() > 0 {
        let front = calls.drop_last();
        assert forall|i: int, j: int| 0 <= i < j < front.len() implies (#[trigger] front[i]).id != (
        #[trigger] front[j]).id by {
            assert(front[i] == calls[i] && front[j] == calls[j]);
        }
        lemma_distinct_calls_are_kept(front);
        if has_call(front, calls.last().id) {
            let i = choose|i: int|
                0 <= i < front.len() && (#[trigger] front[i]).id == calls.last().id;
            assert(calls[i].id == calls[calls.len() - 1].id);
        }
        assert(front.push(calls.last()) =~= calls);
    } else {
        assert(first_of_each(calls) =~= calls);
    }
}

/// What a model streams is put together without loss: texts and calls follow each other
/// as they came.
pub proof fn law_streamed_pieces_are_put_together(
    a: Seq<StreamPieceView>,
    b: Seq<StreamPieceView>,
    text: Seq<char>,
    call: ToolCallView,
    calls: Seq<ToolCallView>,
)
    ensures
        streamed_text(a + b) == streamed_text(a) + streamed_text(b),
        streamed_calls(a + b) == streamed_calls(a) + streamed_calls(b),
        streamed_text(seq![StreamPieceView::Text(text)]) == text,
        streamed_calls(seq![StreamPieceView::Call(call)]) == seq![call],
        streamed_calls(seq![StreamPieceView::Assembled(calls)]) == calls,
        streamed_calls(seq![StreamPieceView::Text(text)]).len() == 0,
        streamed_text(seq![StreamPieceView::Call(call)]).len() == 0,
        streamed_text(seq![StreamPieceView::Assembled(calls)]).len() == 0,
    decreases b.len(),
{
    reveal_with_fuel(streamed_text, 2);
    reveal_with_fuel(streamed_calls, 2);
    let t = seq![StreamPieceView::Text(text)];
    let c = seq![StreamPieceView::Call(call)];
    let d = seq![StreamPieceView::Assembled(calls)];
    assert(t.drop_last() =~= Seq::empty() && c.drop_last() =~= Seq::empty() && d.drop_last()
        =~= Seq::empty());
    assert(Seq::<char>::empty() + text =~= text);
    assert(Seq::<ToolCallView>::empty().push(call) =~= seq![call]);
    assert(Seq::<ToolCallView>::empty() + calls =~= calls);
    if b.len() == 0 {
        assert(a + b =~= a);
        assert(streamed_text(a) + Seq::<char>::empty() =~= streamed_text(a));
        assert(streamed_calls(a) + Seq::<ToolCallView>::empty() =~= streamed_calls(a));
    } else {
        law_streamed_pieces_are_put_together(a, b.drop_last(), text, call, calls);
        assert((a + b).drop_last() =~= a + b.drop_last());
        assert((a + b).last() == b.last());
        match b.last() {
            StreamPieceView::Text(s) => {
                assert(streamed_text(a) + (streamed_text(b.drop_last()) + s) =~= streamed_text(a)
                    + streamed_text(b.drop_last()) + s);
            },
            StreamPieceView::Call(x) => {
                assert(streamed_calls(a) + streamed_calls(b.drop_last()).push(x) =~= (
                streamed_calls(a) + streamed_calls(b.drop_last())).push(x));
            },
            StreamPieceView::Assembled(xs) => {
                assert(streamed_calls(a) + (streamed_calls(b.drop_last()) + xs) =~= streamed_calls(
                    a,
                ) + streamed_calls(b.drop_last()) + xs);
            },
        }
    }
}

/// A run that nothing was kept of begins with its task, said by the user and to be kept;
/// any other goes on with the messages that were kept, all of them and in their order.
pub proof fn law_a_run_begins_with_its_task_or_goes_on(
    s: RunView,
    stored: Seq<ActiveContextMessageView>,
)
    ensures
        started(s, stored).0.phase == RunPhase::Idle,
        started(s, stored).0.pending == s.pending,
        started(s, stored).0.round == s.round,
        started(s, stored).1[0] == AgentEffectView::Emit(
            AgentEventView::Started { agent_id: s.agent_id },
        ),
        stored.len() == 0 ==> {
            let (t, effects) = started(s, stored);
            &&& t.messages.len() == 1
            &&& t.messages[0].id == 1
            &&& t.messages[0].role == "user"@
            &&& t.messages[0].content == s.task_content
            &&& t.messages[0].tool_call_id is None
            &&& effects.len() == 2
            &&& effects[1] is Remember
            &&& effects[1]->Remember_0.role == "user"@
            &&& effects[1]->Remember_0.content == s.task_content
        },
        stored.len() > 0 ==> {
            let (t, effects) = started(s, stored);
            &&& effects.len() == 1
            &&& t.messages.len() == stored.len()
            &&& forall|i: int|
                #![trigger t.messages[i]]
                0 <= i < stored.len() ==> t.messages[i].id == (i + 1) as u64 && t.messages[i].role
                    == stored[i].role && t.messages[i].content == stored[i].content
                    && t.messages[i].tool_call_id == stored[i].tool_call_id
        },
{
    lemma_resumed(stored);
}

proof fn lemma_resumed(stored: Seq<ActiveContextMessageView>)
    ensures
        ({
            let m = resumed(stored);
            &&& m.len() == stored.len()
            &&& forall|i: int|
                #![trigger m[i]]
                0 <= i < stored.len() ==> m[i].id == (i + 1) as u64 && m[i].role == stored[i].role
                    && m[i].content == stored[i].content && m[i].tool_call_id
                    == stored[i].tool_call_id
        }),
    decreases stored.len(),
{
    if stored.len() > 0 {
        lemma_resumed(stored.drop_last());
    }
}

/// The run while it works off the calls of a round: each call that is handed out is
/// performed with the next of `results`. Gives the run behind the last of them and the
/// calls that were handed out.
pub open spec fn worked_off(s: RunView, results: Seq<ToolResultView>) -> (
    RunView,
    Seq<ToolCallView>,
)
    decreases results.len(),
{
    match call_begun(s) {
        (t, CallStepView::Execute { call, .. }) => if results.len() == 0 {
            (t, Seq::empty())
        } else {
            let (u, calls) = worked_off(call_finished(t, results[0]).0, results.drop_first());
            (u, seq![call] + calls)
        },
        (t, _) => (t, Seq::empty()),
    }
}

/// Every call of a round is handed out, once and in order, before the round is done; the
/// result of each is in the conversation then, in the same order, and the next round
/// begins.
pub proof fn law_every_call_of_a_round_is_performed(s: RunView, results: Seq<ToolResultView>)
    requires
        results.len() == s.pending.len(),
        forall|i: int|
            0 <= i < s.pending.len() ==> (#[trigger] s.pending[i]).name != "attempt_completion"@,
    ensures
        ({
            let (t, calls) = worked_off(s, results);
            &&& calls == s.pending
            &&& t.pending.len() == 0
            &&& t.phase == RunPhase::Idle
            &&& t.round == s.round + 1
            &&& t.history == s.history + s.pending
            &&& t.messages.len() == s.messages.len() + s.pending.len()
            &&& forall|i: int|
                #![trigger t.messages[i]]
                0 <= i < s.messages.len() ==> t.messages[i] == s.messages[i]
            &&& forall|i: int|
                #![trigger t.messages[s.messages.len() + i]]
                0 <= i < s.pending.len() ==> t.messages[s.messages.len() + i].role == "tool"@
                    && t.messages[s.messages.len() + i].tool_call_id == Some(s.pending[i].id) && (
                results[i].success ==> t.messages[s.messages.len() + i].content == json_written(
                    results[i].output,
                ))
        }),
    decreases results.len(),
{
    let (t, calls) = worked_off(s, results);
    if results.len() == 0 {
        assert(calls =~= s.pending);
        assert(s.history + s.pending =~= s.history);
    } else {
        let (b, step) = call_begun(s);
        let u = call_finished(b, results[0]).0;
        let rest = results.drop_first();
        assert(u.pending =~= s.pending.drop_first());
        assert forall|i: int| 0 <= i < u.pending.len() implies (#[trigger] u.pending[i]).name
            != "attempt_completion"@ by {
            assert(u.pending[i] == s.pending[i + 1]);
        }
        law_every_call_of_a_round_is_performed(u, rest);
        assert(calls =~= s.pending);
        assert(t.history =~= s.history + s.pending);
        assert(u.messages.len() == s.messages.len() + 1);
        assert forall|i: int| #![trigger t.messages[i]] 0 <= i < s.messages.len() implies t.messages[i]
            == s.messages[i] by {
            assert(t.messages[i] == u.messages[i]);
        }
        assert forall|i: int|
            #![trigger t.messages[s.messages.len() + i]]
            0 <= i < s.pending.len() implies t.messages[s.messages.len() + i].role == "tool"@
            && t.messages[s.messages.len() + i].tool_call_id == Some(s.pending[i].id) && (
        results[i].success ==> t.messages[s.messages.len() + i].content == json_written(
            results[i].output,
        )) by {
            if i == 0 {
                assert(t.messages[s.messages.len() as int] == u.messages[s.messages.len() as int]);
            } else {
                let k = i - 1;
                assert(t.messages[u.messages.len() + k] == t.messages[s.messages.len() + i]);
                assert(u.pending[k] == s.pending[i]);
                assert(rest[k] == results[i]);
            }
        }
    }
}

/// What becomes of the answer of a model. It is always kept as said by the assistant, and
/// reported. Without calls it is the answer of the run. Calls with ids of their own are
/// all to be performed, unless they are those of the rounds before: then none is, the
/// model is told so by a message of the system, and the round is over.
pub proof fn law_what_becomes_of_an_answer(s: RunView, text: Seq<char>, calls: Seq<ToolCallView>)
    requires
        forall|i: int, j: int|
            0 <= i < j < calls.len() ==> (#[trigger] calls[i]).id != (#[trigger] calls[j]).id,
    ensures
        ({
            let (t, effects) = round_answered(s, AnswerView::Answer { text, calls });
            let stuck = calls.len() > 0 && looping(observed(s.detector, calls));
            let n = s.messages.len() as int;
            &&& t.messages.len() == n + if stuck {
                2int
            } else {
                1
            }
            &&& t.messages.take(n) == s.messages
            &&& t.messages[n].id == (n + 1) as u64
            &&& t.messages[n].role == "assistant"@
            &&& t.messages[n].content == text
            &&& t.messages[n].tool_call_id is None
            &&& t.answer == text
            &&& t.history == s.history
            &&& t.guard == s.guard
            &&& effects[0] == AgentEffectView::Emit(
                AgentEventView::LlmRoundCompleted {
                    agent_id: s.agent_id,
                    assistant_message: text,
                },
            )
            &&& effects[1] is Remember && effects[1]->Remember_0.role == "assistant"@
                && effects[1]->Remember_0.content == text
            &&& if calls.len() == 0 {
                &&& t.phase == RunPhase::Over
                &&& effects.len() == 3
                &&& effects[2] is Emit && effects[2]->Emit_0 is Completed
                &&& match effects[2]->Emit_0 {
                    AgentEventView::Completed { agent_id, result } => {
                        &&& agent_id == s.agent_id
                        &&& json_get(result, "answer"@) == Some(JsonView::String(text))
                        &&& json_get(result, "rounds"@) == Some(
                            JsonView::Number(JsonNumber::Unsigned((s.round + 1) as u64)),
                        )
                    },
                    _ => false,
                }
            } else if stuck {
                &&& t.phase == RunPhase::Idle
                &&& t.round == s.round + 1
                &&& t.pending == s.pending
                &&& t.messages[n + 1].role == "system"@
                &&& t.messages[n + 1].id == (n + 2) as u64
                &&& effects.len() == 3
                &&& effects[2] is Remember && effects[2]->Remember_0.role == "system"@
                    && effects[2]->Remember_0.content == t.messages[n + 1].content
                &&& t.detector.streak == 0
                &&& t.detector.last_signature is None
            } else {
                &&& t.phase == RunPhase::ExecutingTools
                &&& t.round == s.round
                &&& t.pending == calls
                &&& effects.len() == 2
                &&& t.detector == observed(s.detector, calls)
            }
        }),
{
    lemma_distinct_calls_are_kept(calls);
    reveal_strlit("answer");
    reveal_strlit("rounds");
    assert("answer"@[0] != "rounds"@[0]);
    reveal_with_fuel(member_index, 3);
    let (t, effects) = round_answered(s, AnswerView::Answer { text, calls });
    let n = s.messages.len() as int;
    assert(t.messages.take(n) =~= s.messages);
    let members = answer_result(text, s.round + 1)->Object_0;
    assert(members.drop_last() =~= seq![members[0]]);
}

/// A model call that failed ends the run with the round and the error.
pub proof fn law_a_failed_model_call_crashes_the_run(s: RunView, message: Seq<char>)
    ensures
        ({
            let (t, effects) = round_answered(s, AnswerView::Failed { message });
            &&& t == (RunView { phase: RunPhase::Over, ..s })
            &&& effects.len() == 1
            &&& effects[0] is Emit && effects[0]->Emit_0 is Crashed
            &&& match effects[0]->Emit_0 {
                AgentEventView::Crashed { agent_id, error } => agent_id == s.agent_id
                    && message.is_suffix_of(error),
                _ => false,
            }
        }),
{
    let head = "LLM stream error on round "@ + crate::text::decimal(s.round) + ": "@;
    let error = head + message;
    assert(error.subrange(head.len() as int, error.len() as int) =~= message);
}

/// A round begins with a question to the model, unless the rounds are used up or the run
/// was told to stop: then the run is over, as completed without an answer or as crashed.
pub proof fn law_how_a_round_begins(s: RunView, cancelled: bool)
    ensures
        ({
            let (t, start) = round_begun(s, cancelled);
            &&& t == (RunView { phase: t.phase, ..s })
            &&& match start {
                RoundStartView::Ask { request, original_message_count } => {
                    &&& s.round < s.max_rounds && !cancelled
                    &&& t.phase == RunPhase::AwaitingModel
                    &&& original_message_count == s.messages.len()
                    &&& request.messages == request_messages(
                        projection_of(s.messages, s.retain_last),
                        s.history,
                    )
                    &&& request.tools == s.tools
                    &&& request.model == s.model
                    &&& request.auth == s.auth
                    &&& request.stream
                },
                RoundStartView::Finished(AgentEventView::Completed { agent_id, result }) => {
                    &&& s.round >= s.max_rounds
                    &&& agent_id == s.agent_id
                    &&& json_get(result, "error"@) == Some(
                        JsonView::String("max_rounds_exceeded"@),
                    )
                },
                RoundStartView::Finished(AgentEventView::Crashed { agent_id, error }) => {
                    s.round < s.max_rounds && cancelled && agent_id == s.agent_id
                },
                _ => false,
            }
        }),
{
    reveal_with_fuel(member_index, 2);
}

/// The next call of a round is handed out and reported as it is. A call that completes
/// the run is not performed: its result, or else the last answer, is what the run gives.
pub proof fn law_how_a_call_begins(s: RunView)
    requires
        s.pending.len() > 0,
    ensures
        ({
            let (t, step) = call_begun(s);
            let call = s.pending[0];
            &&& t.history == s.history.push(call)
            &&& t.messages == s.messages
            &&& t.pending == s.pending
            &&& t.round == s.round
            &&& match step {
                CallStepView::Execute { initiated, call: c } => {
                    &&& c == call
                    &&& call.name != "attempt_completion"@
                    &&& t.phase == RunPhase::AwaitingTool
                    &&& initiated == AgentEventView::ToolCallInitiated {
                        agent_id: s.agent_id,
                        tool_call: call,
                    }
                },
                CallStepView::Finished { initiated, completed } => {
                    &&& call.name == "attempt_completion"@
                    &&& t.phase == RunPhase::Over
                    &&& initiated == AgentEventView::ToolCallInitiated {
                        agent_id: s.agent_id,
                        tool_call: call,
                    }
                    &&& match completed {
                        AgentEventView::Completed { agent_id, result } => {
                            &&& agent_id == s.agent_id
                            &&& json_get(call.arguments, "result"@) is Some ==> json_get(
                                call.arguments,
                                "result"@,
                            ) == Some(result)
                            &&& json_get(call.arguments, "result"@) is None ==> result
                                == JsonView::String(s.answer)
                        },
                        _ => false,
                    }
                },
                CallStepView::RoundDone => false,
            }
        }),
{
}

/// What becomes of a tool result: it is reported and kept under the id of its call, and
/// the calls still to do are those that were to do, without the first. A success is shown
/// as it is; a failure that the guard lets through is shown with its message.
pub proof fn law_what_becomes_of_a_tool_result(s: RunView, r: ToolResultView)
    requires
        s.pending.len() > 0,
    ensures
        ({
            let (t, effects) = call_finished(s, r);
            let call = s.pending[0];
            let n = s.messages.len() as int;
            let k = effects.len() as int;
            let shown = effects[k - 2]->Emit_0;
            &&& s.pending == seq![call] + t.pending
            &&& t.phase == RunPhase::ExecutingTools
            &&& t.round == s.round
            &&& t.history == s.history
            &&& t.detector == s.detector
            &&& t.messages.len() == n + 1
            &&& t.messages.take(n) == s.messages
            &&& t.messages[n].id == (n + 1) as u64
            &&& t.messages[n].role == "tool"@
            &&& t.messages[n].tool_call_id == Some(call.id)
            &&& k >= 2
            &&& effects[k - 1] is Remember && effects[k - 1]->Remember_0.role == "tool"@
                && effects[k - 1]->Remember_0.content == t.messages[n].content
                && effects[k - 1]->Remember_0.tool_call_id == Some(call.id)
            &&& effects[k - 2] is Emit && match shown {
                AgentEventView::ToolCallCompleted { agent_id, tool_call_id, result } => {
                    &&& agent_id == s.agent_id
                    &&& tool_call_id == call.id
                    &&& t.messages[n].content == json_written(result)
                    &&& r.success ==> result == r.output
                    &&& !r.success && !s.guard.enabled ==> json_get(result, "error"@)
                        == Some(
                        match r.error {
                            Some(e) => JsonView::String(e),
                            None => JsonView::Null,
                        },
                    )
                },
                _ => false,
            }
            &&& r.success ==> k == 2
            &&& r.success ==> forall|i: int|
                0 <= i < t.guard.records.len() ==> s.guard.records.contains(
                    #[trigger] t.guard.records[i],
                )
        }),
{
    reveal_with_fuel(member_index, 2);
    let (t, effects) = call_finished(s, r);
    let n = s.messages.len() as int;
    assert(s.pending =~= seq![s.pending[0]] + t.pending);
    assert(t.messages.take(n) =~= s.messages);
    if r.success {
        assert forall|i: int| 0 <= i < t.guard.records.len() implies s.guard.records.contains(
            #[trigger] t.guard.records[i],
        ) by {
            crate::agent::failure_guard::law_success_forgets_the_call_alone(
                s.guard.records,
                s.pending[0].name,
                crate::agent::failure::args_fingerprint(s.pending[0].arguments),
                t.guard.records[i],
            );
            assert(t.guard.records.contains(t.guard.records[i]));
        }
    }
}

/// A request shows the conversation in its order: what is shown of two parts is what is
/// shown of each, one behind the other. A message is shown with its role, content and the
/// id of the call that it answers; the answer of a tool follows the first call of that id,
/// as asked for by the assistant, where there was one.
pub proof fn law_a_request_shows_the_conversation(
    a: Seq<ActiveContextMessageView>,
    b: Seq<ActiveContextMessageView>,
    m: ActiveContextMessageView,
    history: Seq<ToolCallView>,
)
    ensures
        request_messages(a + b, history) == request_messages(a, history) + request_messages(
            b,
            history,
        ),
        ({
            let shown = request_messages(seq![m], history);
            let last = shown.last();
            let known = m.tool_call_id is Some && has_call(history, m.tool_call_id->0);
            &&& shown.len() == if m.role == "tool"@ && known {
                2int
            } else {
                1
            }
            &&& last.role == m.role
            &&& last.content == m.content
            &&& last.tool_call_id == m.tool_call_id
            &&& last.tool_calls.len() == 0
            &&& last.name is Some <==> known
            &&& known ==> exists|i: int|
                #![trigger history[i]]
                0 <= i < history.len() && history[i].id == m.tool_call_id->0 && last.name == Some(
                    history[i].name,
                ) && (forall|j: int| 0 <= j < i ==> (#[trigger] history[j]).id != history[i].id)
                    && (m.role == "tool"@ ==> shown[0].role == "assistant"@
                    && shown[0].tool_calls == seq![history[i]] && shown[0].content.len() == 0)
        }),
    decreases b.len(),
{
    reveal_with_fuel(request_messages, 2);
    let one = seq![m];
    assert(one.drop_last() =~= Seq::empty());
    assert(request_messages(one, history) =~= request_part(m, history));
    if m.tool_call_id is Some {
        lemma_call_index(history, m.tool_call_id->0, 0);
    }
    if b.len() == 0 {
        assert(a + b =~= a);
        assert(request_messages(a, history) + Seq::<MessageView>::empty() =~= request_messages(
            a,
            history,
        ));
    } else {
        law_a_request_shows_the_conversation(a, b.drop_last(), m, history);
        assert((a + b).drop_last() =~= a + b.drop_last());
        assert((a + b).last() == b.last());
        let p = request_part(b.last(), history);
        assert(request_messages(a, history) + (request_messages(b.drop_last(), history) + p)
            =~= request_messages(a, history) + request_messages(b.drop_last(), history) + p);
    }
}

proof fn lemma_call_index(calls: Seq<ToolCallView>, id: Seq<char>, from: int)
    requires
        0 <= from <= calls.len(),
    ensures
        match call_index(calls, id, from) {
            Some(i) => from <= i < calls.len() && calls[i].id == id && forall|j: int|
                from <= j < i ==> (#[trigger] calls[j]).id != id,
            None => forall|j: int| from <= j < calls.len() ==> (#[trigger] calls[j]).id != id,
        },
    decreases calls.len() - from,
{
    if from < calls.len() && calls[from].id != id {
        lemma_call_index(calls, id, from + 1);
    }
}

/// A fresh run is as its configuration says: no message, no call and no round yet, under the
/// name of the agent or else its id, with the time for an answer that the options say or
/// else that of a round, and with the guards that the environment switches on.
pub proof fn law_a_fresh_run_is_as_configured(
    config: AgentConfig,
    tools: Seq<ToolDefinitionView>,
    env: GuardEnvironmentView,
)
    ensures
        ({
            let s = fresh_run(config, tools, env);
            &&& s.agent_id == config.agent_id@
            &&& s.session_id == config.session_id@
            &&& s.task_id == config.task_id@
            &&& s.task_content == config.task_content@
            &&& config.agent_name@.len() > 0 ==> s.agent_name == config.agent_name@
            &&& config.agent_name@.len() == 0 ==> s.agent_name == config.agent_id@
            &&& s.max_rounds == config.max_rounds
            &&& s.retain_last == config.context_retain_last
            &&& s.model == config.model@
            &&& s.auth == config.auth_context@
            &&& s.tools == tools
            &&& s.max_retries_hint == config.request_options.max_retries_hint
            &&& config.request_options.timeout_ms_hint is Some ==> s.timeout_ms
                == config.request_options.timeout_ms_hint->0
            &&& config.request_options.timeout_ms_hint is None ==> s.timeout_ms
                == config.round_timeout_ms
            &&& s.heartbeat_interval_ms == config.heartbeat_interval_ms
            &&& s.messages.len() == 0 && s.history.len() == 0 && s.pending.len() == 0
                && s.answer.len() == 0
            &&& s.round == 0
            &&& s.phase == RunPhase::Ready
            &&& s.detector.enabled == truthy(env.tool_loop_detector)
            &&& s.detector.threshold == 4 && s.detector.streak == 0
                && s.detector.last_signature is None
            &&& s.guard.enabled == truthy(env.tool_failure_loop_guard)
            &&& s.guard.threshold == 3 && s.guard.max_keys == 256 && s.guard.records.len() == 0
        }),
{
}

/// What goes with each question to the model: the time for its answer and the hint for
/// retries of the run.
pub proof fn law_what_goes_with_a_question(s: RunView)
    requires
        s.round < s.max_rounds,
    ensures
        match round_begun(s, false).1 {
            RoundStartView::Ask { request, .. } => request.options.timeout_ms_hint == Some(
                s.timeout_ms,
            ) && request.options.max_retries_hint == s.max_retries_hint,
            _ => false,
        },
{
}

/// An agent that keeps asking for the same is told which tool it keeps calling and how often
/// it has.
pub proof fn law_the_warning_names_the_tool(name: Seq<char>, rest: Seq<char>, streak: nat)
    requires
        !contains_text(name, "::"@),
        !contains_text(name, ":"@),
    ensures
        contains_text(loop_warning(Some(name + "::"@ + rest), streak), name),
        contains_text(loop_warning(Some(name + "::"@ + rest), streak), decimal(streak)),
{
    reveal_strlit("::");
    reveal_strlit(":");
    let s = name + "::"@ + rest;
    law_what_stands_before_a_text(s, "::"@);
    law_a_text_that_stands_in_another(s, "::"@);
    assert(s == name + "::"@ + rest);
    let tool = text_before(s, "::"@);
    let n = tool.len() as int;
    assert(occurs_at(s, "::"@, name.len() as int)) by {
        assert(s.subrange(name.len() as int, (name.len() + 2) as int) =~= "::"@);
    }
    if n < name.len() {
        assert(s.subrange(n, n + 2)[0] == ':');
        assert(s[n] == ':');
        assert(name[n] == ':');
        assert(name.subrange(n, n + 1) =~= ":"@);
        assert(occurs_at(name, ":"@, n));
    }
    assert(n == name.len());
    assert(tool =~= name) by {
        assert(s.subrange(0, n) == tool);
        assert(s.subrange(0, n) =~= name);
    }
    let w = loop_warning(Some(s), streak);
    let a = "\u{26a0}\u{fe0f} [tool-loop guard] You have called `"@;
    let b = "` with the exact same arguments "@;
    let c = " times in a row, which usually means the strategy is stuck. Try: 1) change the arguments (different path/pattern/query), 2) switch to a different tool, or 3) conclude with what you already know. Next call must use new arguments, a different tool, or produce a final answer."@;
    lemma_contains_middle(a, name, b + decimal(streak) + c);
    assert(a + name + (b + decimal(streak) + c) =~= w);
    lemma_contains_middle(a + name + b, decimal(streak), c);
}

} // verus!
