//! The conversation of an agent: every message is kept, and a shortened view of
//! the conversation is derived from it on demand.
use vstd::prelude::*;

use crate::text::{
    clone_opt, contains_text, join_strings, joined, lemma_contains_middle,
    lemma_contains_transitive, lemma_joined_contains, opt_text, texts,
};

verus! {

#[derive(Debug, Clone, PartialEq, Eq)]
pub struct ConversationMessage {
    pub id: u64,
    pub role: String,
    pub content: String,
    pub tool_call_id: Option<String>,
}

pub struct ConversationMessageView {
    pub id: u64,
    pub role: Seq<char>,
    pub content: Seq<char>,
    pub tool_call_id: Option<Seq<char>>,
}

impl View for ConversationMessage {
    type V = ConversationMessageView;

    open spec fn view(&self) -> ConversationMessageView {
        ConversationMessageView {
            id: self.id,
            role: self.role@,
            content: self.content@,
            tool_call_id: opt_text(self.tool_call_id),
        }
    }
}

pub open spec fn conversation_views(s: Seq<ConversationMessage>) -> Seq<ConversationMessageView> {
    Seq::new(s.len(), |i: int| s[i]@)
}

#[derive(Debug, Clone, PartialEq, Eq)]
pub struct CompactedContext {
    pub summary: String,
    pub retained_message_ids: Vec<u64>,
    pub original_message_count: usize,
}

pub struct CompactedView {
    pub summary: Seq<char>,
    pub retained_message_ids: Seq<u64>,
    pub original_message_count: nat,
}

impl View for CompactedContext {
    type V = CompactedView;

    open spec fn view(&self) -> CompactedView {
        CompactedView {
            summary: self.summary@,
            retained_message_ids: self.retained_message_ids@,
            original_message_count: self.original_message_count as nat,
        }
    }
}

#[derive(Debug, Clone, PartialEq, Eq)]
pub struct ActiveContextMessage {
    pub role: String,
    pub content: String,
    pub tool_call_id: Option<String>,
}

pub struct ActiveContextMessageView {
    pub role: Seq<char>,
    pub content: Seq<char>,
    pub tool_call_id: Option<Seq<char>>,
}

impl View for ActiveContextMessage {
    type V = ActiveContextMessageView;

    open spec fn view(&self) -> ActiveContextMessageView {
        ActiveContextMessageView {
            role: self.role@,
            content: self.content@,
            tool_call_id: opt_text(self.tool_call_id),
        }
    }
}

pub open spec fn active_views(s: Seq<ActiveContextMessage>) -> Seq<ActiveContextMessageView> {
    Seq::new(s.len(), |i: int| s[i]@)
}

/// One message as a line of the summary.
pub open spec fn summary_line(m: ConversationMessageView) -> Seq<char> {
    m.role + ": "@ + m.content
}

/// The summary of messages: a line for each of them.
pub open spec fn summary_of(messages: Seq<ConversationMessageView>) -> Seq<char> {
    joined(Seq::new(messages.len(), |i: int| summary_line(messages[i])), "\n"@)
}

/// How many messages are summarized when the last `retain_last` are retained.
pub open spec fn summarized_count(total: nat, retain_last: nat) -> nat {
    if total >= retain_last {
        (total - retain_last) as nat
    } else {
        0
    }
}

/// The conversation with one more message at its end, which gets the next number.
pub open spec fn with_message(
    messages: Seq<ConversationMessageView>,
    role: Seq<char>,
    content: Seq<char>,
    tool_call_id: Option<Seq<char>>,
) -> Seq<ConversationMessageView> {
    messages.push(
        ConversationMessageView { id: (messages.len() + 1) as u64, role, content, tool_call_id },
    )
}

/// The conversation when all but the last `retain_last` messages are summarized.
pub open spec fn compacted_to(
    messages: Seq<ConversationMessageView>,
    retain_last: nat,
) -> CompactedView {
    let split = summarized_count(messages.len(), retain_last) as int;
    CompactedView {
        summary: summary_of(messages.take(split)),
        retained_message_ids: Seq::new(
            (messages.len() - split) as nat,
            |i: int| messages[split + i].id,
        ),
        original_message_count: messages.len(),
    }
}

/// A message without its number.
pub open spec fn active_message(m: ConversationMessageView) -> ActiveContextMessageView {
    ActiveContextMessageView { role: m.role, content: m.content, tool_call_id: m.tool_call_id }
}

/// The shortened conversation: the summary of what came before, where anything
/// did, and the last `retain_last` messages.
pub open spec fn projection_of(
    messages: Seq<ConversationMessageView>,
    retain_last: nat,
) -> Seq<ActiveContextMessageView> {
    let split = summarized_count(messages.len(), retain_last) as int;
    let retained = Seq::new(
        (messages.len() - split) as nat,
        |i: int| active_message(messages[split + i]),
    );
    if split > 0 {
        seq![
            ActiveContextMessageView {
                role: "system"@,
                content: "Previous conversation summary:\n"@ + summary_of(messages.take(split)),
                tool_call_id: None,
            },
        ] + retained
    } else {
        retained
    }
}

#[derive(Debug)]
pub struct ContextManager {
    messages: Vec<ConversationMessage>,
    next_id: u64,
}

impl View for ContextManager {
    type V = Seq<ConversationMessageView>;

    closed spec fn view(&self) -> Seq<ConversationMessageView> {
        conversation_views(self.messages@)
    }
}

impl ContextManager {
    /// Messages are numbered from 1 in the order in which they came.
    pub closed spec fn wf(self) -> bool {
        &&& self.next_id == self.messages@.len()
        &&& forall|i: int| 0 <= i < self.messages@.len() ==> (#[trigger] self@[i]).id == i + 1
    }

    pub fn new() -> (c: Self)
        ensures
            c.wf(),
            c@ == Seq::<ConversationMessageView>::empty(),
    {
        let c = ContextManager { messages: Vec::new(), next_id: 0 };
        assert(c@ =~= Seq::<ConversationMessageView>::empty());
        c
    }

    /// Keeps a message and returns its number.
    pub fn append(&mut self, role: &str, content: &str, tool_call_id: Option<String>) -> (id: u64)
        requires
            old(self).wf(),
            old(self)@.len() < u64::MAX,
        ensures
            final(self).wf(),
            final(self)@ == with_message(old(self)@, role@, content@, opt_text(tool_call_id)),
            id == old(self)@.len() + 1,
            final(self)@ == old(self)@.push(
                (ConversationMessageView {
                    id,
                    role: role@,
                    content: content@,
                    tool_call_id: opt_text(tool_call_id),
                }),
            ),
    {
        let ghost before = *self;
        self.next_id = self.next_id + 1;
        let id: u64 = self.next_id;
        let message = ConversationMessage {
            id,
            role: role.to_owned(),
            content: content.to_owned(),
            tool_call_id,
        };
        let ghost view = message@;
        self.messages.push(message);
        proof {
            assert(self@ =~= before@.push(view));
            assert forall|i: int| 0 <= i < self.messages@.len() implies (
            #[trigger] self@[i]).id == i + 1 by {
                if i < before@.len() {
                    assert(self@[i] == before@[i]);
                }
            }
        }
        id
    }

    pub fn replay(&self) -> (m: &[ConversationMessage])
        ensures
            conversation_views(m@) == self@,
    {
        self.messages.as_slice()
    }

    /// Summarizes all but the last `retain_last` messages. The conversation itself
    /// stays whole.
    pub fn compact(&self, retain_last: usize) -> (c: CompactedContext)
        requires
            self.wf(),
        ensures
            c@ == compacted_to(self@, retain_last as nat),
            c.summary@ == summary_of(
                self@.take(summarized_count(self@.len(), retain_last as nat) as int),
            ),
            c.retained_message_ids@ == Seq::new(
                (self@.len() - summarized_count(self@.len(), retain_last as nat)) as nat,
                |i: int| self@[summarized_count(self@.len(), retain_last as nat) + i].id,
            ),
            c.original_message_count == self@.len(),
    {
        let n: usize = self.messages.len();
        let split_at: usize = n.saturating_sub(retain_last);
        let summary = self.summarize(split_at);
        let mut ids: Vec<u64> = Vec::new();
        let mut i: usize = split_at;
        while i < n
            invariant
                split_at <= i <= n,
                n == self.messages@.len(),
                ids@ == Seq::new((i - split_at) as nat, |k: int| self@[split_at + k].id),
            decreases n - i,
        {
            ids.push(self.messages[i].id);
            i += 1;
            assert(ids@ =~= Seq::new((i - split_at) as nat, |k: int| self@[split_at + k].id));
        }
        let c = CompactedContext { summary, retained_message_ids: ids, original_message_count: n };
        assert(c@.retained_message_ids =~= compacted_to(
            self@,
            retain_last as nat,
        ).retained_message_ids);
        c
    }

    fn summarize(&self, count: usize) -> (s: String)
        requires
            count <= self@.len(),
        ensures
            s@ == summary_of(self@.take(count as int)),
    {
        let mut lines: Vec<String> = Vec::new();
        let mut i: usize = 0;
        while i < count
            invariant
                i <= count <= self.messages@.len(),
                lines@.len() == i,
                forall|k: int| 0 <= k < i ==> #[trigger] lines@[k]@ == summary_line(self@[k]),
            decreases count - i,
        {
            let mut line = self.messages[i].role.clone();
            line.append(": ");
            line.append(self.messages[i].content.as_str());
            lines.push(line);
            i += 1;
        }
        let ghost messages = self@.take(count as int);
        assert(texts(lines@) =~= Seq::new(messages.len(), |k: int| summary_line(messages[k])));
        join_strings(&lines, "\n")
    }

    /// The shortened conversation that is sent to a model.
    pub fn active_projection(&self, retain_last: usize) -> (r: Vec<ActiveContextMessage>)
        requires
            self.wf(),
        ensures
            active_views(r@) == projection_of(self@, retain_last as nat),
    {
        let n: usize = self.messages.len();
        let start: usize = n.saturating_sub(retain_last);
        let mut projection: Vec<ActiveContextMessage> = Vec::new();
        if start > 0 {
            let mut content = "Previous conversation summary:\n".to_owned();
            let summary = self.summarize(start);
            content.append(summary.as_str());
            projection.push(
                ActiveContextMessage {
                    role: "system".to_owned(),
                    content,
                    tool_call_id: None,
                },
            );
        }
        let ghost head = active_views(projection@);
        let ghost first: int = if start > 0 {
            1
        } else {
            0
        };
        let mut i: usize = start;
        while i < n
            invariant
                start <= i <= n,
                n == self.messages@.len(),
                head.len() == first,
                active_views(projection@) == head + Seq::new(
                    (i - start) as nat,
                    |k: int| active_message(self@[start + k]),
                ),
            decreases n - i,
        {
            let message = ActiveContextMessage {
                role: self.messages[i].role.clone(),
                content: self.messages[i].content.clone(),
                tool_call_id: clone_opt(&self.messages[i].tool_call_id),
            };
            let ghost before = active_views(projection@);
            let ghost view = message@;
            projection.push(message);
            i += 1;
            proof {
                assert(active_views(projection@) =~= before.push(view));
                assert(view == active_message(self@[i - 1]));
                assert(active_views(projection@) =~= head + Seq::new(
                    (i - start) as nat,
                    |k: int| active_message(self@[start + k]),
                ));
            }
        }
        assert(active_views(projection@) =~= projection_of(self@, retain_last as nat));
        projection
    }
}

impl Default for ContextManager {
    fn default() -> (c: Self)
        ensures
            c.wf(),
            c@ == Seq::<ConversationMessageView>::empty(),
    {
        Self::new()
    }
}

/// The messages of a conversation are numbered from 1 in the order in which they came.
pub proof fn law_messages_are_numbered(c: ContextManager, i: int)
    requires
        c.wf(),
        0 <= i < c@.len(),
    ensures
        c@[i].id == i + 1,
{
}

/// Whatever is summarized away stays readable: the content of each such message
/// stands in the summary.
pub proof fn law_summary_keeps_every_content(messages: Seq<ConversationMessageView>, i: int)
    requires
        0 <= i < messages.len(),
    ensures
        contains_text(summary_of(messages), messages[i].content),
{
    let lines = Seq::new(messages.len(), |k: int| summary_line(messages[k]));
    lemma_joined_contains(lines, "\n"@, i);
    let m = messages[i];
    lemma_contains_middle(m.role + ": "@, m.content, Seq::empty());
    assert(m.role + ": "@ + m.content + Seq::<char>::empty() =~= summary_line(m));
    lemma_contains_transitive(summary_of(messages), lines[i], m.content);
}

/// Nothing is lost in the shortened conversation: each message is either there
/// itself or its content stands in the leading summary.
pub proof fn law_projection_keeps_every_fact(
    messages: Seq<ConversationMessageView>,
    retain_last: nat,
    i: int,
)
    requires
        0 <= i < messages.len(),
    ensures
        ({
            let projection = projection_of(messages, retain_last);
            let split = summarized_count(messages.len(), retain_last) as int;
            if i < split {
                projection[0].role == "system"@ && contains_text(
                    projection[0].content,
                    messages[i].content,
                )
            } else if split > 0 {
                projection[i - split + 1] == active_message(messages[i])
            } else {
                projection[i] == active_message(messages[i])
            }
        }),
        projection_of(messages, retain_last).len() <= retain_last + 1,
{
    let split = summarized_count(messages.len(), retain_last) as int;
    if i < split {
        let head = messages.take(split);
        law_summary_keeps_every_content(head, i);
        let summary = summary_of(head);
        lemma_contains_middle("Previous conversation summary:\n"@, summary, Seq::empty());
        let content = "Previous conversation summary:\n"@ + summary;
        assert(content + Seq::<char>::empty() =~= content);
        lemma_contains_transitive(content, summary, messages[i].content);
    }
}

/// The shortened conversation, message by message. One that is short enough is shown
/// whole. Of a longer one the last messages are shown as they are, as many as are to be
/// retained, behind one message of the system that holds the content of all the others.
pub proof fn law_the_last_messages_are_shown_as_they_are(
    messages: Seq<ConversationMessageView>,
    retain_last: nat,
    i: int,
)
    ensures
        ({
            let p = projection_of(messages, retain_last);
            let n = messages.len() as int;
            if n <= retain_last {
                &&& p.len() == n
                &&& 0 <= i < n ==> p[i].role == messages[i].role && p[i].content
                    == messages[i].content && p[i].tool_call_id == messages[i].tool_call_id
            } else {
                let first = n - retain_last;
                &&& p.len() == retain_last + 1
                &&& p[0].role == "system"@
                &&& p[0].tool_call_id is None
                &&& 0 <= i < first ==> contains_text(p[0].content, messages[i].content)
                    && contains_text(p[0].content, messages[i].role)
                &&& first <= i < n ==> {
                    let shown = p[i - first + 1];
                    shown.role == messages[i].role && shown.content == messages[i].content
                        && shown.tool_call_id == messages[i].tool_call_id
                }
            }
        }),
{
    let n = messages.len() as int;
    if n > retain_last && 0 <= i < n - retain_last {
        law_projection_keeps_every_fact(messages, retain_last, i);
        let split = n - retain_last;
        let head = messages.take(split);
        let lines = Seq::new(head.len(), |k: int| summary_line(head[k]));
        lemma_joined_contains(lines, "\n"@, i);
        let m = messages[i];
        lemma_contains_middle(Seq::empty(), m.role, ": "@ + m.content);
        assert(Seq::<char>::empty() + m.role + (": "@ + m.content) =~= lines[i]);
        lemma_contains_transitive(summary_of(head), lines[i], m.role);
        let intro = "Previous conversation summary:\n"@;
        lemma_contains_middle(intro, summary_of(head), Seq::empty());
        assert(intro + summary_of(head) + Seq::<char>::empty() =~= intro + summary_of(head));
        lemma_contains_transitive(intro + summary_of(head), summary_of(head), m.role);
    }
}

/// A summary has a line for each message, with its role and its content, in order.
pub proof fn law_a_summary_grows_line_by_line(
    messages: Seq<ConversationMessageView>,
    m: ConversationMessageView,
)
    ensures
        summary_of(Seq::empty()).len() == 0,
        summary_of(seq![m]) == m.role + ": "@ + m.content,
        messages.len() > 0 ==> summary_of(messages.push(m)) == summary_of(messages) + "\n"@ + (
        m.role + ": "@ + m.content),
{
    let lines = Seq::new(messages.len(), |k: int| summary_line(messages[k]));
    let longer = Seq::new(messages.push(m).len(), |k: int| summary_line(messages.push(m)[k]));
    assert(longer =~= lines.push(summary_line(m)));
    assert(lines.push(summary_line(m)).drop_last() =~= lines);
    let one = Seq::new(seq![m].len(), |k: int| summary_line(seq![m][k]));
    assert(one =~= seq![summary_line(m)]);
}

/// How many messages are summarized: all but those that are retained.
pub proof fn law_all_but_the_retained_are_summarized(total: nat, retain_last: nat)
    ensures
        total >= retain_last ==> summarized_count(total, retain_last) + retain_last == total,
        total < retain_last ==> summarized_count(total, retain_last) == 0,
{
}

/// A message is kept at the end of the conversation, as it was said and with the next
/// number; the others stay.
pub proof fn law_a_message_is_kept_as_it_was_said(
    messages: Seq<ConversationMessageView>,
    role: Seq<char>,
    content: Seq<char>,
    tool_call_id: Option<Seq<char>>,
)
    requires
        messages.len() < u64::MAX,
    ensures
        ({
            let after = with_message(messages, role, content, tool_call_id);
            &&& after.drop_last() == messages
            &&& after.last().role == role
            &&& after.last().content == content
            &&& after.last().tool_call_id == tool_call_id
            &&& after.last().id == messages.len() + 1
        }),
{
    assert(with_message(messages, role, content, tool_call_id).drop_last() =~= messages);
}

/// Summarizing a conversation keeps the numbers of the last messages, as many as are to be
/// retained, and the content of all the others in the summary.
pub proof fn law_what_compacting_keeps(
    messages: Seq<ConversationMessageView>,
    retain_last: nat,
    i: int,
)
    requires
        0 <= i < messages.len(),
    ensures
        ({
            let c = compacted_to(messages, retain_last);
            let n = messages.len() as int;
            &&& c.original_message_count == n
            &&& n <= retain_last ==> c.retained_message_ids.len() == n && c.summary.len() == 0
            &&& n > retain_last ==> c.retained_message_ids.len() == retain_last
            &&& n > retain_last && i < n - retain_last ==> contains_text(
                c.summary,
                messages[i].content,
            )
            &&& n > retain_last && i >= n - retain_last ==> c.retained_message_ids[i - (n
                - retain_last)] == messages[i].id
            &&& n <= retain_last ==> c.retained_message_ids[i] == messages[i].id
        }),
{
    let n = messages.len() as int;
    if n > retain_last && i < n - retain_last {
        law_summary_keeps_every_content(messages.take(n - retain_last), i);
    }
    if n <= retain_last {
        law_a_summary_grows_line_by_line(messages, messages[i]);
        assert(messages.take(0) =~= Seq::empty());
    }
}

} // verus!
