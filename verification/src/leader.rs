//! Turning an objective, or the tasks that a model proposes, into a plan.
use vstd::prelude::*;

use crate::json::{json_get, json_opt_text, json_text_of, json_views, Json, JsonView};
use crate::text::{
    chars_of, opt_text, string_of_range, trim_range, trim_string,
    trimmed,
};

verus! {

#[derive(Debug, Clone, PartialEq, Eq)]
pub struct LeaderTaskDraft {
    pub task_id: Option<String>,
    pub subject: String,
    pub description: String,
}

pub struct DraftView {
    pub task_id: Option<Seq<char>>,
    pub subject: Seq<char>,
    pub description: Seq<char>,
}

impl View for LeaderTaskDraft {
    type V = DraftView;

    open spec fn view(&self) -> DraftView {
        DraftView {
            task_id: opt_text(self.task_id),
            subject: self.subject@,
            description: self.description@,
        }
    }
}

pub open spec fn draft_views(s: Seq<LeaderTaskDraft>) -> Seq<DraftView> {
    Seq::new(s.len(), |i: int| s[i]@)
}

impl LeaderTaskDraft {
    pub fn to_value(&self) -> (v: Json)
        ensures
            v@ == JsonView::Object(
                seq![
                    ("description"@, JsonView::String(self@.description)),
                    ("subject"@, JsonView::String(self@.subject)),
                    ("task_id"@, json_opt_text(self@.task_id)),
                ],
            ),
    {
        let v = Json::object().with("description", Json::text(self.description.as_str())).with(
            "subject",
            Json::text(self.subject.as_str()),
        ).with("task_id", Json::opt_text(&self.task_id));
        assert(v@->Object_0 =~= seq![
            ("description"@, JsonView::String(self@.description)),
            ("subject"@, JsonView::String(self@.subject)),
            ("task_id"@, json_opt_text(self@.task_id)),
        ]);
        v
    }
}

#[derive(Debug, Clone, PartialEq, Eq)]
pub struct LeaderPlan {
    pub tasks: Vec<LeaderTaskDraft>,
}

#[derive(Debug, Clone, PartialEq, Eq)]
pub enum LeaderPlanError {
    EmptyObjective,
    InvalidTasks(String),
}

/// The place of the first full stop or line feed from `from` on, or the end.
pub open spec fn sentence_end(s: Seq<char>, from: int) -> int
    decreases s.len() - from,
{
    if from >= s.len() {
        s.len() as int
    } else if s[from] == '.' || s[from] == '\n' {
        from
    } else {
        sentence_end(s, from + 1)
    }
}

/// The first sentence of a text, without white space around it and cut to
/// `max_chars`; a general name where there is none.
pub open spec fn short_subject(text: Seq<char>, max_chars: nat) -> Seq<char> {
    let sentence = trimmed(text.take(sentence_end(text, 0)));
    let cut = if sentence.len() <= max_chars {
        sentence
    } else {
        sentence.take(max_chars as int)
    };
    if cut.len() == 0 {
        "Leader task"@
    } else {
        cut
    }
}

fn first_sentence_or_prefix(text: &str, max_chars: usize) -> (r: String)
    ensures
        r@ == short_subject(text@, max_chars as nat),
{
    let v = chars_of(text);
    let mut end: usize = 0;
    while end < v.len() && v[end] != '.' && v[end] != '\n'
        invariant
            end <= v@.len(),
            sentence_end(v@, 0) == sentence_end(v@, end as int),
        decreases v@.len() - end,
    {
        end += 1;
    }
    let sentence = string_of_range(&v, 0, end);
    assert(sentence@ =~= v@.take(end as int));
    let s = chars_of(sentence.as_str());
    let (from, to) = trim_range(&s);
    let cut_to = if to - from > max_chars {
        from + max_chars
    } else {
        to
    };
    let subject = string_of_range(&s, from, cut_to);
    assert(subject@ =~= ({
        let t = trimmed(s@);
        if t.len() <= max_chars {
            t
        } else {
            t.take(max_chars as int)
        }
    }));
    if subject.as_str().is_empty() {
        "Leader task".to_owned()
    } else {
        subject
    }
}

/// The text of the first of two members that is a text.
pub open spec fn either_text(task: JsonView, a: Seq<char>, b: Seq<char>) -> Option<Seq<char>> {
    match json_text_of(json_get(task, a)) {
        Some(s) => Some(s),
        None => json_text_of(json_get(task, b)),
    }
}

/// The subject that a proposed task names.
pub open spec fn proposed_subject(task: JsonView) -> Seq<char> {
    trimmed(
        match either_text(task, "subject"@, "title"@) {
            Some(s) => s,
            None => "Leader task"@,
        },
    )
}

pub open spec fn proposed_description(task: JsonView) -> Seq<char> {
    trimmed(
        match either_text(task, "description"@, "body"@) {
            Some(s) => s,
            None => Seq::empty(),
        },
    )
}

/// The id that a proposed task names: the member `task_id`, or `id` where there is no
/// such member.
pub open spec fn proposed_id(task: JsonView) -> Option<Seq<char>> {
    let value = match json_get(task, "task_id"@) {
        Some(v) => Some(v),
        None => json_get(task, "id"@),
    };
    match json_text_of(value) {
        Some(s) => if trimmed(s).len() == 0 {
            None
        } else {
            Some(trimmed(s))
        },
        None => None,
    }
}

pub open spec fn draft_of(task: JsonView) -> DraftView {
    DraftView {
        task_id: proposed_id(task),
        subject: proposed_subject(task),
        description: proposed_description(task),
    }
}

/// The tasks of a plan, where there is one.
pub open spec fn plan_views(r: Result<LeaderPlan, LeaderPlanError>) -> Option<Seq<DraftView>> {
    match r {
        Ok(plan) => Some(draft_views(plan.tasks@)),
        Err(_) => None,
    }
}

/// The plan of one task that is the whole objective.
pub open spec fn objective_plan(objective: Seq<char>) -> Option<Seq<DraftView>> {
    let text = trimmed(objective);
    if text.len() == 0 {
        None
    } else {
        Some(
            seq![
                DraftView {
                    task_id: None,
                    subject: short_subject(text, 80),
                    description: text,
                },
            ],
        )
    }
}

/// The plan that proposed tasks make.
pub open spec fn proposed_plan(tasks: Seq<JsonView>, max_tasks: nat) -> Option<Seq<DraftView>> {
    let looked_at = considered(tasks, max_tasks);
    if forall|i: int|
        0 <= i < looked_at.len() ==> proposed_subject(#[trigger] looked_at[i]).len() > 0 {
        Some(Seq::new(looked_at.len(), |i: int| draft_of(looked_at[i])))
    } else {
        None
    }
}

/// The proposed tasks that are looked at.
pub open spec fn considered(tasks: Seq<JsonView>, max_tasks: nat) -> Seq<JsonView> {
    if tasks.len() <= max_tasks {
        tasks
    } else {
        tasks.take(max_tasks as int)
    }
}

fn text_member<'a>(task: &'a Json, a: &str, b: &str) -> (r: Option<&'a str>)
    ensures
        match r {
            Some(s) => either_text(task@, a@, b@) == Some(s@),
            None => either_text(task@, a@, b@) is None,
        },
{
    if let Some(v) = task.get(a) {
        if let Some(s) = v.as_str() {
            return Some(s);
        }
    }
    match task.get(b) {
        Some(v) => v.as_str(),
        None => None,
    }
}

fn id_member(task: &Json) -> (r: Option<String>)
    ensures
        opt_text(r) == proposed_id(task@),
{
    let value = match task.get("task_id") {
        Some(v) => Some(v),
        None => task.get("id"),
    };
    match value {
        Some(v) => match v.as_str() {
            Some(s) => {
                let t = trim_string(s);
                if t.as_str().is_empty() {
                    None
                } else {
                    Some(t)
                }
            },
            None => None,
        },
        None => None,
    }
}

/// Makes plans of at most `max_tasks` tasks.
pub struct LeaderOrchestrator {
    max_tasks: usize,
}

impl View for LeaderOrchestrator {
    type V = nat;

    closed spec fn view(&self) -> nat {
        self.max_tasks as nat
    }
}

impl LeaderOrchestrator {
    pub fn new() -> (l: Self)
        ensures
            l@ == 20,
    {
        LeaderOrchestrator { max_tasks: 20 }
    }

    pub fn with_max_tasks(self, max_tasks: usize) -> (l: Self)
        ensures
            l@ == if max_tasks < 1 {
                1
            } else {
                max_tasks as nat
            },
    {
        LeaderOrchestrator {
            max_tasks: if max_tasks < 1 {
                1
            } else {
                max_tasks
            },
        }
    }

    /// A plan of one task that is the whole objective.
    pub fn plan_from_objective(&self, objective: &str) -> (r: Result<LeaderPlan, LeaderPlanError>)
        ensures
            plan_views(r) == objective_plan(objective@),
            match r {
                Ok(plan) => trimmed(objective@).len() > 0 && draft_views(plan.tasks@) == seq![
                    DraftView {
                        task_id: None,
                        subject: short_subject(trimmed(objective@), 80),
                        description: trimmed(objective@),
                    },
                ],
                Err(e) => e is EmptyObjective && trimmed(objective@).len() == 0,
            },
    {
        let objective = trim_string(objective);
        if objective.as_str().is_empty() {
            return Err(LeaderPlanError::EmptyObjective);
        }
        let subject = first_sentence_or_prefix(objective.as_str(), 80);
        let mut tasks: Vec<LeaderTaskDraft> = Vec::new();
        let ghost text = objective@;
        tasks.push(LeaderTaskDraft { task_id: None, subject, description: objective });
        assert(draft_views(tasks@) =~= seq![
            DraftView { task_id: None, subject: short_subject(text, 80), description: text },
        ]);
        Ok(LeaderPlan { tasks })
    }

    /// The plan that proposed tasks make, up to the limit; a task without a subject
    /// makes it invalid.
    pub fn normalize_task_values(&self, tasks: &[Json]) -> (r: Result<LeaderPlan, LeaderPlanError>)
        ensures
            plan_views(r) == proposed_plan(json_views(tasks@), self@),
            ({
                let looked_at = considered(json_views(tasks@), self@);
                match r {
                    Ok(plan) => {
                        &&& forall|i: int|
                            0 <= i < looked_at.len() ==> proposed_subject(
                                #[trigger] looked_at[i],
                            ).len() > 0
                        &&& draft_views(plan.tasks@) == Seq::new(
                            looked_at.len(),
                            |i: int| draft_of(looked_at[i]),
                        )
                    },
                    Err(LeaderPlanError::InvalidTasks(message)) => {
                        &&& message@ == "task subject must not be empty"@
                        &&& exists|i: int|
                            0 <= i < looked_at.len() && proposed_subject(
                                #[trigger] looked_at[i],
                            ).len() == 0
                    },
                    Err(LeaderPlanError::EmptyObjective) => false,
                }
            }),
    {
        let ghost looked_at = considered(json_views(tasks@), self@);
        let n: usize = if tasks.len() <= self.max_tasks {
            tasks.len()
        } else {
            self.max_tasks
        };
        let mut drafts: Vec<LeaderTaskDraft> = Vec::new();
        let mut i: usize = 0;
        while i < n
            invariant
                i <= n <= tasks@.len(),
                n == looked_at.len(),
                looked_at == considered(json_views(tasks@), self@),
                drafts@.len() == i,
                forall|j: int|
                    0 <= j < i ==> proposed_subject(#[trigger] looked_at[j]).len() > 0,
                forall|j: int| 0 <= j < i ==> #[trigger] drafts@[j]@ == draft_of(looked_at[j]),
            decreases n - i,
        {
            let task = &tasks[i];
            assert(looked_at[i as int] == task@);
            let subject = match text_member(task, "subject", "title") {
                Some(s) => trim_string(s),
                None => trim_string("Leader task"),
            };
            if subject.as_str().is_empty() {
                return Err(
                    LeaderPlanError::InvalidTasks("task subject must not be empty".to_owned()),
                );
            }
            let description = match text_member(task, "description", "body") {
                Some(s) => trim_string(s),
                None => {
                    assert(trimmed(Seq::<char>::empty()) =~= Seq::<char>::empty());
                    String::new()
                },
            };
            drafts.push(LeaderTaskDraft { task_id: id_member(task), subject, description });
            i += 1;
        }
        assert(draft_views(drafts@) =~= Seq::new(
            looked_at.len(),
            |j: int| draft_of(looked_at[j]),
        ));
        Ok(LeaderPlan { tasks: drafts })
    }
}

impl Default for LeaderOrchestrator {
    fn default() -> (l: Self)
        ensures
            l@ == 20,
    {
        Self::new()
    }
}

/// A plan never has a task without a subject, and the subject made from an objective
/// is no longer than eighty characters.
pub proof fn law_subjects_are_short_and_not_empty(objective: Seq<char>)
    ensures
        0 < short_subject(objective, 80).len() <= 80,
{
    reveal_strlit("Leader task");
}

/// An objective makes a plan of one task that says all of it, under a short subject; none
/// makes no plan. The subject is the first sentence of the objective, as far as it reaches.
pub proof fn law_an_objective_is_one_task(objective: Seq<char>, i: int)
    ensures
        ({
            let text = trimmed(objective);
            match objective_plan(objective) {
                Some(drafts) => {
                    &&& text.len() > 0
                    &&& drafts.len() == 1
                    &&& drafts[0].description == text
                    &&& drafts[0].task_id is None
                    &&& drafts[0].subject == short_subject(text, 80)
                },
                None => text.len() == 0,
            }
        }),
        0 <= i <= objective.len() && (forall|j: int|
            0 <= j < i ==> #[trigger] objective[j] != '.' && objective[j] != '\n') && (i
            == objective.len() || objective[i] == '.' || objective[i] == '\n') ==> {
            let sentence = trimmed(objective.take(i));
            &&& 0 < sentence.len() <= 80 ==> short_subject(objective, 80) == sentence
            &&& sentence.len() > 80 ==> short_subject(objective, 80) == sentence.take(80)
            &&& sentence.len() == 0 ==> short_subject(objective, 80) == "Leader task"@
        },
{
    reveal_strlit("Leader task");
    if 0 <= i <= objective.len() && (forall|j: int|
        0 <= j < i ==> #[trigger] objective[j] != '.' && objective[j] != '\n') && (i
        == objective.len() || objective[i] == '.' || objective[i] == '\n') {
        lemma_sentence_ends_at(objective, 0, i);
    }
}

proof fn lemma_sentence_ends_at(s: Seq<char>, from: int, i: int)
    requires
        0 <= from <= i <= s.len(),
        forall|j: int| 0 <= j < i ==> #[trigger] s[j] != '.' && s[j] != '\n',
        i == s.len() || s[i] == '.' || s[i] == '\n',
    ensures
        sentence_end(s, from) == i,
    decreases i - from,
{
    if from < i {
        assert(s[from] != '.' && s[from] != '\n');
        lemma_sentence_ends_at(s, from + 1, i);
    }
}

/// Proposed tasks make a plan, task by task and in their order, as many as the limit allows;
/// one of them without a subject spoils it.
pub proof fn law_proposed_tasks_are_taken_over(tasks: Seq<JsonView>, max_tasks: nat, i: int)
    requires
        0 <= i < tasks.len(),
        i < max_tasks,
    ensures
        match proposed_plan(tasks, max_tasks) {
            Some(drafts) => {
                &&& tasks.len() <= max_tasks ==> drafts.len() == tasks.len()
                &&& tasks.len() > max_tasks ==> drafts.len() == max_tasks
                &&& drafts[i] == draft_of(tasks[i])
                &&& drafts[i].subject.len() > 0
            },
            None => exists|j: int|
                0 <= j < tasks.len() && j < max_tasks && proposed_subject(#[trigger] tasks[j]).len()
                    == 0,
        },
{
    let looked_at = considered(tasks, max_tasks);
    assert(looked_at[i] == tasks[i]);
    if proposed_plan(tasks, max_tasks) is None {
        let j = choose|j: int|
            0 <= j < looked_at.len() && !(proposed_subject(#[trigger] looked_at[j]).len() > 0);
        assert(looked_at[j] == tasks[j]);
        assert(proposed_subject(tasks[j]).len() == 0);
    } else {
        assert(proposed_subject(looked_at[i]).len() > 0);
    }
}

/// What is taken over of a proposed task: its subject or title, its description or body and
/// its id, without white space around them.
pub proof fn law_what_is_taken_over_of_a_task(task: JsonView, s: Seq<char>, t: Seq<char>)
    ensures
        json_get(task, "subject"@) == Some(JsonView::String(s)) ==> draft_of(task).subject
            == trimmed(s),
        json_get(task, "subject"@) is None && json_get(task, "title"@) == Some(
            JsonView::String(s),
        ) ==> draft_of(task).subject == trimmed(s),
        json_get(task, "description"@) == Some(JsonView::String(t)) ==> draft_of(task).description
            == trimmed(t),
        json_get(task, "description"@) is None && json_get(task, "body"@) == Some(
            JsonView::String(t),
        ) ==> draft_of(task).description == trimmed(t),
        json_get(task, "description"@) is None && json_get(task, "body"@) is None ==> trimmed(
            Seq::<char>::empty(),
        ) == draft_of(task).description,
        json_get(task, "task_id"@) == Some(JsonView::String(s)) && trimmed(s).len() > 0
            ==> draft_of(task).task_id == Some(trimmed(s)),
        json_get(task, "task_id"@) is None && json_get(task, "id"@) == Some(JsonView::String(s))
            && trimmed(s).len() > 0 ==> draft_of(task).task_id == Some(trimmed(s)),
        json_get(task, "task_id"@) is None && json_get(task, "id"@) is None ==> draft_of(
            task,
        ).task_id is None,
{
}

} // verus!
