//! Stopping an agent that repeats a call which keeps failing in the same way.
use vstd::prelude::*;

use crate::agent::failure::{
    args_fingerprint, classify_tool_failure, failure_args_fingerprint, failure_kind, kind_name,
    state_error, ToolFailureErrorKind,
};
use crate::agent::tool_loop::{guard_enabled, opt_str, switched_on};
use crate::json::{
    json_to_string, json_written, lemma_shows, shows, Json, JsonNumber, JsonView,
};
use crate::text::{
    contains_text, decimal, decimal_string, join_strings, joined, lemma_contains_middle,
    lemma_contains_transitive, lemma_joined_contains, same_text, texts,
};

verus! {

pub const DEFAULT_TOOL_FAILURE_THRESHOLD: usize = 3;

pub const DEFAULT_MAX_FAILURE_KEYS: usize = 256;

/// The variable of the environment that switches the guard on.
pub const TOOL_FAILURE_LOOP_GUARD_VARIABLE: &'static str = "LINGXIAO_TOOL_FAILURE_LOOP_GUARD";

/// How often one call has failed in one way.
#[derive(Debug)]
pub struct ToolFailureRecord {
    pub tool_name: String,
    pub args_hash: String,
    pub error_kind: ToolFailureErrorKind,
    pub error_code: String,
    pub count: usize,
    pub last_error_message: String,
    pub tripped: bool,
}

pub struct RecordView {
    pub tool_name: Seq<char>,
    pub args_hash: Seq<char>,
    pub error_kind: ToolFailureErrorKind,
    pub error_code: Seq<char>,
    pub count: nat,
    pub last_error_message: Seq<char>,
    pub tripped: bool,
}

impl View for ToolFailureRecord {
    type V = RecordView;

    open spec fn view(&self) -> RecordView {
        RecordView {
            tool_name: self.tool_name@,
            args_hash: self.args_hash@,
            error_kind: self.error_kind,
            error_code: self.error_code@,
            count: self.count as nat,
            last_error_message: self.last_error_message@,
            tripped: self.tripped,
        }
    }
}

impl Clone for ToolFailureRecord {
    fn clone(&self) -> (r: Self)
        ensures
            r@ == self@,
    {
        ToolFailureRecord {
            tool_name: self.tool_name.clone(),
            args_hash: self.args_hash.clone(),
            error_kind: self.error_kind,
            error_code: self.error_code.clone(),
            count: self.count,
            last_error_message: self.last_error_message.clone(),
            tripped: self.tripped,
        }
    }
}

pub open spec fn record_views(s: Seq<ToolFailureRecord>) -> Seq<RecordView> {
    Seq::new(s.len(), |i: int| s[i]@)
}

/// Which call failed and how.
#[derive(Debug, Clone, PartialEq, Eq)]
pub struct ToolFailureSignature {
    pub tool_name: String,
    pub args_hash: String,
    pub error_kind: ToolFailureErrorKind,
    pub error_code: String,
}

/// What a guard makes of a failure.
#[derive(Debug, Clone)]
pub struct LoopGuardDecision {
    pub tripped: bool,
    pub count: usize,
    pub error_kind: ToolFailureErrorKind,
    pub signature: ToolFailureSignature,
    pub requires_escalation: bool,
    /// True only for the failure that made the guard trip.
    pub just_tripped: bool,
}

pub struct SignatureView {
    pub tool_name: Seq<char>,
    pub args_hash: Seq<char>,
    pub error_kind: ToolFailureErrorKind,
    pub error_code: Seq<char>,
}

pub struct DecisionView {
    pub tripped: bool,
    pub count: nat,
    pub error_kind: ToolFailureErrorKind,
    pub signature: SignatureView,
    pub requires_escalation: bool,
    pub just_tripped: bool,
}

impl View for ToolFailureSignature {
    type V = SignatureView;

    open spec fn view(&self) -> SignatureView {
        SignatureView {
            tool_name: self.tool_name@,
            args_hash: self.args_hash@,
            error_kind: self.error_kind,
            error_code: self.error_code@,
        }
    }
}

impl View for LoopGuardDecision {
    type V = DecisionView;

    open spec fn view(&self) -> DecisionView {
        DecisionView {
            tripped: self.tripped,
            count: self.count as nat,
            error_kind: self.error_kind,
            signature: self.signature@,
            requires_escalation: self.requires_escalation,
            just_tripped: self.just_tripped,
        }
    }
}

#[derive(Debug, Clone)]
pub struct ToolFailureLoopGuardOptions {
    pub enabled: Option<bool>,
    pub threshold: usize,
    pub max_keys: usize,
}

impl Default for ToolFailureLoopGuardOptions {
    fn default() -> (o: Self)
        ensures
            o.enabled is None,
            o.threshold == 3,
            o.max_keys == 256,
    {
        ToolFailureLoopGuardOptions {
            enabled: None,
            threshold: DEFAULT_TOOL_FAILURE_THRESHOLD,
            max_keys: DEFAULT_MAX_FAILURE_KEYS,
        }
    }
}

#[derive(Debug)]
pub struct ToolFailureLoopGuard {
    enabled: bool,
    threshold: usize,
    max_keys: usize,
    records: Vec<ToolFailureRecord>,
}

/// What a guard knows: its settings and a record for each call that failed in some
/// way, the oldest record first.
pub struct GuardView {
    pub enabled: bool,
    pub threshold: nat,
    pub max_keys: nat,
    pub records: Seq<RecordView>,
}

impl View for ToolFailureLoopGuard {
    type V = GuardView;

    closed spec fn view(&self) -> GuardView {
        GuardView {
            enabled: self.enabled,
            threshold: self.threshold as nat,
            max_keys: self.max_keys as nat,
            records: record_views(self.records@),
        }
    }
}

/// The record is about the call of this tool with these arguments, failing in this
/// way.
pub open spec fn is_about(
    r: RecordView,
    tool: Seq<char>,
    hash: Seq<char>,
    kind: ToolFailureErrorKind,
) -> bool {
    r.tool_name == tool && r.args_hash == hash && r.error_kind == kind
}

/// Where the record about this failure stands.
pub open spec fn record_index(
    records: Seq<RecordView>,
    tool: Seq<char>,
    hash: Seq<char>,
    kind: ToolFailureErrorKind,
) -> Option<int>
    decreases records.len(),
{
    if records.len() == 0 {
        None
    } else if is_about(records.last(), tool, hash, kind) {
        Some(records.len() - 1)
    } else {
        record_index(records.drop_last(), tool, hash, kind)
    }
}

pub proof fn lemma_record_index(
    records: Seq<RecordView>,
    tool: Seq<char>,
    hash: Seq<char>,
    kind: ToolFailureErrorKind,
)
    ensures
        match record_index(records, tool, hash, kind) {
            Some(i) => 0 <= i < records.len() && is_about(records[i], tool, hash, kind),
            None => forall|j: int|
                0 <= j < records.len() ==> !is_about(#[trigger] records[j], tool, hash, kind),
        },
    decreases records.len(),
{
    if records.len() > 0 && !is_about(records.last(), tool, hash, kind) {
        lemma_record_index(records.drop_last(), tool, hash, kind);
        assert forall|j: int| 0 <= j < records.len() - 1 implies records.drop_last()[j]
            == records[j] by {}
    }
}

/// The place of the first record with the smallest count.
pub open spec fn least_counted(records: Seq<RecordView>) -> int
    decreases records.len(),
{
    if records.len() <= 1 {
        0
    } else {
        let before = least_counted(records.drop_last());
        if records.last().count < records[before].count {
            records.len() - 1
        } else {
            before
        }
    }
}

proof fn lemma_least_counted(records: Seq<RecordView>)
    requires
        records.len() > 0,
    ensures
        0 <= least_counted(records) < records.len(),
        forall|j: int|
            0 <= j < records.len() ==> records[least_counted(records)].count <= (
            #[trigger] records[j]).count,
    decreases records.len(),
{
    if records.len() > 1 {
        lemma_least_counted(records.drop_last());
        assert forall|j: int| 0 <= j < records.len() - 1 implies records.drop_last()[j]
            == records[j] by {}
    }
}

impl GuardView {
    /// No two records are about the same failure, there are no more than the limit
    /// allows, a record has tripped exactly if it can trip and its count has reached
    /// the threshold, and a tripped record counts no further.
    pub open spec fn wf(self) -> bool {
        &&& self.enabled ==> self.threshold >= 2 && self.max_keys >= 16
        &&& self.records.len() <= self.max_keys
        &&& forall|i: int, j: int|
            0 <= i < j < self.records.len() ==> !is_about(
                #[trigger] self.records[j],
                (#[trigger] self.records[i]).tool_name,
                self.records[i].args_hash,
                self.records[i].error_kind,
            )
        &&& forall|i: int|
            0 <= i < self.records.len() ==> (#[trigger] self.records[i]).count >= 1
                && self.records[i].tripped == (self.records[i].error_kind
                != ToolFailureErrorKind::Precondition && self.records[i].count >= self.threshold)
                && (self.records[i].tripped ==> self.records[i].count == self.threshold)
    }

    /// A failure of this call can be recorded: its count, where it still grows, has not
    /// reached the largest number.
    pub open spec fn can_record(
        self,
        tool: Seq<char>,
        hash: Seq<char>,
        kind: ToolFailureErrorKind,
    ) -> bool {
        self.enabled ==> forall|i: int|
            0 <= i < self.records.len() && is_about(#[trigger] self.records[i], tool, hash, kind)
                ==> self.records[i].tripped || self.records[i].count < usize::MAX
    }

    /// How often the failure has been recorded.
    pub open spec fn count_of(
        self,
        tool: Seq<char>,
        hash: Seq<char>,
        kind: ToolFailureErrorKind,
    ) -> nat {
        match record_index(self.records, tool, hash, kind) {
            Some(i) => self.records[i].count,
            None => 0,
        }
    }
}

/// A failure that a tool reported.
pub struct Failure {
    pub tool: Seq<char>,
    pub hash: Seq<char>,
    pub kind: ToolFailureErrorKind,
    pub code: Seq<char>,
    pub text: Seq<char>,
}

/// The message that stays of a failure: the new one, unless it is empty.
pub open spec fn kept_message(old_message: Seq<char>, text: Seq<char>) -> Seq<char> {
    if text.len() == 0 {
        old_message
    } else {
        text
    }
}

/// The guard after a failure: a record that has tripped only takes the message; any
/// other counts the failure and trips at the threshold. For a new record, the
/// least counted one makes room where there is none.
pub open spec fn recorded(g: GuardView, f: Failure) -> GuardView {
    if !g.enabled {
        g
    } else {
        match record_index(g.records, f.tool, f.hash, f.kind) {
            Some(i) => {
                let r = g.records[i];
                let counted = if r.tripped {
                    RecordView {
                        last_error_message: kept_message(r.last_error_message, f.text),
                        ..r
                    }
                } else {
                    RecordView {
                        count: r.count + 1,
                        last_error_message: kept_message(r.last_error_message, f.text),
                        tripped: f.kind != ToolFailureErrorKind::Precondition && r.count + 1
                            >= g.threshold,
                        ..r
                    }
                };
                GuardView { records: g.records.update(i, counted), ..g }
            },
            None => {
                let kept = if g.records.len() >= g.max_keys {
                    g.records.remove(least_counted(g.records))
                } else {
                    g.records
                };
                GuardView {
                    records: kept.push(
                        RecordView {
                            tool_name: f.tool,
                            args_hash: f.hash,
                            error_kind: f.kind,
                            error_code: f.code,
                            count: 1,
                            last_error_message: f.text,
                            tripped: false,
                        },
                    ),
                    ..g
                }
            },
        }
    }
}

/// What the guard makes of a failure.
pub open spec fn decision_on(g: GuardView, f: Failure) -> DecisionView {
    let signature = SignatureView {
        tool_name: f.tool,
        args_hash: f.hash,
        error_kind: f.kind,
        error_code: f.code,
    };
    if !g.enabled {
        DecisionView {
            tripped: false,
            count: 0,
            error_kind: f.kind,
            signature,
            requires_escalation: false,
            just_tripped: false,
        }
    } else {
        let before = match record_index(g.records, f.tool, f.hash, f.kind) {
            Some(i) => g.records[i].tripped,
            None => false,
        };
        let count = if before {
            g.count_of(f.tool, f.hash, f.kind)
        } else {
            g.count_of(f.tool, f.hash, f.kind) + 1
        };
        let tripped = before || (f.kind != ToolFailureErrorKind::Precondition && count
            >= g.threshold);
        DecisionView {
            tripped,
            count,
            error_kind: f.kind,
            signature,
            requires_escalation: state_error(f.kind),
            just_tripped: tripped && !before,
        }
    }
}

/// The records that are not about the call of this tool with these arguments.
pub open spec fn without_call(
    records: Seq<RecordView>,
    tool: Seq<char>,
    hash: Seq<char>,
) -> Seq<RecordView> {
    records.filter(|r: RecordView| !(r.tool_name == tool && r.args_hash == hash))
}

/// How many records have tripped.
pub open spec fn tripped_count(records: Seq<RecordView>) -> nat
    decreases records.len(),
{
    if records.len() == 0 {
        0
    } else if records.last().tripped {
        tripped_count(records.drop_last()) + 1
    } else {
        tripped_count(records.drop_last())
    }
}

impl Default for ToolFailureLoopGuard {
    /// A guard that is off.
    fn default() -> (g: Self)
        ensures
            g.wf(),
            g@ == (GuardView { enabled: false, threshold: 0, max_keys: 0, records: Seq::empty() }),
    {
        let g = ToolFailureLoopGuard {
            enabled: false,
            threshold: 0,
            max_keys: 0,
            records: Vec::new(),
        };
        assert(g@.records =~= Seq::<RecordView>::empty());
        g
    }
}

impl ToolFailureLoopGuard {
    pub open spec fn wf(self) -> bool {
        self@.wf()
    }

    /// A guard without records. Where the options do not say whether it is on, the
    /// environment does: `env_value` is the value of the variable
    /// [`TOOL_FAILURE_LOOP_GUARD_VARIABLE`], where it is set.
    pub fn new(options: ToolFailureLoopGuardOptions, env_value: Option<&str>) -> (g: Self)
        ensures
            g.wf(),
            g@ == (GuardView {
                enabled: switched_on(options.enabled, opt_str(env_value)),
                threshold: if options.threshold < 2 {
                    2
                } else {
                    options.threshold as nat
                },
                max_keys: if options.max_keys < 16 {
                    16
                } else {
                    options.max_keys as nat
                },
                records: Seq::empty(),
            }),
    {
        let g = ToolFailureLoopGuard {
            enabled: guard_enabled(options.enabled, env_value),
            threshold: if options.threshold < 2 {
                2
            } else {
                options.threshold
            },
            max_keys: if options.max_keys < 16 {
                16
            } else {
                options.max_keys
            },
            records: Vec::new(),
        };
        assert(g@.records =~= Seq::<RecordView>::empty());
        g
    }

    pub fn is_enabled(&self) -> (b: bool)
        ensures
            b == self@.enabled,
    {
        self.enabled
    }

    pub fn threshold(&self) -> (n: usize)
        ensures
            n == self@.threshold,
    {
        self.threshold
    }

    /// Whether a failure of this call can be recorded.
    pub fn can_record(&self, tool_name: &str, args_hash: &str, error_text: &str) -> (b: bool)
        requires
            self.wf(),
        ensures
            b == self@.can_record(tool_name@, args_hash@, failure_kind(error_text@)),
    {
        let error_kind = classify_tool_failure(error_text);
        let ghost views = self@.records;
        proof {
            lemma_record_index(views, tool_name@, args_hash@, error_kind);
        }
        match self.position(tool_name, args_hash, error_kind) {
            Some(i) => {
                proof {
                    assert forall|j: int| 0 <= j < views.len() && j != i implies !is_about(
                        #[trigger] views[j],
                        tool_name@,
                        args_hash@,
                        error_kind,
                    ) by {
                        if is_about(views[j], tool_name@, args_hash@, error_kind) {
                            let (x, y) = if j < i {
                                (j, i as int)
                            } else {
                                (i as int, j)
                            };
                            assert(!is_about(
                                views[y],
                                views[x].tool_name,
                                views[x].args_hash,
                                views[x].error_kind,
                            ));
                        }
                    }
                    assert(views[i as int] == self.records@[i as int]@);
                }
                !self.enabled || self.records[i].tripped || self.records[i].count < usize::MAX
            },
            None => true,
        }
    }

    /// [`ToolFailureLoopGuard::record`], unless the count of this failure has reached the
    /// largest number: then nothing is recorded.
    pub fn try_record(
        &mut self,
        tool_name: &str,
        args: &Json,
        error_code: &str,
        error_text: &str,
    ) -> (d: Option<LoopGuardDecision>)
        requires
            old(self).wf(),
        ensures
            final(self).wf(),
            ({
                let f = Failure {
                    tool: tool_name@,
                    hash: args_fingerprint(args@),
                    kind: failure_kind(error_text@),
                    code: error_code@,
                    text: error_text@,
                };
                if old(self)@.can_record(f.tool, f.hash, f.kind) {
                    &&& final(self)@ == recorded(old(self)@, f)
                    &&& d is Some
                    &&& d->0@ == decision_on(old(self)@, f)
                } else {
                    final(self)@ == old(self)@ && d is None
                }
            }),
    {
        let hash = failure_args_fingerprint(args);
        if self.can_record(tool_name, hash.as_str(), error_text) {
            Some(self.record(tool_name, args, error_code, error_text))
        } else {
            None
        }
    }

    /// Records a failed call and says what to make of it. Once a failure has
    /// tripped the guard, the caller reports that in place of the failure.
    pub fn record(&mut self, tool_name: &str, args: &Json, error_code: &str, error_text: &str) -> (d:
        LoopGuardDecision)
        requires
            old(self).wf(),
            old(self)@.can_record(
                tool_name@,
                args_fingerprint(args@),
                failure_kind(error_text@),
            ),
        ensures
            final(self).wf(),
            ({
                let f = Failure {
                    tool: tool_name@,
                    hash: args_fingerprint(args@),
                    kind: failure_kind(error_text@),
                    code: error_code@,
                    text: error_text@,
                };
                &&& final(self)@ == recorded(old(self)@, f)
                &&& d@ == decision_on(old(self)@, f)
            }),
    {
        let hash = failure_args_fingerprint(args);
        self.record_hashed(tool_name, hash.as_str(), error_code, error_text)
    }

    /// [`ToolFailureLoopGuard::record`] for a call whose arguments have this
    /// fingerprint.
    pub fn record_hashed(
        &mut self,
        tool_name: &str,
        args_hash: &str,
        error_code: &str,
        error_text: &str,
    ) -> (d: LoopGuardDecision)
        requires
            old(self).wf(),
            old(self)@.can_record(tool_name@, args_hash@, failure_kind(error_text@)),
        ensures
            final(self).wf(),
            ({
                let f = Failure {
                    tool: tool_name@,
                    hash: args_hash@,
                    kind: failure_kind(error_text@),
                    code: error_code@,
                    text: error_text@,
                };
                &&& final(self)@ == recorded(old(self)@, f)
                &&& d@ == decision_on(old(self)@, f)
            }),
    {
        let error_kind = classify_tool_failure(error_text);
        let ghost f = Failure {
            tool: tool_name@,
            hash: args_hash@,
            kind: error_kind,
            code: error_code@,
            text: error_text@,
        };
        let ghost before = self@;
        let signature = ToolFailureSignature {
            tool_name: tool_name.to_owned(),
            args_hash: args_hash.to_owned(),
            error_kind,
            error_code: error_code.to_owned(),
        };
        if !self.enabled {
            return LoopGuardDecision {
                tripped: false,
                count: 0,
                error_kind,
                signature,
                requires_escalation: false,
                just_tripped: false,
            };
        }
        proof {
            lemma_record_index(before.records, f.tool, f.hash, f.kind);
        }
        match self.position(tool_name, args_hash, error_kind) {
            Some(i) => {
                let ghost here = self.records@;
                let mut record = self.records[i].clone();
                if !error_text.is_empty() {
                    record.last_error_message = error_text.to_owned();
                }
                assert(record.last_error_message@ == kept_message(
                    before.records[i as int].last_error_message,
                    f.text,
                ));
                let was_tripped = record.tripped;
                if !was_tripped {
                    assert(before.records[i as int].count < usize::MAX);
                    record.count = record.count + 1;
                    record.tripped = !error_kind.is_non_tripping() && record.count
                        >= self.threshold;
                }
                let tripped = record.tripped;
                let count: usize = record.count;
                let ghost view = record@;
                self.records[i] = record;
                proof {
                    assert(self@.records =~= before.records.update(i as int, view));
                    assert(self@ == recorded(before, f));
                    lemma_recorded_wf(before, f);
                }
                LoopGuardDecision {
                    tripped,
                    count,
                    error_kind,
                    signature,
                    requires_escalation: error_kind.is_state_error(),
                    just_tripped: tripped && !was_tripped,
                }
            },
            None => {
                if self.records.len() >= self.max_keys {
                    self.evict_oldest();
                }
                let ghost kept = self@.records;
                let record = ToolFailureRecord {
                    tool_name: tool_name.to_owned(),
                    args_hash: args_hash.to_owned(),
                    error_kind,
                    error_code: error_code.to_owned(),
                    count: 1,
                    last_error_message: error_text.to_owned(),
                    tripped: false,
                };
                let ghost view = record@;
                self.records.push(record);
                proof {
                    assert(self@.records =~= kept.push(view));
                    assert(self@ == recorded(before, f));
                    lemma_recorded_wf(before, f);
                }
                LoopGuardDecision {
                    tripped: false,
                    count: 1,
                    error_kind,
                    signature,
                    requires_escalation: error_kind.is_state_error(),
                    just_tripped: false,
                }
            },
        }
    }

    fn position(&self, tool_name: &str, args_hash: &str, kind: ToolFailureErrorKind) -> (r: Option<
        usize,
    >)
        ensures
            match r {
                Some(i) => i < self.records@.len() && record_index(
                    self@.records,
                    tool_name@,
                    args_hash@,
                    kind,
                ) == Some(i as int),
                None => record_index(self@.records, tool_name@, args_hash@, kind) is None,
            },
    {
        let ghost views = self@.records;
        let mut n: usize = self.records.len();
        assert(views.take(n as int) =~= views);
        while n > 0
            invariant
                n <= self.records@.len(),
                views == record_views(self.records@),
                record_index(views, tool_name@, args_hash@, kind) == record_index(
                    views.take(n as int),
                    tool_name@,
                    args_hash@,
                    kind,
                ),
            decreases n,
        {
            let r = &self.records[n - 1];
            if same_text(r.tool_name.as_str(), tool_name) && same_text(
                r.args_hash.as_str(),
                args_hash,
            ) && r.error_kind == kind {
                return Some(n - 1);
            }
            assert(views.take(n as int).drop_last() =~= views.take(n - 1));
            n -= 1;
        }
        None
    }

    /// Forgets all failures of the call of this tool with these arguments, of
    /// whatever kind: it has succeeded.
    pub fn clear_on_success(&mut self, tool_name: &str, args: &Json)
        requires
            old(self).wf(),
        ensures
            final(self).wf(),
            final(self)@ == (GuardView {
                records: without_call(old(self)@.records, tool_name@, args_fingerprint(args@)),
                ..old(self)@
            }),
    {
        let hash = failure_args_fingerprint(args);
        self.clear_hashed(tool_name, hash.as_str());
    }

    /// [`ToolFailureLoopGuard::clear_on_success`] for a call whose arguments have
    /// this fingerprint.
    pub fn clear_hashed(&mut self, tool_name: &str, args_hash: &str)
        requires
            old(self).wf(),
        ensures
            final(self).wf(),
            final(self)@ == (GuardView {
                records: without_call(old(self)@.records, tool_name@, args_hash@),
                ..old(self)@
            }),
    {
        let ghost before = self@;
        let ghost keep = |r: RecordView| !(r.tool_name == tool_name@ && r.args_hash == args_hash@);
        let mut kept: Vec<ToolFailureRecord> = Vec::new();
        let mut i: usize = 0;
        let ghost views = record_views(self.records@);
        proof {
            assert(views.take(0).filter(keep) =~= Seq::<RecordView>::empty()) by {
                reveal(Seq::filter);
                assert(views.take(0) =~= Seq::<RecordView>::empty());
            }
        }
        while i < self.records.len()
            invariant
                i <= self.records@.len(),
                views == record_views(self.records@),
                *self == *old(self),
                keep == (|r: RecordView| !(r.tool_name == tool_name@ && r.args_hash == args_hash@)),
                record_views(kept@) == views.take(i as int).filter(keep),
            decreases self.records@.len() - i,
        {
            let r = &self.records[i];
            let ghost before_kept = record_views(kept@);
            proof {
                assert(views.take(i + 1) =~= views.take(i as int).push(views[i as int]));
                reveal(Seq::filter);
                assert(views.take(i + 1).drop_last() =~= views.take(i as int));
            }
            if !(same_text(r.tool_name.as_str(), tool_name) && same_text(
                r.args_hash.as_str(),
                args_hash,
            )) {
                kept.push(r.clone());
                assert(record_views(kept@) =~= before_kept.push(views[i as int]));
            }
            i += 1;
        }
        assert(views.take(i as int) =~= views);
        self.records = kept;
        proof {
            lemma_filtered_wf(before, tool_name@, args_hash@);
        }
    }

    /// Forgets everything.
    pub fn reset_session(&mut self)
        requires
            old(self).wf(),
        ensures
            final(self).wf(),
            final(self)@ == (GuardView { records: Seq::empty(), ..old(self)@ }),
    {
        self.records = Vec::new();
        assert(self@.records =~= Seq::<RecordView>::empty());
    }

    /// How many records have tripped.
    pub fn count_tripped(&self) -> (n: usize)
        ensures
            n == tripped_count(self@.records),
    {
        let ghost views = self@.records;
        let mut n: usize = 0;
        let mut i: usize = 0;
        assert(views.take(0) =~= Seq::<RecordView>::empty());
        while i < self.records.len()
            invariant
                i <= self.records@.len(),
                views == record_views(self.records@),
                n <= i,
                n == tripped_count(views.take(i as int)),
            decreases self.records@.len() - i,
        {
            assert(views.take(i + 1).drop_last() =~= views.take(i as int));
            if self.records[i].tripped {
                n += 1;
            }
            i += 1;
        }
        assert(views.take(i as int) =~= views);
        n
    }

    /// All records.
    pub fn snapshot(&self) -> (r: Vec<ToolFailureRecord>)
        ensures
            record_views(r@) == self@.records,
    {
        let mut r: Vec<ToolFailureRecord> = Vec::new();
        let mut i: usize = 0;
        while i < self.records.len()
            invariant
                i <= self.records@.len(),
                r@.len() == i,
                forall|j: int| 0 <= j < i ==> #[trigger] r@[j]@ == self.records@[j]@,
            decreases self.records@.len() - i,
        {
            r.push(self.records[i].clone());
            i += 1;
        }
        assert(record_views(r@) =~= self@.records);
        r
    }

    /// Makes room: the record with the smallest count leaves, the oldest of several.
    fn evict_oldest(&mut self)
        requires
            old(self)@.records.len() > 0,
        ensures
            final(self)@ == (GuardView {
                records: old(self)@.records.remove(least_counted(old(self)@.records)),
                ..old(self)@
            }),
    {
        let ghost before = self@;
        let ghost views = self@.records;
        let mut least: usize = 0;
        let mut i: usize = 1;
        while i < self.records.len()
            invariant
                1 <= i <= self.records@.len(),
                views == record_views(self.records@),
                *self == *old(self),
                least < i,
                least == least_counted(views.take(i as int)),
            decreases self.records@.len() - i,
        {
            assert(views.take(i + 1).drop_last() =~= views.take(i as int));
            assert(views.take(i as int)[least as int] == views[least as int]);
            if self.records[i].count < self.records[least].count {
                least = i;
            }
            i += 1;
        }
        assert(views.take(i as int) =~= views);
        let _ = self.records.remove(least);
        assert(self@.records =~= views.remove(least as int));
    }
}

proof fn lemma_recorded_wf(g: GuardView, f: Failure)
    requires
        g.wf(),
    ensures
        recorded(g, f).wf(),
{
    let h = recorded(g, f);
    lemma_record_index(g.records, f.tool, f.hash, f.kind);
    if g.enabled {
        match record_index(g.records, f.tool, f.hash, f.kind) {
            Some(i) => {
                assert forall|a: int, b: int| 0 <= a < b < h.records.len() implies !is_about(
                    #[trigger] h.records[b],
                    (#[trigger] h.records[a]).tool_name,
                    h.records[a].args_hash,
                    h.records[a].error_kind,
                ) by {
                    assert(!is_about(
                        g.records[b],
                        g.records[a].tool_name,
                        g.records[a].args_hash,
                        g.records[a].error_kind,
                    ));
                }
            },
            None => {
                let kept = h.records.drop_last();
                if g.records.len() >= g.max_keys {
                    lemma_least_counted(g.records);
                    let k = least_counted(g.records);
                    assert(kept =~= g.records.remove(k));
                    assert forall|j: int| 0 <= j < kept.len() implies (#[trigger] kept[j])
                        == g.records[if j < k {
                        j
                    } else {
                        j + 1
                    }] by {}
                    lemma_removed_wf(g, k);
                } else {
                    assert(kept =~= g.records);
                }
                assert forall|a: int, b: int| 0 <= a < b < h.records.len() implies !is_about(
                    #[trigger] h.records[b],
                    (#[trigger] h.records[a]).tool_name,
                    h.records[a].args_hash,
                    h.records[a].error_kind,
                ) by {
                    assert(kept[a] == h.records[a]);
                    if b < kept.len() {
                        assert(kept[b] == h.records[b]);
                    } else {
                        if g.records.len() >= g.max_keys {
                            let k = least_counted(g.records);
                            let o = if a < k {
                                a
                            } else {
                                a + 1
                            };
                            assert(kept[a] == g.records[o]);
                            assert(!is_about(g.records[o], f.tool, f.hash, f.kind));
                        } else {
                            assert(!is_about(g.records[a], f.tool, f.hash, f.kind));
                        }
                    }
                }
                assert forall|i: int| 0 <= i < h.records.len() implies (
                #[trigger] h.records[i]).count >= 1 && h.records[i].tripped == (
                h.records[i].error_kind != ToolFailureErrorKind::Precondition && h.records[i].count
                    >= h.threshold) by {
                    if i < kept.len() {
                        assert(kept[i] == h.records[i]);
                    }
                }
            },
        }
    }
}

proof fn lemma_removed_wf(g: GuardView, k: int)
    requires
        g.wf(),
        0 <= k < g.records.len(),
    ensures
        (GuardView { records: g.records.remove(k), ..g }).wf(),
{
    let kept = g.records.remove(k);
    assert forall|a: int, b: int| 0 <= a < b < kept.len() implies !is_about(
        #[trigger] kept[b],
        (#[trigger] kept[a]).tool_name,
        kept[a].args_hash,
        kept[a].error_kind,
    ) by {
        let x = if a < k {
            a
        } else {
            a + 1
        };
        let y = if b < k {
            b
        } else {
            b + 1
        };
        assert(kept[a] == g.records[x] && kept[b] == g.records[y]);
    }
    assert forall|i: int| 0 <= i < kept.len() implies (#[trigger] kept[i]).count >= 1
        && kept[i].tripped == (kept[i].error_kind != ToolFailureErrorKind::Precondition
        && kept[i].count >= g.threshold) by {
        assert(kept[i] == g.records[if i < k {
            i
        } else {
            i + 1
        }]);
    }
}

proof fn lemma_filtered_wf(g: GuardView, tool: Seq<char>, hash: Seq<char>)
    requires
        g.wf(),
    ensures
        (GuardView { records: without_call(g.records, tool, hash), ..g }).wf(),
    decreases g.records.len(),
{
    reveal(Seq::filter);
    let keep = |r: RecordView| !(r.tool_name == tool && r.args_hash == hash);
    let n = g.records.len() as int;
    if n > 0 {
        let front = GuardView { records: g.records.drop_last(), ..g };
        assert(g.records.drop_last() =~= g.records.remove(n - 1));
        lemma_removed_wf(g, n - 1);
        lemma_filtered_wf(front, tool, hash);
        let f = without_call(front.records, tool, hash);
        let all = without_call(g.records, tool, hash);
        if keep(g.records.last()) {
            assert(all == f.push(g.records.last()));
            assert forall|a: int| 0 <= a < f.len() implies !is_about(
                g.records.last(),
                (#[trigger] f[a]).tool_name,
                f[a].args_hash,
                f[a].error_kind,
            ) by {
                front.records.lemma_filter_contains_rev(keep, f[a]);
                let j = choose|j: int| 0 <= j < front.records.len() && front.records[j] == f[a];
                assert(g.records[j] == f[a]);
                assert(g.records[n - 1] == g.records.last());
            }
            assert forall|a: int, b: int| 0 <= a < b < all.len() implies !is_about(
                #[trigger] all[b],
                (#[trigger] all[a]).tool_name,
                all[a].args_hash,
                all[a].error_kind,
            ) by {
                assert(all[a] == f[a]);
                if b < f.len() {
                    assert(all[b] == f[b]);
                }
            }
            assert forall|i: int| 0 <= i < all.len() implies (#[trigger] all[i]).count >= 1
                && all[i].tripped == (all[i].error_kind != ToolFailureErrorKind::Precondition
                && all[i].count >= g.threshold) by {
                if i < f.len() {
                    assert(all[i] == f[i]);
                } else {
                    assert(all[i] == g.records[n - 1]);
                }
            }
        } else {
            assert(all == f);
        }
        assert(all.len() <= n) by {
            g.records.lemma_filter_len(keep);
        }
    }
}

/// The guard after the same failure came `n` times.
pub open spec fn recorded_times(g: GuardView, f: Failure, n: nat) -> GuardView
    decreases n,
{
    if n == 0 {
        g
    } else {
        recorded(recorded_times(g, f, (n - 1) as nat), f)
    }
}

proof fn lemma_recorded_finds(g: GuardView, f: Failure)
    requires
        g.wf(),
        g.enabled,
    ensures
        record_index(recorded(g, f).records, f.tool, f.hash, f.kind) is Some,
        recorded(g, f).count_of(f.tool, f.hash, f.kind) == decision_on(g, f).count,
        ({
            let h = recorded(g, f);
            h.records[record_index(h.records, f.tool, f.hash, f.kind)->0].tripped == decision_on(
                g,
                f,
            ).tripped
        }),
{
    let h = recorded(g, f);
    lemma_record_index(g.records, f.tool, f.hash, f.kind);
    lemma_record_index(h.records, f.tool, f.hash, f.kind);
    lemma_recorded_wf(g, f);
    let k = match record_index(g.records, f.tool, f.hash, f.kind) {
        Some(i) => i,
        None => h.records.len() - 1,
    };
    assert(is_about(h.records[k], f.tool, f.hash, f.kind));
    let m = record_index(h.records, f.tool, f.hash, f.kind)->0;
    if m < k {
        assert(!is_about(
            h.records[k],
            h.records[m].tool_name,
            h.records[m].args_hash,
            h.records[m].error_kind,
        ));
    }
    if k < m {
        assert(!is_about(
            h.records[m],
            h.records[k].tool_name,
            h.records[k].args_hash,
            h.records[k].error_kind,
        ));
    }
}

/// A failure that keeps coming trips the guard when it comes for the time that the
/// threshold names, not earlier; the guard says so once, and stays tripped
/// without counting on. A failure that names its next step never trips it.
pub proof fn law_guard_trips_at_the_threshold(g: GuardView, f: Failure, n: nat)
    requires
        g.wf(),
        g.enabled,
        g.count_of(f.tool, f.hash, f.kind) == 0,
    ensures
        recorded_times(g, f, n).wf(),
        ({
            let d = decision_on(recorded_times(g, f, n), f);
            if f.kind == ToolFailureErrorKind::Precondition {
                d.count == n + 1 && !d.tripped && !d.just_tripped
            } else {
                &&& d.count == if n + 1 <= g.threshold {
                    n + 1
                } else {
                    g.threshold
                }
                &&& d.tripped == (n + 1 >= g.threshold)
                &&& d.just_tripped == (n + 1 == g.threshold)
            }
        }),
    decreases n,
{
    lemma_record_index(g.records, f.tool, f.hash, f.kind);
    if n > 0 {
        let m = (n - 1) as nat;
        law_guard_trips_at_the_threshold(g, f, m);
        let h = recorded_times(g, f, m);
        lemma_recorded_times_settings(g, f, m);
        lemma_recorded_finds(h, f);
        lemma_recorded_wf(h, f);
    }
}

proof fn lemma_recorded_times_settings(g: GuardView, f: Failure, n: nat)
    ensures
        recorded_times(g, f, n).enabled == g.enabled,
        recorded_times(g, f, n).threshold == g.threshold,
    decreases n,
{
    if n > 0 {
        lemma_recorded_times_settings(g, f, (n - 1) as nat);
    }
}

/// Failures of other calls or of another kind are counted apart, as long as the
/// guard need not make room.
pub proof fn law_other_failures_keep_their_count(g: GuardView, f: Failure, other: Failure)
    requires
        g.wf(),
        g.records.len() < g.max_keys || g.count_of(f.tool, f.hash, f.kind) > 0,
        f.tool != other.tool || f.hash != other.hash || f.kind != other.kind,
    ensures
        recorded(g, f).count_of(other.tool, other.hash, other.kind) == g.count_of(
            other.tool,
            other.hash,
            other.kind,
        ),
{
    let h = recorded(g, f);
    lemma_recorded_wf(g, f);
    lemma_record_index(g.records, f.tool, f.hash, f.kind);
    lemma_record_index(g.records, other.tool, other.hash, other.kind);
    lemma_record_index(h.records, other.tool, other.hash, other.kind);
    match (
        record_index(g.records, other.tool, other.hash, other.kind),
        record_index(h.records, other.tool, other.hash, other.kind),
    ) {
        (Some(a), Some(b)) => {
            assert(is_about(h.records[a], other.tool, other.hash, other.kind));
            if a < b {
                assert(!is_about(
                    h.records[b],
                    h.records[a].tool_name,
                    h.records[a].args_hash,
                    h.records[a].error_kind,
                ));
            }
            if b < a {
                assert(!is_about(
                    h.records[a],
                    h.records[b].tool_name,
                    h.records[b].args_hash,
                    h.records[b].error_kind,
                ));
            }
        },
        (Some(a), None) => {
            assert(is_about(h.records[a], other.tool, other.hash, other.kind));
        },
        (None, Some(b)) => {
            if b < g.records.len() {
                assert(is_about(g.records[b], other.tool, other.hash, other.kind));
            }
        },
        (None, None) => {},
    }
}

/// After a success nothing is remembered against the call, whatever kind of failure
/// it had, and nothing else is forgotten.
pub proof fn law_success_forgets_the_call_alone(
    records: Seq<RecordView>,
    tool: Seq<char>,
    hash: Seq<char>,
    r: RecordView,
)
    ensures
        without_call(records, tool, hash).contains(r) <==> records.contains(r) && !(r.tool_name
            == tool && r.args_hash == hash),
{
    let keep = |r: RecordView| !(r.tool_name == tool && r.args_hash == hash);
    let kept = without_call(records, tool, hash);
    if kept.contains(r) {
        records.lemma_filter_contains_rev(keep, r);
        let i = choose|i: int| 0 <= i < kept.len() && kept[i] == r;
        records.lemma_filter_pred(keep, i);
    }
    if records.contains(r) && keep(r) {
        let i = choose|i: int| 0 <= i < records.len() && records[i] == r;
        records.lemma_filter_contains(keep, i);
    }
}

/// After a success the next failure of the call can be recorded, is the first one that
/// counts, and does not trip the guard.
pub proof fn law_counting_begins_anew_after_a_success(g: GuardView, f: Failure)
    requires
        g.wf(),
        g.enabled,
    ensures
        ({
            let cleared = GuardView { records: without_call(g.records, f.tool, f.hash), ..g };
            &&& cleared.can_record(f.tool, f.hash, f.kind)
            &&& decision_on(cleared, f).count == 1
            &&& !decision_on(cleared, f).tripped
        }),
{
    let kept = without_call(g.records, f.tool, f.hash);
    assert forall|i: int| 0 <= i < kept.len() implies !is_about(
        #[trigger] kept[i],
        f.tool,
        f.hash,
        f.kind,
    ) by {
        law_success_forgets_the_call_alone(g.records, f.tool, f.hash, kept[i]);
        assert(kept.contains(kept[i]));
    }
    lemma_record_index(kept, f.tool, f.hash, f.kind);
}

/// The lines that tell a model that its call keeps failing.
pub open spec fn failure_loop_lines(tool: Seq<char>, d: DecisionView) -> Seq<Seq<char>> {
    let first = "TOOL_FAILURE_LOOP_TRIPPED: tool \""@ + tool + "\" failed "@ + decimal(d.count)
        + " times in a row with the same args + error kind ("@ + kind_name(d.error_kind)
        + "); the failure loop guard has tripped."@;
    if d.requires_escalation {
        seq![
            first,
            "This is a state-class error (permission / mode / write_scope / sandbox / network / schema) \u{2014} retrying will not change the outcome."@,
            "Next step: escalate to the leader / request a permission update; do not re-issue the same call."@,
        ]
    } else {
        seq![
            first,
            "This is not a state-class error, but the guard threshold was reached \u{2014} do not keep burning rounds on this tripped key."@,
            "Next step: adjust the arguments and retry, or escalate to the leader."@,
        ]
    }
}

/// The machine-readable part of that message.
pub open spec fn failure_loop_payload_view(message: Seq<char>, d: DecisionView) -> JsonView {
    JsonView::Object(
        seq![
            ("code"@, JsonView::String("TOOL_FAILURE_LOOP_TRIPPED"@)),
            (
                "failure_loop"@,
                JsonView::Object(
                    seq![
                        ("argsHash"@, JsonView::String(d.signature.args_hash)),
                        ("count"@, JsonView::Number(JsonNumber::Unsigned(d.count as u64))),
                        ("errorCode"@, JsonView::String(d.signature.error_code)),
                        ("errorKind"@, JsonView::String(kind_name(d.error_kind))),
                        ("requiresEscalation"@, JsonView::Bool(d.requires_escalation)),
                        ("toolName"@, JsonView::String(d.signature.tool_name)),
                    ],
                ),
            ),
            (
                "fix"@,
                JsonView::String(
                    "Do not retry the same toolName+args+errorKind combination. Escalate to leader or change strategy."@,
                ),
            ),
            ("message"@, JsonView::String(message)),
            ("retryable"@, JsonView::Bool(false)),
        ],
    )
}

fn failure_loop_line_list(tool_name: &str, decision: &LoopGuardDecision) -> (r: Vec<String>)
    ensures
        texts(r@) == failure_loop_lines(tool_name@, decision@),
{
    let mut first = "TOOL_FAILURE_LOOP_TRIPPED: tool \"".to_owned();
    first.append(tool_name);
    first.append("\" failed ");
    let count = decimal_string(decision.count as u64);
    first.append(count.as_str());
    first.append(" times in a row with the same args + error kind (");
    first.append(decision.error_kind.as_str());
    first.append("); the failure loop guard has tripped.");
    let mut r: Vec<String> = Vec::new();
    r.push(first);
    if decision.requires_escalation {
        r.push(
            "This is a state-class error (permission / mode / write_scope / sandbox / network / schema) \u{2014} retrying will not change the outcome.".to_owned(),
        );
        r.push(
            "Next step: escalate to the leader / request a permission update; do not re-issue the same call.".to_owned(),
        );
    } else {
        r.push(
            "This is not a state-class error, but the guard threshold was reached \u{2014} do not keep burning rounds on this tripped key.".to_owned(),
        );
        r.push("Next step: adjust the arguments and retry, or escalate to the leader.".to_owned());
    }
    assert(texts(r@) =~= failure_loop_lines(tool_name@, decision@));
    r
}

/// The machine-readable part of the message about a failure loop.
pub fn failure_loop_payload(message: &str, decision: &LoopGuardDecision) -> (r: Json)
    ensures
        r@ == failure_loop_payload_view(message@, decision@),
{
    let details = Json::object().with(
        "argsHash",
        Json::text(decision.signature.args_hash.as_str()),
    ).with("count", Json::number(decision.count as u64)).with(
        "errorCode",
        Json::text(decision.signature.error_code.as_str()),
    ).with("errorKind", Json::text(decision.error_kind.as_str())).with(
        "requiresEscalation",
        Json::Bool(decision.requires_escalation),
    ).with("toolName", Json::text(decision.signature.tool_name.as_str()));
    let r = Json::object().with("code", Json::text("TOOL_FAILURE_LOOP_TRIPPED")).with(
        "failure_loop",
        details,
    ).with(
        "fix",
        Json::text(
            "Do not retry the same toolName+args+errorKind combination. Escalate to leader or change strategy.",
        ),
    ).with("message", Json::text(message)).with("retryable", Json::Bool(false));
    proof {
        let v = failure_loop_payload_view(message@, decision@);
        assert(details@->Object_0 =~= v->Object_0[1].1->Object_0);
        assert(r@->Object_0 =~= v->Object_0);
    }
    r
}

/// What a model is told in place of a failure that has tripped the guard.
pub open spec fn failure_loop_error(tool: Seq<char>, d: DecisionView) -> Seq<char> {
    let lines = failure_loop_lines(tool, d);
    joined(lines, "\n"@) + "\n\nLLM_RECOVERY="@ + json_written(
        failure_loop_payload_view(joined(lines, " "@), d),
    )
}

pub fn format_tool_failure_loop_error(tool_name: &str, decision: &LoopGuardDecision) -> (s: String)
    ensures
        s@ == failure_loop_error(tool_name@, decision@),
{
    let lines = failure_loop_line_list(tool_name, decision);
    let mut s = join_strings(&lines, "\n");
    let message = join_strings(&lines, " ");
    let payload = failure_loop_payload(message.as_str(), decision);
    s.append("\n\nLLM_RECOVERY=");
    let text = json_to_string(&payload);
    s.append(text.as_str());
    s
}

/// A decision of a guard says what failed: the tool, the fingerprint of its arguments, the
/// kind and the code of the failure; and whether the state of the session causes it. A
/// guard that is off counts nothing and never trips.
pub proof fn law_a_decision_says_what_failed(g: GuardView, f: Failure)
    ensures
        ({
            let d = decision_on(g, f);
            &&& d.signature.tool_name == f.tool
            &&& d.signature.args_hash == f.hash
            &&& d.signature.error_kind == f.kind
            &&& d.signature.error_code == f.code
            &&& d.error_kind == f.kind
            &&& g.enabled ==> d.requires_escalation == state_error(f.kind)
            &&& d.just_tripped ==> d.tripped
            &&& !g.enabled ==> !d.tripped && d.count == 0 && !d.requires_escalation && recorded(
                g,
                f,
            ) == g
        }),
{
}

/// A failure that is recorded is there then, with its tool, arguments and kind and with its
/// message, where it has one; the settings of the guard stay.
pub proof fn law_a_recorded_failure_is_there(g: GuardView, f: Failure)
    requires
        g.wf(),
        g.enabled,
    ensures
        ({
            let h = recorded(g, f);
            &&& h.enabled && h.threshold == g.threshold && h.max_keys == g.max_keys
            &&& h.count_of(f.tool, f.hash, f.kind) == decision_on(g, f).count
            &&& exists|i: int|
                #![trigger h.records[i]]
                0 <= i < h.records.len() && h.records[i].tool_name == f.tool
                    && h.records[i].args_hash == f.hash && h.records[i].error_kind == f.kind && (
                f.text.len() > 0 ==> h.records[i].last_error_message == f.text)
                    && h.records[i].tripped == decision_on(g, f).tripped
        }),
{
    let h = recorded(g, f);
    lemma_recorded_finds(g, f);
    lemma_record_index(h.records, f.tool, f.hash, f.kind);
    lemma_record_index(g.records, f.tool, f.hash, f.kind);
    lemma_recorded_wf(g, f);
    let m = record_index(h.records, f.tool, f.hash, f.kind)->0;
    let k = match record_index(g.records, f.tool, f.hash, f.kind) {
        Some(i) => i,
        None => h.records.len() - 1,
    };
    assert(is_about(h.records[k], f.tool, f.hash, f.kind));
    if m < k {
        assert(!is_about(
            h.records[k],
            h.records[m].tool_name,
            h.records[m].args_hash,
            h.records[m].error_kind,
        ));
    }
    if k < m {
        assert(!is_about(
            h.records[m],
            h.records[k].tool_name,
            h.records[k].args_hash,
            h.records[k].error_kind,
        ));
    }
}

/// Where a new failure needs room, one record leaves, none of the others has a smaller
/// count, and all the others stay.
pub proof fn law_the_least_counted_record_leaves(g: GuardView, f: Failure, r: RecordView)
    requires
        g.wf(),
        g.enabled,
        g.count_of(f.tool, f.hash, f.kind) == 0,
        g.records.contains(r),
    ensures
        recorded(g, f).records.contains(r) || (g.records.len() >= g.max_keys && forall|i: int|
            0 <= i < g.records.len() ==> r.count <= (#[trigger] g.records[i]).count),
        recorded(g, f).records.len() <= g.max_keys,
{
    let h = recorded(g, f);
    lemma_recorded_wf(g, f);
    lemma_record_index(g.records, f.tool, f.hash, f.kind);
    let i = choose|i: int| 0 <= i < g.records.len() && g.records[i] == r;
    if g.records.len() >= g.max_keys {
        lemma_least_counted(g.records);
        let k = least_counted(g.records);
        if i < k {
            assert(h.records[i] == r);
        } else if i > k {
            assert(h.records[i - 1] == r);
        }
    } else {
        assert(h.records[i] == r);
    }
}

/// What a model is told of a tripped guard names the tool, how often it failed and how.
pub proof fn law_the_loop_message_says_what_failed(tool: Seq<char>, d: DecisionView)
    ensures
        contains_text(failure_loop_lines(tool, d)[0], tool),
        contains_text(failure_loop_lines(tool, d)[0], decimal(d.count)),
        contains_text(failure_loop_lines(tool, d)[0], kind_name(d.error_kind)),
        contains_text(failure_loop_lines(tool, d)[0], "TOOL_FAILURE_LOOP_TRIPPED"@),
        failure_loop_lines(tool, d).len() == 3,
        contains_text(
            failure_loop_error(tool, d),
            failure_loop_lines(tool, d)[0],
        ),
{
    let a = "TOOL_FAILURE_LOOP_TRIPPED: tool \""@;
    let b = "\" failed "@;
    let c = " times in a row with the same args + error kind ("@;
    let e = "); the failure loop guard has tripped."@;
    let first = failure_loop_lines(tool, d)[0];
    let n = decimal(d.count);
    let k = kind_name(d.error_kind);
    lemma_contains_middle(a, tool, b + n + c + k + e);
    assert(a + tool + (b + n + c + k + e) =~= first);
    lemma_contains_middle(a + tool + b, n, c + k + e);
    assert(a + tool + b + n + (c + k + e) =~= first);
    lemma_contains_middle(a + tool + b + n + c, k, e);
    reveal_strlit("TOOL_FAILURE_LOOP_TRIPPED: tool \"");
    reveal_strlit("TOOL_FAILURE_LOOP_TRIPPED");
    let head = "TOOL_FAILURE_LOOP_TRIPPED"@;
    assert(a.take(25) =~= head);
    lemma_contains_middle(Seq::empty(), head, first.skip(25));
    assert(Seq::<char>::empty() + head + first.skip(25) =~= first);
    lemma_loop_error_begins(tool, d);
}

proof fn lemma_loop_error_begins(tool: Seq<char>, d: DecisionView)
    ensures
        contains_text(failure_loop_error(tool, d), failure_loop_lines(tool, d)[0]),
{
    let lines = failure_loop_lines(tool, d);
    let all = joined(lines, "\n"@);
    lemma_joined_contains(lines, "\n"@, 0);
    let rest = "\n\nLLM_RECOVERY="@ + json_written(
        failure_loop_payload_view(joined(lines, " "@), d),
    );
    lemma_contains_middle(Seq::empty(), all, rest);
    assert(Seq::<char>::empty() + all + rest =~= failure_loop_error(tool, d));
    lemma_contains_transitive(failure_loop_error(tool, d), all, lines[0]);
}

/// The tripped records are counted one by one.
pub proof fn law_tripped_records_are_counted(records: Seq<RecordView>, r: RecordView)
    ensures
        tripped_count(Seq::empty()) == 0,
        r.tripped ==> tripped_count(records.push(r)) == tripped_count(records) + 1,
        !r.tripped ==> tripped_count(records.push(r)) == tripped_count(records),
{
    assert(records.push(r).drop_last() =~= records);
}

/// The part of the loop message that programs read says the same as the rest of it.
pub proof fn law_the_loop_payload_says_what_failed(message: Seq<char>, d: DecisionView)
    ensures
        ({
            let v = failure_loop_payload_view(message, d);
            let f = v->Object_0[1].1;
            &&& shows(v, "code"@, JsonView::String("TOOL_FAILURE_LOOP_TRIPPED"@))
            &&& shows(v, "failure_loop"@, f)
            &&& shows(v, "message"@, JsonView::String(message))
            &&& shows(v, "retryable"@, JsonView::Bool(false))
            &&& shows(f, "toolName"@, JsonView::String(d.signature.tool_name))
            &&& shows(f, "argsHash"@, JsonView::String(d.signature.args_hash))
            &&& shows(f, "errorCode"@, JsonView::String(d.signature.error_code))
            &&& shows(f, "errorKind"@, JsonView::String(kind_name(d.error_kind)))
            &&& shows(f, "count"@, JsonView::Number(JsonNumber::Unsigned(d.count as u64)))
            &&& shows(f, "requiresEscalation"@, JsonView::Bool(d.requires_escalation))
        }),
{
    let v = failure_loop_payload_view(message, d);
    let f = v->Object_0[1].1;
    lemma_shows(v, 0);
    lemma_shows(v, 1);
    lemma_shows(v, 3);
    lemma_shows(v, 4);
    lemma_shows(f, 0);
    lemma_shows(f, 1);
    lemma_shows(f, 2);
    lemma_shows(f, 3);
    lemma_shows(f, 4);
    lemma_shows(f, 5);
}

} // verus!
