//! The processes that the system owns: what a sweep over them does and reports.
use vstd::prelude::*;

use crate::json::{
    json_integer, json_opt_text, lemma_shows, shows, Json, JsonNumber, JsonView,
};
use crate::agent::tool_loop::opt_str;
use crate::output::{first_line, first_line_or};
use crate::text::{lossy_string, lossy_text, opt_text, trim_string, trimmed};

verus! {

#[derive(Debug, Clone, PartialEq, Eq)]
pub struct OwnedProcess {
    pub id: String,
    pub pid: u32,
    pub owner_kind: String,
    pub owner_id: String,
    pub label: String,
    pub status: String,
}

/// The name under which a process is noted: what kind of work it does, and for whom.
pub open spec fn process_key(kind: Seq<char>, id: Seq<char>) -> Seq<char> {
    kind + ":"@ + id
}

pub fn process_key_of(kind: &str, id: &str) -> (s: String)
    ensures
        s@ == process_key(kind@, id@),
{
    let mut s = kind.to_owned();
    s.append(":");
    s.append(id);
    s
}

/// What is noted of a process that a tool ran.
#[derive(Debug, Clone, PartialEq, Eq)]
pub enum ProcessMark {
    /// Nothing.
    Untouched,
    /// It failed, for this reason.
    Failed(String),
    /// It exited with this code.
    Completed(i32),
}

pub enum ProcessMarkView {
    Untouched,
    Failed(Seq<char>),
    Completed(i32),
}

impl View for ProcessMark {
    type V = ProcessMarkView;

    open spec fn view(&self) -> ProcessMarkView {
        match self {
            ProcessMark::Untouched => ProcessMarkView::Untouched,
            ProcessMark::Failed(s) => ProcessMarkView::Failed(s@),
            ProcessMark::Completed(code) => ProcessMarkView::Completed(*code),
        }
    }
}

/// The code of an exit; -1 for a process that a signal ended.
pub open spec fn exit_code(code: Option<i32>) -> i32 {
    match code {
        Some(code) => code,
        None => -1i32,
    }
}

pub fn exit_code_of(code: Option<i32>) -> (r: i32)
    ensures
        r == exit_code(code),
{
    match code {
        Some(code) => code,
        None => -1,
    }
}

/// What a sweep over owned processes has done.
#[derive(Debug, Clone, Copy, PartialEq, Eq, Structural)]
pub struct CleanupReport {
    pub attempted: usize,
    pub cleaned: usize,
    pub failed: usize,
}

impl Default for CleanupReport {
    fn default() -> (r: Self)
        ensures
            r == (CleanupReport { attempted: 0, cleaned: 0, failed: 0 }),
    {
        CleanupReport { attempted: 0, cleaned: 0, failed: 0 }
    }
}

/// The report after one more process was to be killed.
pub open spec fn kill_reported(r: CleanupReport, killed: bool) -> CleanupReport {
    CleanupReport {
        attempted: (r.attempted + 1) as usize,
        cleaned: if killed {
            (r.cleaned + 1) as usize
        } else {
            r.cleaned
        },
        failed: if killed {
            r.failed
        } else {
            (r.failed + 1) as usize
        },
    }
}

/// The report after one more process was looked at.
pub open spec fn look_reported(r: CleanupReport, alive: bool) -> CleanupReport {
    CleanupReport {
        attempted: (r.attempted + 1) as usize,
        cleaned: if alive {
            r.cleaned
        } else {
            (r.cleaned + 1) as usize
        },
        failed: r.failed,
    }
}

impl CleanupReport {
    /// No count exceeds the number of processes met.
    pub open spec fn wf(self) -> bool {
        self.cleaned + self.failed <= self.attempted
    }

    /// Notes that a process was to be killed, and gives its new status.
    pub fn note_kill(&mut self, killed: bool) -> (status: &'static str)
        requires
            old(self).wf(),
            old(self).attempted < usize::MAX,
        ensures
            final(self).wf(),
            *final(self) == kill_reported(*old(self), killed),
            status@ == if killed {
                "cleaned"@
            } else {
                "cleanup_failed"@
            },
    {
        self.attempted = self.attempted + 1;
        if killed {
            self.cleaned = self.cleaned + 1;
            "cleaned"
        } else {
            self.failed = self.failed + 1;
            "cleanup_failed"
        }
    }

    /// Notes that a process was looked at, and gives its new status with a note if it
    /// is gone. One that is alive is left alone.
    pub fn note_look(&mut self, alive: bool) -> (change: Option<(&'static str, &'static str)>)
        requires
            old(self).wf(),
            old(self).attempted < usize::MAX,
        ensures
            final(self).wf(),
            *final(self) == look_reported(*old(self), alive),
            match change {
                Some((status, note)) => !alive && status@ == "reconciled_dead"@ && note@
                    == "periodic reconcile: pid no longer alive"@,
                None => alive,
            },
    {
        self.attempted = self.attempted + 1;
        if alive {
            None
        } else {
            self.cleaned = self.cleaned + 1;
            Some(("reconciled_dead", "periodic reconcile: pid no longer alive"))
        }
    }
}

/// Whether a process is alive, by a signal that is not delivered: one that may not be
/// signalled is there all the same.
pub fn probe_says_alive(signal_accepted: bool, permission_denied: bool) -> (alive: bool)
    ensures
        alive == (signal_accepted || permission_denied),
{
    signal_accepted || permission_denied
}

/// Whether a process that was told to end is still there, by the same probe: only the
/// answer that there is none says otherwise.
pub fn probe_says_running(signal_accepted: bool, no_such_process: bool) -> (running: bool)
    ensures
        running == (signal_accepted || !no_such_process),
{
    signal_accepted || !no_such_process
}

/// The exit code that a process has which has not exited, where processes are asked for
/// their exit code.
pub const STILL_ACTIVE_CODE: u32 = 259;

/// Whether a process is alive, by its exit code; one that cannot be asked is not.
pub fn exit_code_says_alive(exit_code: Option<u32>) -> (alive: bool)
    ensures
        alive == (exit_code == Some(259u32)),
{
    match exit_code {
        Some(code) => code == STILL_ACTIVE_CODE,
        None => false,
    }
}

/// Whom a process tree is ended by.
#[derive(Debug, Clone, Copy, PartialEq, Eq, Structural)]
pub enum UnixKillTarget {
    ProcessGroup,
    Process,
}

pub open spec fn target_view(r: Result<UnixKillTarget, String>) -> Option<UnixKillTarget> {
    match r {
        Ok(target) => Some(target),
        Err(_) => None,
    }
}

/// Whom to go on with, where there is one, by the errors of telling them to end.
pub open spec fn target_after(
    group_error: Option<Seq<char>>,
    process_error: Option<Seq<char>>,
) -> Option<UnixKillTarget> {
    if group_error is None {
        Some(UnixKillTarget::ProcessGroup)
    } else if process_error is None {
        Some(UnixKillTarget::Process)
    } else {
        None
    }
}

/// Whom to go on with after both were told to end: the group where that was accepted,
/// else the process alone.
pub fn kill_target(
    group_error: Option<&str>,
    process_error: Option<&str>,
) -> (r: Result<UnixKillTarget, String>)
    ensures
        target_view(r) == target_after(opt_str(group_error), opt_str(process_error)),
        match (group_error, process_error) {
            (None, _) => r == Ok::<UnixKillTarget, String>(UnixKillTarget::ProcessGroup),
            (Some(_), None) => r == Ok::<UnixKillTarget, String>(UnixKillTarget::Process),
            (Some(g), Some(p)) => r is Err && r->Err_0@ == "process group kill failed: "@ + g@
                + "; pid kill failed: "@ + p@,
        },
{
    match (group_error, process_error) {
        (None, _) => Ok(UnixKillTarget::ProcessGroup),
        (Some(_), None) => Ok(UnixKillTarget::Process),
        (Some(g), Some(p)) => {
            let mut s = "process group kill failed: ".to_owned();
            s.append(g);
            s.append("; pid kill failed: ");
            s.append(p);
            Err(s)
        },
    }
}

/// How long processes that were told to end are given, in milliseconds.
pub const TERMINATION_GRACE_MS: u64 = 500;

/// How long to wait between two looks at processes that were told to end, in
/// milliseconds.
pub const TERMINATION_POLL_MS: u64 = 25;

/// What to do after a look at processes that were told to end.
#[derive(Debug, Clone, Copy, PartialEq, Eq, Structural)]
pub enum GonePoll {
    Gone,
    Wait { ms: u64 },
    StillThere,
}

/// What follows a look at processes that were told to end.
pub open spec fn next_poll(elapsed_ns: u128, running: bool) -> GonePoll {
    if !running {
        GonePoll::Gone
    } else if elapsed_ns < 500_000_000 {
        GonePoll::Wait { ms: 25 }
    } else {
        GonePoll::StillThere
    }
}

/// Goes on after a look at processes that were told to end: the look began `elapsed_ns`
/// nanoseconds after the first one. While the time they are given lasts they are looked
/// at again.
pub fn gone_poll(elapsed_ns: u128, running: bool) -> (p: GonePoll)
    ensures
        p == next_poll(elapsed_ns, running),
        p == (if !running {
            GonePoll::Gone
        } else if elapsed_ns < 500_000_000 {
            GonePoll::Wait { ms: 25 }
        } else {
            GonePoll::StillThere
        }),
{
    if !running {
        GonePoll::Gone
    } else if elapsed_ns < TERMINATION_GRACE_MS as u128 * 1_000_000 {
        GonePoll::Wait { ms: TERMINATION_POLL_MS }
    } else {
        GonePoll::StillThere
    }
}

/// How a command that ends a process tree has come out, by its error output: where it
/// has failed, the first line says why.
pub open spec fn kill_command_error(stderr: Seq<char>) -> Seq<char> {
    trimmed(first_line(stderr, "process cleanup command failed"@))
}

pub fn kill_command_outcome(success: bool, stderr: &str) -> (r: Result<(), String>)
    ensures
        match r {
            Ok(_) => success,
            Err(e) => !success && e@ == kill_command_error(stderr@),
        },
{
    if success {
        Ok(())
    } else {
        let line = first_line_or(stderr, "process cleanup command failed");
        Err(trim_string(line.as_str()))
    }
}

/// [`kill_command_outcome`] for an error output that may not be text.
pub fn kill_command_result(success: bool, stderr: &[u8]) -> (r: Result<(), String>)
    ensures
        match r {
            Ok(_) => success,
            Err(e) => !success && e@ == kill_command_error(lossy_text(stderr@)),
        },
{
    let text = lossy_string(stderr);
    kill_command_outcome(success, text.as_str())
}

/// A process tree has ended: in time, by being killed, or all the same.
pub open spec fn ended(gone_in_time: bool, kill_failed: bool, still_running: bool) -> bool {
    gone_in_time || !kill_failed || !still_running
}

/// How ending a process tree has come out: it was gone in time, or it was killed, or
/// it is gone all the same.
pub fn kill_outcome(
    gone_in_time: bool,
    kill_error: Option<&str>,
    still_running: bool,
) -> (r: Result<(), String>)
    ensures
        r is Ok <==> ended(gone_in_time, kill_error is Some, still_running),
        match kill_error {
            Some(e) if !gone_in_time && still_running => r is Err && r->Err_0@
                == "process tree SIGKILL failed after SIGTERM: "@ + e@,
            _ => r is Ok,
        },
{
    if gone_in_time {
        return Ok(());
    }
    match kill_error {
        None => Ok(()),
        Some(e) => {
            if still_running {
                let mut s = "process tree SIGKILL failed after SIGTERM: ".to_owned();
                s.append(e);
                Err(s)
            } else {
                Ok(())
            }
        },
    }
}

/// How ending a child has come out, where killing the child alone is the last resort.
pub fn child_kill_outcome(
    tree: Result<(), String>,
    child_error: Option<&str>,
) -> (r: Result<(), String>)
    ensures
        match (tree, child_error) {
            (Err(t), Some(c)) => r is Err && r->Err_0@ == t@ + "; fallback child kill failed: "@
                + c@,
            _ => r is Ok,
        },
{
    match (tree, child_error) {
        (Err(t), Some(c)) => {
            let mut s = t;
            s.append("; fallback child kill failed: ");
            s.append(c);
            Err(s)
        },
        _ => Ok(()),
    }
}

/// A row of the table of owned processes. Times are given as JSON numbers.
#[derive(Debug)]
pub struct ProcessRow {
    pub process: OwnedProcess,
    pub started_at: Json,
    pub completed_at: Json,
    pub cleanup_attempted_at: Json,
    pub exit_code: Option<i32>,
    pub last_error: Option<String>,
}

pub open spec fn process_row_json(r: ProcessRow) -> JsonView {
    JsonView::Object(
        seq![
            ("cleanup_attempted_at"@, r.cleanup_attempted_at@),
            ("completed_at"@, r.completed_at@),
            (
                "exit_code"@,
                match r.exit_code {
                    Some(c) => json_integer(c as i64),
                    None => JsonView::Null,
                },
            ),
            ("id"@, JsonView::String(r.process.id@)),
            ("label"@, JsonView::String(r.process.label@)),
            ("last_error"@, json_opt_text(opt_text(r.last_error))),
            ("owner_id"@, JsonView::String(r.process.owner_id@)),
            ("owner_kind"@, JsonView::String(r.process.owner_kind@)),
            ("pid"@, JsonView::Number(JsonNumber::Unsigned(r.process.pid as u64))),
            ("started_at"@, r.started_at@),
            ("status"@, JsonView::String(r.process.status@)),
        ],
    )
}

/// A row as it is shown.
pub fn debug_row(r: &ProcessRow) -> (v: Json)
    ensures
        v@ == process_row_json(*r),
{
    let exit_code = match r.exit_code {
        Some(c) => Json::integer(c as i64),
        None => Json::Null,
    };
    let v = Json::object()
        .with("cleanup_attempted_at", r.cleanup_attempted_at.clone())
        .with("completed_at", r.completed_at.clone())
        .with("exit_code", exit_code)
        .with("id", Json::text(r.process.id.as_str()))
        .with("label", Json::text(r.process.label.as_str()))
        .with("last_error", Json::opt_text(&r.last_error))
        .with("owner_id", Json::text(r.process.owner_id.as_str()))
        .with("owner_kind", Json::text(r.process.owner_kind.as_str()))
        .with("pid", Json::number(r.process.pid as u64))
        .with("started_at", r.started_at.clone())
        .with("status", Json::text(r.process.status.as_str()));
    assert(v@->Object_0 =~= process_row_json(*r)->Object_0);
    v
}

/// The report after a sweep that kills: `outcomes` says of each process whether it was
/// killed.
pub open spec fn kill_sweep(outcomes: Seq<bool>) -> CleanupReport
    decreases outcomes.len(),
{
    if outcomes.len() == 0 {
        CleanupReport { attempted: 0, cleaned: 0, failed: 0 }
    } else {
        kill_reported(kill_sweep(outcomes.drop_last()), outcomes.last())
    }
}

/// The report after a sweep that only looks: `alive` says of each process whether it
/// was alive.
pub open spec fn look_sweep(alive: Seq<bool>) -> CleanupReport
    decreases alive.len(),
{
    if alive.len() == 0 {
        CleanupReport { attempted: 0, cleaned: 0, failed: 0 }
    } else {
        look_reported(look_sweep(alive.drop_last()), alive.last())
    }
}

/// A sweep that kills meets every process and either cleans up or fails over it; one
/// that looks changes nothing about a process that is alive.
pub proof fn law_sweeps_account_for_every_process(outcomes: Seq<bool>)
    requires
        outcomes.len() <= usize::MAX,
    ensures
        kill_sweep(outcomes).attempted == outcomes.len(),
        kill_sweep(outcomes).cleaned + kill_sweep(outcomes).failed == outcomes.len(),
        look_sweep(outcomes).attempted == outcomes.len(),
        look_sweep(outcomes).cleaned <= outcomes.len(),
        look_sweep(outcomes).failed == 0,
        (forall|i: int| 0 <= i < outcomes.len() ==> outcomes[i]) ==> look_sweep(outcomes).cleaned
            == 0,
    decreases outcomes.len(),
{
    if outcomes.len() > 0 {
        law_sweeps_account_for_every_process(outcomes.drop_last());
        assert(forall|i: int|
            0 <= i < outcomes.drop_last().len() ==> outcomes.drop_last()[i] == outcomes[i]);
    }
}

/// A sweep counts one process after the other: each is met, one that was killed is cleaned,
/// one that was not has failed; one that is only looked at is cleaned if it is gone.
pub proof fn law_a_sweep_counts_one_by_one(outcomes: Seq<bool>, b: bool)
    requires
        outcomes.len() < usize::MAX,
    ensures
        kill_sweep(outcomes.push(true)).cleaned == kill_sweep(outcomes).cleaned + 1,
        kill_sweep(outcomes.push(true)).failed == kill_sweep(outcomes).failed,
        kill_sweep(outcomes.push(false)).cleaned == kill_sweep(outcomes).cleaned,
        kill_sweep(outcomes.push(false)).failed == kill_sweep(outcomes).failed + 1,
        look_sweep(outcomes.push(true)) == (CleanupReport {
            attempted: (look_sweep(outcomes).attempted + 1) as usize,
            ..look_sweep(outcomes)
        }),
        look_sweep(outcomes.push(false)).cleaned == look_sweep(outcomes).cleaned + 1,
        kill_sweep(Seq::empty()) == (CleanupReport { attempted: 0, cleaned: 0, failed: 0 }),
        look_sweep(Seq::empty()) == (CleanupReport { attempted: 0, cleaned: 0, failed: 0 }),
        kill_sweep(outcomes.push(b)).attempted == outcomes.len() + 1,
{
    law_sweeps_account_for_every_process(outcomes);
    law_sweeps_account_for_every_process(outcomes.push(b));
    assert(outcomes.push(true).drop_last() =~= outcomes);
    assert(outcomes.push(false).drop_last() =~= outcomes);
}

/// The row of a process is shown with all that is known of it.
pub proof fn law_a_process_is_shown(r: ProcessRow)
    ensures
        shows(process_row_json(r), "id"@, JsonView::String(r.process.id@)),
        shows(process_row_json(r), "label"@, JsonView::String(r.process.label@)),
        shows(process_row_json(r), "owner_id"@, JsonView::String(r.process.owner_id@)),
        shows(process_row_json(r), "owner_kind"@, JsonView::String(r.process.owner_kind@)),
        shows(process_row_json(r), "status"@, JsonView::String(r.process.status@)),
        shows(
            process_row_json(r),
            "pid"@,
            JsonView::Number(JsonNumber::Unsigned(r.process.pid as u64)),
        ),
        shows(process_row_json(r), "started_at"@, r.started_at@),
        shows(process_row_json(r), "completed_at"@, r.completed_at@),
        shows(process_row_json(r), "cleanup_attempted_at"@, r.cleanup_attempted_at@),
        r.last_error is Some ==> shows(
            process_row_json(r),
            "last_error"@,
            JsonView::String(r.last_error->0@),
        ),
        r.exit_code is Some ==> shows(
            process_row_json(r),
            "exit_code"@,
            json_integer(r.exit_code->0 as i64),
        ),
        process_row_json(r)->Object_0.len() == 11,
{
    let v = process_row_json(r);
    lemma_shows(v, 0);
    lemma_shows(v, 1);
    lemma_shows(v, 2);
    lemma_shows(v, 3);
    lemma_shows(v, 4);
    lemma_shows(v, 5);
    lemma_shows(v, 6);
    lemma_shows(v, 7);
    lemma_shows(v, 8);
    lemma_shows(v, 9);
    lemma_shows(v, 10);
}

/// A process of one owner has its own key: within a kind, keys are the same only for the same
/// id. The code of an exit is the one that the process gave, or -1 where a signal ended it.
pub proof fn law_keys_and_codes(kind: Seq<char>, a: Seq<char>, b: Seq<char>, code: i32)
    ensures
        process_key(kind, a) == process_key(kind, b) ==> a == b,
        kind.is_prefix_of(process_key(kind, a)),
        exit_code(Some(code)) == code,
        exit_code(None) == -1,
{
    let n = kind.len() + ":"@.len();
    assert(process_key(kind, a).skip(n as int) =~= a);
    assert(process_key(kind, b).skip(n as int) =~= b);
    assert(process_key(kind, a).subrange(0, kind.len() as int) =~= kind);
}

/// A group that was told to end is gone on with, else the process alone; they are looked at
/// every 25 milliseconds for half a second, and killed if they are there then; only a process
/// that is still there after that was refused has not ended.
pub proof fn law_how_processes_are_ended(
    group_error: Option<Seq<char>>,
    process_error: Option<Seq<char>>,
    elapsed_ns: u128,
    gone_in_time: bool,
    kill_failed: bool,
    still_running: bool,
)
    ensures
        target_after(group_error, process_error) == Some(UnixKillTarget::ProcessGroup)
            <==> group_error is None,
        target_after(group_error, process_error) == Some(UnixKillTarget::Process)
            <==> group_error is Some && process_error is None,
        next_poll(elapsed_ns, false) == GonePoll::Gone,
        elapsed_ns < 500_000_000 ==> next_poll(elapsed_ns, true) == (GonePoll::Wait { ms: 25 }),
        elapsed_ns >= 500_000_000 ==> next_poll(elapsed_ns, true) == GonePoll::StillThere,
        !ended(gone_in_time, kill_failed, still_running) <==> !gone_in_time && kill_failed
            && still_running,
{
}

} // verus!
