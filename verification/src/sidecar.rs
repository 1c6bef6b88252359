//! Tools that run as processes of their own: how they are cancelled, what they may
//! write, when their run is over, and which of their answers counts.
use vstd::prelude::*;

use crate::output::{append_bounded, full_lines, last_bytes, response_lines};
use crate::str_map::StrMap;
use crate::text::{lossy_string, lossy_text, same_text, texts};

verus! {

/// How much of an output is kept.
pub const SIDE_CAR_OUTPUT_LIMIT: usize = 1_048_576;

#[derive(Debug, Clone, PartialEq, Eq)]
pub struct SidecarCommand {
    pub program: String,
    pub args: Vec<String>,
    pub cwd: Option<String>,
}

/// Appends to an output, of which the last mebibyte is kept.
pub fn append_output(buffer: &mut Vec<u8>, bytes: &[u8])
    ensures
        final(buffer)@ == last_bytes(old(buffer)@ + bytes@, 1_048_576),
{
    let _ = append_bounded(buffer, bytes, SIDE_CAR_OUTPUT_LIMIT);
}

#[derive(Debug, Clone, Copy, PartialEq, Eq, Structural)]
pub enum SidecarErrorCode {
    PermissionDenied,
    FileWriteDenied,
    TransportError,
    ProtocolError,
    Cancelled,
    Timeout,
    Crash,
}

/// What a run has used.
#[derive(Debug, Clone, Copy, PartialEq, Eq, Structural)]
pub struct ResourceUsage {
    pub runtime_ms: u64,
    pub cpu_ms: u64,
    pub memory_mb_peak: u64,
    pub network_bytes: u64,
    pub file_write_bytes: u64,
}

pub open spec fn nothing_used() -> ResourceUsage {
    ResourceUsage {
        runtime_ms: 0,
        cpu_ms: 0,
        memory_mb_peak: 0,
        network_bytes: 0,
        file_write_bytes: 0,
    }
}

impl Default for ResourceUsage {
    fn default() -> (u: Self)
        ensures
            u == nothing_used(),
    {
        ResourceUsage {
            runtime_ms: 0,
            cpu_ms: 0,
            memory_mb_peak: 0,
            network_bytes: 0,
            file_write_bytes: 0,
        }
    }
}

#[derive(Debug, Clone, PartialEq, Eq)]
pub struct SidecarError {
    pub request_id: String,
    pub code: SidecarErrorCode,
    pub message: String,
    pub details: Option<Vec<u8>>,
    pub usage: ResourceUsage,
}

pub struct SidecarErrorView {
    pub request_id: Seq<char>,
    pub code: SidecarErrorCode,
    pub message: Seq<char>,
    pub details: Option<Seq<u8>>,
    pub usage: ResourceUsage,
}

impl View for SidecarError {
    type V = SidecarErrorView;

    open spec fn view(&self) -> SidecarErrorView {
        SidecarErrorView {
            request_id: self.request_id@,
            code: self.code,
            message: self.message@,
            details: match self.details {
                Some(d) => Some(d@),
                None => None,
            },
            usage: self.usage,
        }
    }
}

/// The right to write within a scope for some time.
#[derive(Debug, Clone)]
pub struct PermissionLease {
    /// The parts of the path of the scope.
    pub scope: Vec<String>,
    pub generation: u64,
    pub expires_at: i64,
}

/// `target` lies at or below `scope`: its path begins with the parts of the scope.
pub open spec fn within_scope(target: Seq<Seq<char>>, scope: Seq<Seq<char>>) -> bool {
    scope.is_prefix_of(target)
}

/// Whether a path lies at or below another, both given by their parts.
pub fn path_within_scope(target: &[String], scope: &[String]) -> (b: bool)
    ensures
        b == within_scope(texts(target@), texts(scope@)),
{
    let ghost t = texts(target@);
    let ghost s = texts(scope@);
    if scope.len() > target.len() {
        return false;
    }
    let mut i: usize = 0;
    while i < scope.len()
        invariant
            i <= scope@.len() <= target@.len(),
            t == texts(target@),
            s == texts(scope@),
            forall|j: int| 0 <= j < i ==> t[j] == s[j],
        decreases scope@.len() - i,
    {
        if !same_text(target[i].as_str(), scope[i].as_str()) {
            assert(t.subrange(0, s.len() as int)[i as int] != s[i as int]);
            return false;
        }
        i += 1;
    }
    assert(t.subrange(0, s.len() as int) =~= s);
    true
}

/// What stands against using a lease for a path at this time.
pub open spec fn lease_objection(
    lease: PermissionLease,
    target: Seq<Seq<char>>,
    now_ms: i64,
) -> Option<SidecarErrorCode> {
    if now_ms > lease.expires_at {
        Some(SidecarErrorCode::PermissionDenied)
    } else if !within_scope(target, texts(lease.scope@)) {
        Some(SidecarErrorCode::FileWriteDenied)
    } else {
        None
    }
}

/// Cancels runs by their tokens.
#[derive(Debug)]
pub struct SidecarScheduler {
    flags: Vec<bool>,
    tokens: StrMap<usize>,
}

/// The flags that handles look at, and which of them a token sets.
pub struct CancelView {
    pub flags: Seq<bool>,
    pub tokens: Map<Seq<char>, usize>,
}

impl CancelView {
    pub open spec fn wf(self) -> bool {
        forall|t: Seq<char>| #[trigger]
            self.tokens.contains_key(t) ==> self.tokens[t] < self.flags.len()
    }

    /// One more run, which the token now stands for.
    pub open spec fn registered(self, token: Seq<char>) -> CancelView {
        CancelView {
            flags: self.flags.push(false),
            tokens: self.tokens.insert(token, self.flags.len() as usize),
        }
    }

    /// The run that the token stands for is cancelled.
    pub open spec fn cancelled(self, token: Seq<char>) -> CancelView {
        if self.tokens.contains_key(token) {
            CancelView { flags: self.flags.update(self.tokens[token] as int, true), ..self }
        } else {
            self
        }
    }
}

impl View for SidecarScheduler {
    type V = CancelView;

    closed spec fn view(&self) -> CancelView {
        CancelView { flags: self.flags@, tokens: self.tokens@ }
    }
}

/// Tells a run whether it was cancelled.
#[derive(Debug, Clone)]
pub struct CancelHandle {
    token_id: String,
    flag: usize,
}

impl CancelHandle {
    pub closed spec fn name(self) -> Seq<char> {
        self.token_id@
    }

    pub closed spec fn place(self) -> nat {
        self.flag as nat
    }

    pub fn token_id(&self) -> (s: &str)
        ensures
            s@ == self.name(),
    {
        self.token_id.as_str()
    }

    /// Whether the run was cancelled; `scheduler` is the one that made the handle.
    pub fn is_cancelled(&self, scheduler: &SidecarScheduler) -> (b: bool)
        requires
            self.place() < scheduler@.flags.len(),
        ensures
            b == scheduler@.flags[self.place() as int],
    {
        scheduler.flags[self.flag]
    }
}

impl SidecarScheduler {
    /// Each token has a flag.
    pub open spec fn wf(self) -> bool {
        self@.wf()
    }

    pub fn new() -> (s: Self)
        ensures
            s.wf(),
            s@ == (CancelView { flags: Seq::empty(), tokens: Map::empty() }),
    {
        SidecarScheduler { flags: Vec::new(), tokens: StrMap::new() }
    }

    /// Makes a handle for a run; the token now stands for this run alone.
    pub fn register_cancel_token(&mut self, token_id: &str) -> (h: CancelHandle)
        requires
            old(self).wf(),
        ensures
            final(self).wf(),
            h.name() == token_id@,
            h.place() == old(self)@.flags.len(),
            final(self)@ == old(self)@.registered(token_id@),
    {
        let flag: usize = self.flags.len();
        self.flags.push(false);
        self.tokens.insert(token_id, flag);
        proof {
            let was = old(self)@.tokens;
            assert forall|t: Seq<char>| #[trigger] self@.tokens.contains_key(t) implies
                self@.tokens[t] < self@.flags.len() by {
                assert(t == token_id@ || was.contains_key(t));
            }
        }
        CancelHandle { token_id: token_id.to_owned(), flag }
    }

    /// Cancels the run that the token stands for; false if it stands for none.
    pub fn cancel(&mut self, token_id: &str) -> (b: bool)
        requires
            old(self).wf(),
        ensures
            final(self).wf(),
            b == old(self)@.tokens.contains_key(token_id@),
            final(self)@ == old(self)@.cancelled(token_id@),
    {
        let flag: usize = match self.tokens.get(token_id) {
            Some(flag) => {
                assert(self@.tokens.contains_key(token_id@));
                *flag
            },
            None => {
                return false;
            },
        };
        self.flags[flag] = true;
        true
    }

    /// Forgets a token; its run can no longer be cancelled.
    pub fn unregister_cancel_token(&mut self, token_id: &str) -> (b: bool)
        requires
            old(self).wf(),
        ensures
            final(self).wf(),
            b == old(self)@.tokens.contains_key(token_id@),
            final(self)@ == (CancelView {
                tokens: old(self)@.tokens.remove(token_id@),
                ..old(self)@
            }),
    {
        let known = self.tokens.remove(token_id).is_some();
        proof {
            let was = old(self)@.tokens;
            assert forall|t: Seq<char>| #[trigger] self@.tokens.contains_key(t) implies
                self@.tokens[t] < self@.flags.len() by {
                assert(was.contains_key(t));
            }
        }
        known
    }

    /// Begins the run of a tool: it can be cancelled by the token, and its process is to
    /// be started.
    pub fn execute(&mut self, request_id: &str, token_id: &str, timeout_ms: u64) -> (r: (
        CancelHandle,
        SidecarRun,
    ))
        requires
            old(self).wf(),
        ensures
            final(self).wf(),
            final(self)@ == old(self)@.registered(token_id@),
            r.0.name() == token_id@,
            r.0.place() == old(self)@.flags.len(),
            r.1.request() == request_id@,
            r.1.timeout() == timeout_ms,
            r.1.stage() == RunPhaseView::Starting,
    {
        let handle = self.register_cancel_token(token_id);
        (handle, SidecarRun::new(request_id, timeout_ms))
    }

    /// Whether a lease allows to write to a path, given by its parts, at this time.
    pub fn validate_permission_lease(
        &self,
        lease: &PermissionLease,
        target: &[String],
        now_ms: i64,
    ) -> (r: Result<(), SidecarErrorCode>)
        ensures
            match lease_objection(*lease, texts(target@), now_ms) {
                Some(code) => r == Err::<(), SidecarErrorCode>(code),
                None => r is Ok,
            },
    {
        if now_ms > lease.expires_at {
            return Err(SidecarErrorCode::PermissionDenied);
        }
        if !path_within_scope(target, &lease.scope) {
            return Err(SidecarErrorCode::FileWriteDenied);
        }
        Ok(())
    }
}

impl Default for SidecarScheduler {
    fn default() -> (s: Self)
        ensures
            s.wf(),
            s@ == (CancelView { flags: Seq::empty(), tokens: Map::empty() }),
    {
        Self::new()
    }
}

/// What to do with a run that goes on. Times are in nanoseconds.
#[derive(Debug, Clone, Copy, PartialEq, Eq, Structural)]
pub enum RunPoll {
    /// Kill the process: the run was cancelled.
    Cancelled,
    /// Kill the process: the run took too long.
    TimedOut,
    /// Wait for the process to exit for at most this time, then look again.
    Wait { at_most_ns: u128 },
}

/// A run is looked at again after ten milliseconds.
pub const POLL_INTERVAL_NS: u128 = 10_000_000;

/// What to do with a run that was begun `elapsed_ns` ago.
pub open spec fn run_poll(cancelled: bool, elapsed_ns: u128, timeout_ms: u64) -> RunPoll {
    if cancelled {
        RunPoll::Cancelled
    } else if elapsed_ns > timeout_ms * 1_000_000 {
        RunPoll::TimedOut
    } else if timeout_ms * 1_000_000 - elapsed_ns <= POLL_INTERVAL_NS {
        RunPoll::Wait { at_most_ns: (timeout_ms * 1_000_000 - elapsed_ns) as u128 }
    } else {
        RunPoll::Wait { at_most_ns: POLL_INTERVAL_NS }
    }
}

pub fn poll_run(cancelled: bool, elapsed_ns: u128, timeout_ms: u64) -> (p: RunPoll)
    ensures
        p == run_poll(cancelled, elapsed_ns, timeout_ms),
{
    if cancelled {
        return RunPoll::Cancelled;
    }
    let timeout_ns: u128 = timeout_ms as u128 * 1_000_000;
    if elapsed_ns > timeout_ns {
        return RunPoll::TimedOut;
    }
    let remaining: u128 = timeout_ns - elapsed_ns;
    RunPoll::Wait {
        at_most_ns: if remaining <= POLL_INTERVAL_NS {
            remaining
        } else {
            POLL_INTERVAL_NS
        },
    }
}

/// What a line of the output is.
#[derive(Debug, Clone, Copy, PartialEq, Eq, Structural)]
pub enum FrameKind {
    Completed,
    Error,
    FinalChunk,
    Chunk,
    Progress,
    Heartbeat,
    /// None of these.
    Malformed,
}

/// Which line counts.
#[derive(Debug, Clone, Copy, PartialEq, Eq, Structural)]
pub enum FrameChoice {
    /// This line is the answer.
    Answer(usize),
    /// There is no answer, and this line cannot be read.
    Unreadable(usize),
    /// There is nothing at all.
    Nothing,
}

/// The line settles the matter by itself.
pub open spec fn settles(k: FrameKind) -> bool {
    k == FrameKind::Completed || k == FrameKind::Error
}

pub open spec fn last_of(frames: Seq<FrameKind>, k: FrameKind) -> Option<int>
    decreases frames.len(),
{
    if frames.len() == 0 {
        None
    } else if frames.last() == k {
        Some(frames.len() - 1)
    } else {
        last_of(frames.drop_last(), k)
    }
}

pub open spec fn first_settling(frames: Seq<FrameKind>, from: int) -> Option<int>
    decreases frames.len() - from,
{
    if from >= frames.len() {
        None
    } else if settles(frames[from]) {
        Some(from)
    } else {
        first_settling(frames, from + 1)
    }
}

/// The line that counts: the first completion or error; else the last final chunk;
/// else the last line that cannot be read explains why there is no answer.
pub open spec fn frame_choice(frames: Seq<FrameKind>) -> FrameChoice {
    match first_settling(frames, 0) {
        Some(i) => FrameChoice::Answer(i as usize),
        None => match last_of(frames, FrameKind::FinalChunk) {
            Some(i) => FrameChoice::Answer(i as usize),
            None => match last_of(frames, FrameKind::Malformed) {
                Some(i) => FrameChoice::Unreadable(i as usize),
                None => FrameChoice::Nothing,
            },
        },
    }
}

pub fn choose_frame(frames: &[FrameKind]) -> (c: FrameChoice)
    ensures
        c == frame_choice(frames@),
        match c {
            FrameChoice::Answer(i) | FrameChoice::Unreadable(i) => i < frames@.len(),
            FrameChoice::Nothing => true,
        },
{
    let mut chunk: Option<usize> = None;
    let mut malformed: Option<usize> = None;
    let mut i: usize = 0;
    assert(frames@.take(0) =~= Seq::<FrameKind>::empty());
    while i < frames.len()
        invariant
            i <= frames@.len(),
            first_settling(frames@, 0) == first_settling(frames@, i as int),
            match chunk {
                Some(c) => c < i && last_of(frames@.take(i as int), FrameKind::FinalChunk) == Some(
                    c as int,
                ),
                None => last_of(frames@.take(i as int), FrameKind::FinalChunk) is None,
            },
            match malformed {
                Some(c) => c < i && last_of(frames@.take(i as int), FrameKind::Malformed) == Some(
                    c as int,
                ),
                None => last_of(frames@.take(i as int), FrameKind::Malformed) is None,
            },
        decreases frames@.len() - i,
    {
        assert(frames@.take(i + 1).drop_last() =~= frames@.take(i as int));
        match frames[i] {
            FrameKind::Completed | FrameKind::Error => {
                return FrameChoice::Answer(i);
            },
            FrameKind::FinalChunk => {
                chunk = Some(i);
            },
            FrameKind::Malformed => {
                malformed = Some(i);
            },
            FrameKind::Chunk | FrameKind::Progress | FrameKind::Heartbeat => {},
        }
        i += 1;
    }
    assert(frames@.take(i as int) =~= frames@);
    match chunk {
        Some(c) => FrameChoice::Answer(c),
        None => match malformed {
            Some(c) => FrameChoice::Unreadable(c),
            None => FrameChoice::Nothing,
        },
    }
}

/// What a run gave: the line that is the answer, and its outputs.
#[derive(Debug, Clone, PartialEq, Eq)]
pub struct SidecarExecution {
    pub response: String,
    pub stdout: String,
    pub stderr: String,
}

pub struct SidecarExecutionView {
    pub response: Seq<char>,
    pub stdout: Seq<char>,
    pub stderr: Seq<char>,
}

impl View for SidecarExecution {
    type V = SidecarExecutionView;

    open spec fn view(&self) -> SidecarExecutionView {
        SidecarExecutionView {
            response: self.response@,
            stdout: self.stdout@,
            stderr: self.stderr@,
        }
    }
}

/// What is found in the output of a run.
#[derive(Debug)]
pub enum FoundAnswer {
    Answer(SidecarExecution),
    /// There is no answer; this line, which is empty where there is none, explains it.
    Unreadable { line: String },
    /// What is known of the lines is not about the lines of this output.
    OtherLines,
}

pub enum FoundAnswerView {
    Answer(SidecarExecutionView),
    Unreadable { line: Seq<char> },
    OtherLines,
}

impl View for FoundAnswer {
    type V = FoundAnswerView;

    open spec fn view(&self) -> FoundAnswerView {
        match self {
            FoundAnswer::Answer(x) => FoundAnswerView::Answer(x@),
            FoundAnswer::Unreadable { line } => FoundAnswerView::Unreadable { line: line@ },
            FoundAnswer::OtherLines => FoundAnswerView::OtherLines,
        }
    }
}

/// What the outputs of a run say, where `frames` tells what each line of `stdout` that
/// holds more than spaces is.
pub open spec fn found_answer(
    frames: Seq<FrameKind>,
    stdout: Seq<char>,
    stderr: Seq<char>,
) -> FoundAnswerView {
    let lines = full_lines(stdout);
    if frames.len() != lines.len() {
        FoundAnswerView::OtherLines
    } else {
        match frame_choice(frames) {
            FrameChoice::Answer(i) => FoundAnswerView::Answer(
                SidecarExecutionView { response: lines[i as int], stdout, stderr },
            ),
            FrameChoice::Unreadable(i) => FoundAnswerView::Unreadable { line: lines[i as int] },
            FrameChoice::Nothing => FoundAnswerView::Unreadable { line: Seq::empty() },
        }
    }
}

pub fn find_answer(frames: &[FrameKind], stdout: String, stderr: String) -> (r: FoundAnswer)
    ensures
        r@ == found_answer(frames@, stdout@, stderr@),
{
    let lines = response_lines(stdout.as_str());
    assert(texts(lines@).len() == lines@.len());
    if frames.len() != lines.len() {
        return FoundAnswer::OtherLines;
    }
    match choose_frame(frames) {
        FrameChoice::Answer(i) => {
            assert(texts(lines@)[i as int] == lines@[i as int]@);
            FoundAnswer::Answer(SidecarExecution { response: lines[i].clone(), stdout, stderr })
        },
        FrameChoice::Unreadable(i) => {
            assert(texts(lines@)[i as int] == lines@[i as int]@);
            FoundAnswer::Unreadable { line: lines[i].clone() }
        },
        FrameChoice::Nothing => FoundAnswer::Unreadable { line: String::new() },
    }
}

/// What the table of processes is told of a run that is over.
#[derive(Debug, Clone, Copy, PartialEq, Eq, Structural)]
pub enum RunMark {
    /// Nothing.
    Untouched,
    Cancelled,
    TimedOut,
    Crashed,
    Completed(Option<i32>),
}

impl RunMark {
    /// The reason that a failed run is marked with.
    pub fn failure_note(&self) -> (s: Option<&'static str>)
        ensures
            match s {
                Some(n) => match self {
                    RunMark::Cancelled => n@ == "sidecar cancelled"@,
                    RunMark::TimedOut => n@ == "sidecar timeout"@,
                    RunMark::Crashed => n@ == "sidecar crashed"@,
                    RunMark::Untouched | RunMark::Completed(_) => false,
                },
                None => self is Untouched || self is Completed,
            },
    {
        match self {
            RunMark::Cancelled => Some("sidecar cancelled"),
            RunMark::TimedOut => Some("sidecar timeout"),
            RunMark::Crashed => Some("sidecar crashed"),
            RunMark::Untouched | RunMark::Completed(_) => None,
        }
    }
}

/// How far a run has come.
#[derive(Debug)]
pub enum RunPhase {
    /// The process is to be started.
    Starting,
    /// The request is to be written.
    Sending,
    /// The process runs.
    Running,
    /// The process was killed; its output is to be collected.
    Stopping { cancelled: bool },
    /// The process has exited; its output is to be collected.
    Ending { success: bool, status: String, code: Option<i32> },
    /// The answer is to be found in the output.
    Reading { code: Option<i32>, stdout: Vec<u8>, stderr: Vec<u8> },
    /// There is nothing more to do.
    Over,
}

pub enum RunPhaseView {
    Starting,
    Sending,
    Running,
    Stopping { cancelled: bool },
    Ending { success: bool, status: Seq<char>, code: Option<i32> },
    Reading { code: Option<i32>, stdout: Seq<u8>, stderr: Seq<u8> },
    Over,
}

impl View for RunPhase {
    type V = RunPhaseView;

    open spec fn view(&self) -> RunPhaseView {
        match self {
            RunPhase::Starting => RunPhaseView::Starting,
            RunPhase::Sending => RunPhaseView::Sending,
            RunPhase::Running => RunPhaseView::Running,
            RunPhase::Stopping { cancelled } => RunPhaseView::Stopping { cancelled: *cancelled },
            RunPhase::Ending { success, status, code } => RunPhaseView::Ending {
                success: *success,
                status: status@,
                code: *code,
            },
            RunPhase::Reading { code, stdout, stderr } => RunPhaseView::Reading {
                code: *code,
                stdout: stdout@,
                stderr: stderr@,
            },
            RunPhase::Over => RunPhaseView::Over,
        }
    }
}

/// What has become of the work that was asked for.
#[derive(Debug)]
pub enum RunEvent {
    NotStarted { message: String },
    Started,
    /// The request could not be turned into text.
    NotEncoded { message: String },
    NotSent { message: String },
    Sent,
    /// Whether the run was cancelled by now, and how long it has taken.
    Looked { cancelled: bool, elapsed_ns: u128 },
    StillRunning,
    WaitFailed { message: String },
    Exited { success: bool, status: String, code: Option<i32> },
    Collected { stdout: Vec<u8>, stderr: Vec<u8> },
    /// What each of the lines that were handed out is.
    Lines { frames: Vec<FrameKind> },
    /// Why the line that was asked about cannot be read.
    Explained { message: String },
}

/// The work that a run needs next.
#[derive(Debug)]
pub enum RunAction {
    /// Note the process in the table of processes and write the request.
    Send,
    /// See whether the run was cancelled and how long it has taken.
    Look,
    /// Wait for the process to exit for at most this time.
    Wait { at_most_ns: u128 },
    /// Kill the process and collect its output.
    Kill,
    /// Collect the output.
    Collect,
    /// Tell the lines of the output apart.
    Read { lines: Vec<String> },
    /// Say why this line cannot be read; it is empty where there was none to read.
    Explain { line: String },
    /// The run is over: what it gave, or the error; what the table of processes is told;
    /// and whether the token of the run is forgotten.
    Finish { answer: Result<SidecarExecution, SidecarError>, mark: RunMark, forget_token: bool },
    /// The event does not belong here.
    Ignore,
}

pub enum RunActionView {
    Send,
    Look,
    Wait { at_most_ns: u128 },
    Kill,
    Collect,
    Read { lines: Seq<Seq<char>> },
    Explain { line: Seq<char> },
    Finish {
        answer: Result<SidecarExecutionView, SidecarErrorView>,
        mark: RunMark,
        forget_token: bool,
    },
    Ignore,
}

impl View for RunAction {
    type V = RunActionView;

    open spec fn view(&self) -> RunActionView {
        match self {
            RunAction::Send => RunActionView::Send,
            RunAction::Look => RunActionView::Look,
            RunAction::Wait { at_most_ns } => RunActionView::Wait { at_most_ns: *at_most_ns },
            RunAction::Kill => RunActionView::Kill,
            RunAction::Collect => RunActionView::Collect,
            RunAction::Read { lines } => RunActionView::Read { lines: texts(lines@) },
            RunAction::Explain { line } => RunActionView::Explain { line: line@ },
            RunAction::Finish { answer, mark, forget_token } => RunActionView::Finish {
                answer: match answer {
                    Ok(x) => Ok(x@),
                    Err(e) => Err(e@),
                },
                mark: *mark,
                forget_token: *forget_token,
            },
            RunAction::Ignore => RunActionView::Ignore,
        }
    }
}

pub open spec fn own_error(
    request_id: Seq<char>,
    code: SidecarErrorCode,
    message: Seq<char>,
    details: Option<Seq<u8>>,
) -> SidecarErrorView {
    SidecarErrorView { request_id, code, message, details, usage: nothing_used() }
}

/// The run breaks off; the table of processes and the token stay as they are.
pub open spec fn broken_off(
    request_id: Seq<char>,
    code: SidecarErrorCode,
    message: Seq<char>,
    details: Option<Seq<u8>>,
) -> (RunPhaseView, RunActionView) {
    (
        RunPhaseView::Over,
        RunActionView::Finish {
            answer: Err(own_error(request_id, code, message, details)),
            mark: RunMark::Untouched,
            forget_token: false,
        },
    )
}

/// The process has come to a bad end, which its error output explains.
pub open spec fn ended_badly(
    request_id: Seq<char>,
    code: SidecarErrorCode,
    message: Seq<char>,
    stderr: Seq<u8>,
    mark: RunMark,
) -> (RunPhaseView, RunActionView) {
    (
        RunPhaseView::Over,
        RunActionView::Finish {
            answer: Err(own_error(request_id, code, message, Some(stderr))),
            mark,
            forget_token: true,
        },
    )
}

/// What a run does next.
pub open spec fn run_step(
    request_id: Seq<char>,
    timeout_ms: u64,
    phase: RunPhaseView,
    event: RunEvent,
) -> (RunPhaseView, RunActionView) {
    match (phase, event) {
        (RunPhaseView::Starting, RunEvent::NotStarted { message }) => broken_off(
            request_id,
            SidecarErrorCode::TransportError,
            message@,
            None,
        ),
        (RunPhaseView::Starting, RunEvent::Started) => (RunPhaseView::Sending, RunActionView::Send),
        (RunPhaseView::Sending, RunEvent::NotEncoded { message }) => broken_off(
            request_id,
            SidecarErrorCode::ProtocolError,
            message@,
            None,
        ),
        (RunPhaseView::Sending, RunEvent::NotSent { message }) => broken_off(
            request_id,
            SidecarErrorCode::TransportError,
            message@,
            None,
        ),
        (RunPhaseView::Sending, RunEvent::Sent) => (RunPhaseView::Running, RunActionView::Look),
        (RunPhaseView::Running, RunEvent::Looked { cancelled, elapsed_ns }) => match run_poll(
            cancelled,
            elapsed_ns,
            timeout_ms,
        ) {
            RunPoll::Cancelled => (
                RunPhaseView::Stopping { cancelled: true },
                RunActionView::Kill,
            ),
            RunPoll::TimedOut => (
                RunPhaseView::Stopping { cancelled: false },
                RunActionView::Kill,
            ),
            RunPoll::Wait { at_most_ns } => (
                RunPhaseView::Running,
                RunActionView::Wait { at_most_ns },
            ),
        },
        (RunPhaseView::Running, RunEvent::StillRunning) => (
            RunPhaseView::Running,
            RunActionView::Look,
        ),
        (RunPhaseView::Running, RunEvent::WaitFailed { message }) => broken_off(
            request_id,
            SidecarErrorCode::TransportError,
            message@,
            None,
        ),
        (RunPhaseView::Running, RunEvent::Exited { success, status, code }) => (
            RunPhaseView::Ending { success, status: status@, code },
            RunActionView::Collect,
        ),
        (RunPhaseView::Stopping { cancelled }, RunEvent::Collected { stdout, stderr }) => {
            if cancelled {
                ended_badly(
                    request_id,
                    SidecarErrorCode::Cancelled,
                    "sidecar cancelled"@,
                    stderr@,
                    RunMark::Cancelled,
                )
            } else {
                ended_badly(
                    request_id,
                    SidecarErrorCode::Timeout,
                    "sidecar timeout"@,
                    stderr@,
                    RunMark::TimedOut,
                )
            }
        },
        (
            RunPhaseView::Ending { success, status, code },
            RunEvent::Collected { stdout, stderr },
        ) => {
            if success {
                (
                    RunPhaseView::Reading { code, stdout: stdout@, stderr: stderr@ },
                    RunActionView::Read { lines: full_lines(lossy_text(stdout@)) },
                )
            } else {
                ended_badly(
                    request_id,
                    SidecarErrorCode::Crash,
                    "sidecar exited with status "@ + status,
                    stderr@,
                    RunMark::Crashed,
                )
            }
        },
        (RunPhaseView::Reading { code, stdout, stderr }, RunEvent::Lines { frames }) => {
            match found_answer(frames@, lossy_text(stdout), lossy_text(stderr)) {
                FoundAnswerView::Answer(x) => (
                    RunPhaseView::Over,
                    RunActionView::Finish {
                        answer: Ok(x),
                        mark: RunMark::Completed(code),
                        forget_token: true,
                    },
                ),
                FoundAnswerView::Unreadable { line } => (phase, RunActionView::Explain { line }),
                FoundAnswerView::OtherLines => (phase, RunActionView::Ignore),
            }
        },
        (RunPhaseView::Reading { code, stdout, .. }, RunEvent::Explained { message }) => broken_off(
            request_id,
            SidecarErrorCode::ProtocolError,
            message@,
            Some(stdout),
        ),
        _ => (phase, RunActionView::Ignore),
    }
}

/// The run of a tool that answers one request.
#[derive(Debug)]
pub struct SidecarRun {
    request_id: String,
    timeout_ms: u64,
    phase: RunPhase,
}

impl SidecarRun {
    pub closed spec fn request(self) -> Seq<char> {
        self.request_id@
    }

    pub closed spec fn timeout(self) -> u64 {
        self.timeout_ms
    }

    pub closed spec fn stage(self) -> RunPhaseView {
        self.phase@
    }

    /// A run whose process is to be started.
    pub fn new(request_id: &str, timeout_ms: u64) -> (r: Self)
        ensures
            r.request() == request_id@,
            r.timeout() == timeout_ms,
            r.stage() == RunPhaseView::Starting,
    {
        SidecarRun { request_id: request_id.to_owned(), timeout_ms, phase: RunPhase::Starting }
    }

    fn finish(
        &self,
        code: SidecarErrorCode,
        message: &str,
        details: Option<Vec<u8>>,
        mark: RunMark,
        forget_token: bool,
    ) -> (a: RunAction)
        ensures
            a@ == (RunActionView::Finish {
                answer: Err(
                    own_error(
                        self.request(),
                        code,
                        message@,
                        match details {
                            Some(d) => Some(d@),
                            None => None,
                        },
                    ),
                ),
                mark,
                forget_token,
            }),
    {
        RunAction::Finish {
            answer: Err(
                SidecarError {
                    request_id: self.request_id.clone(),
                    code,
                    message: message.to_owned(),
                    details,
                    usage: ResourceUsage::default(),
                },
            ),
            mark,
            forget_token,
        }
    }

    /// Takes in what has become of the last action and says what to do next.
    pub fn step(&mut self, event: RunEvent) -> (a: RunAction)
        ensures
            final(self).request() == old(self).request(),
            final(self).timeout() == old(self).timeout(),
            (final(self).stage(), a@) == run_step(
                old(self).request(),
                old(self).timeout(),
                old(self).stage(),
                event,
            ),
    {
        let mut phase = RunPhase::Over;
        std::mem::swap(&mut phase, &mut self.phase);
        match (phase, event) {
            (RunPhase::Starting, RunEvent::NotStarted { message }) => self.finish(
                SidecarErrorCode::TransportError,
                message.as_str(),
                None,
                RunMark::Untouched,
                false,
            ),
            (RunPhase::Starting, RunEvent::Started) => {
                self.phase = RunPhase::Sending;
                RunAction::Send
            },
            (RunPhase::Sending, RunEvent::NotEncoded { message }) => self.finish(
                SidecarErrorCode::ProtocolError,
                message.as_str(),
                None,
                RunMark::Untouched,
                false,
            ),
            (RunPhase::Sending, RunEvent::NotSent { message }) => self.finish(
                SidecarErrorCode::TransportError,
                message.as_str(),
                None,
                RunMark::Untouched,
                false,
            ),
            (RunPhase::Sending, RunEvent::Sent) => {
                self.phase = RunPhase::Running;
                RunAction::Look
            },
            (RunPhase::Running, RunEvent::Looked { cancelled, elapsed_ns }) => match poll_run(
                cancelled,
                elapsed_ns,
                self.timeout_ms,
            ) {
                RunPoll::Cancelled => {
                    self.phase = RunPhase::Stopping { cancelled: true };
                    RunAction::Kill
                },
                RunPoll::TimedOut => {
                    self.phase = RunPhase::Stopping { cancelled: false };
                    RunAction::Kill
                },
                RunPoll::Wait { at_most_ns } => {
                    self.phase = RunPhase::Running;
                    RunAction::Wait { at_most_ns }
                },
            },
            (RunPhase::Running, RunEvent::StillRunning) => {
                self.phase = RunPhase::Running;
                RunAction::Look
            },
            (RunPhase::Running, RunEvent::WaitFailed { message }) => self.finish(
                SidecarErrorCode::TransportError,
                message.as_str(),
                None,
                RunMark::Untouched,
                false,
            ),
            (RunPhase::Running, RunEvent::Exited { success, status, code }) => {
                self.phase = RunPhase::Ending { success, status, code };
                RunAction::Collect
            },
            (RunPhase::Stopping { cancelled }, RunEvent::Collected { stdout: _, stderr }) => {
                if cancelled {
                    self.finish(
                        SidecarErrorCode::Cancelled,
                        "sidecar cancelled",
                        Some(stderr),
                        RunMark::Cancelled,
                        true,
                    )
                } else {
                    self.finish(
                        SidecarErrorCode::Timeout,
                        "sidecar timeout",
                        Some(stderr),
                        RunMark::TimedOut,
                        true,
                    )
                }
            },
            (
                RunPhase::Ending { success, status, code },
                RunEvent::Collected { stdout, stderr },
            ) => {
                if success {
                    let text = lossy_string(&stdout);
                    let lines = response_lines(text.as_str());
                    self.phase = RunPhase::Reading { code, stdout, stderr };
                    RunAction::Read { lines }
                } else {
                    let mut message = "sidecar exited with status ".to_owned();
                    message.append(status.as_str());
                    self.finish(
                        SidecarErrorCode::Crash,
                        message.as_str(),
                        Some(stderr),
                        RunMark::Crashed,
                        true,
                    )
                }
            },
            (RunPhase::Reading { code, stdout, stderr }, RunEvent::Lines { frames }) => {
                match find_answer(&frames, lossy_string(&stdout), lossy_string(&stderr)) {
                    FoundAnswer::Answer(x) => RunAction::Finish {
                        answer: Ok(x),
                        mark: RunMark::Completed(code),
                        forget_token: true,
                    },
                    FoundAnswer::Unreadable { line } => {
                        self.phase = RunPhase::Reading { code, stdout, stderr };
                        RunAction::Explain { line }
                    },
                    FoundAnswer::OtherLines => {
                        self.phase = RunPhase::Reading { code, stdout, stderr };
                        RunAction::Ignore
                    },
                }
            },
            (
                RunPhase::Reading { code: _, stdout, stderr: _ },
                RunEvent::Explained { message },
            ) => self.finish(
                SidecarErrorCode::ProtocolError,
                message.as_str(),
                Some(stdout),
                RunMark::Untouched,
                false,
            ),
            (phase, _) => {
                self.phase = phase;
                RunAction::Ignore
            },
        }
    }
}

/// A run that was cancelled ends as cancelled, however long it has taken, and its
/// token is forgotten.
pub proof fn law_a_cancelled_run_is_stopped(
    request_id: Seq<char>,
    timeout_ms: u64,
    looked: RunEvent,
    collected: RunEvent,
)
    requires
        looked is Looked && looked->cancelled,
        collected is Collected,
    ensures
        ({
            let (stopping, action) = run_step(
                request_id,
                timeout_ms,
                RunPhaseView::Running,
                looked,
            );
            &&& action is Kill
            &&& run_step(request_id, timeout_ms, stopping, collected) == (
                RunPhaseView::Over,
                RunActionView::Finish {
                    answer: Err(
                        own_error(
                            request_id,
                            SidecarErrorCode::Cancelled,
                            "sidecar cancelled"@,
                            Some(collected->stderr@),
                        ),
                    ),
                    mark: RunMark::Cancelled,
                    forget_token: true,
                },
            )
        }),
{
}

/// A run that takes longer than it may is killed, and never a moment before.
pub proof fn law_a_run_is_killed_when_its_time_is_up(
    request_id: Seq<char>,
    timeout_ms: u64,
    looked: RunEvent,
)
    requires
        looked is Looked && !looked->cancelled,
    ensures
        (run_step(request_id, timeout_ms, RunPhaseView::Running, looked).1 is Kill) <==> (
        looked->elapsed_ns > timeout_ms * 1_000_000),
{
}

/// A run that is over stays over, and its end is told once.
pub proof fn law_a_run_ends_once(
    request_id: Seq<char>,
    timeout_ms: u64,
    phase: RunPhaseView,
    event: RunEvent,
)
    ensures
        ({
            let (next, action) = run_step(request_id, timeout_ms, phase, event);
            &&& (action is Finish) ==> !(phase is Over) && next is Over
            &&& !(phase is Over) && next is Over ==> action is Finish
            &&& phase is Over ==> next is Over && action is Ignore
        }),
{
}

/// Cancelling by a token reaches the run that was registered under it last, and no
/// other.
pub proof fn law_cancel_reaches_its_run(v: CancelView, token: Seq<char>, i: int)
    requires
        v.wf(),
        v.flags.len() < usize::MAX,
        0 <= i < v.flags.len(),
    ensures
        ({
            let after = v.registered(token).cancelled(token);
            &&& after.flags[v.flags.len() as int]
            &&& after.flags[i] == v.flags[i]
        }),
{
}

/// Progress and heartbeats never count.
pub proof fn law_only_answers_count(frames: Seq<FrameKind>)
    requires
        frames.len() <= usize::MAX,
    ensures
        match frame_choice(frames) {
            FrameChoice::Answer(i) => i < frames.len() && (settles(frames[i as int])
                || frames[i as int] == FrameKind::FinalChunk),
            FrameChoice::Unreadable(i) => i < frames.len() && frames[i as int]
                == FrameKind::Malformed,
            FrameChoice::Nothing => true,
        },
{
    lemma_first_settling(frames, 0);
    lemma_last_of(frames, FrameKind::FinalChunk);
    lemma_last_of(frames, FrameKind::Malformed);
}

proof fn lemma_first_settling(frames: Seq<FrameKind>, from: int)
    requires
        0 <= from,
    ensures
        match first_settling(frames, from) {
            Some(i) => from <= i < frames.len() && settles(frames[i]),
            None => true,
        },
    decreases frames.len() - from,
{
    if from < frames.len() && !settles(frames[from]) {
        lemma_first_settling(frames, from + 1);
    }
}

proof fn lemma_last_of(frames: Seq<FrameKind>, k: FrameKind)
    ensures
        match last_of(frames, k) {
            Some(i) => 0 <= i < frames.len() && frames[i] == k,
            None => true,
        },
    decreases frames.len(),
{
    if frames.len() > 0 && frames.last() != k {
        lemma_last_of(frames.drop_last(), k);
    }
}

/// A sibling whose name merely begins with the name of the scope lies outside it.
pub proof fn law_scope_ends_at_part_boundaries(
    base: Seq<Seq<char>>,
    name: Seq<char>,
    other: Seq<char>,
    rest: Seq<Seq<char>>,
)
    requires
        name != other,
    ensures
        !within_scope(base.push(other) + rest, base.push(name)),
        within_scope(base.push(name) + rest, base.push(name)),
{
    let scope = base.push(name);
    let sibling = base.push(other) + rest;
    if within_scope(sibling, scope) {
        assert(sibling.subrange(0, scope.len() as int)[base.len() as int] == other);
    }
    assert((scope + rest).subrange(0, scope.len() as int) =~= scope);
}

/// A run that answered gives its answer: the first line that settles the matter, else the
/// last final chunk, with all that the process wrote.
pub proof fn law_the_answer_of_a_run(
    frames: Seq<FrameKind>,
    stdout: Seq<char>,
    stderr: Seq<char>,
    i: int,
)
    requires
        frames.len() == full_lines(stdout).len(),
        frames.len() <= usize::MAX,
        0 <= i < frames.len(),
    ensures
        (frames[i] == FrameKind::Completed || frames[i] == FrameKind::Error) && (forall|j: int|
            0 <= j < i ==> #[trigger] frames[j] != FrameKind::Completed && frames[j]
                != FrameKind::Error) ==> found_answer(frames, stdout, stderr)
            == FoundAnswerView::Answer(
            SidecarExecutionView { response: full_lines(stdout)[i], stdout, stderr },
        ),
        frames[i] == FrameKind::FinalChunk && (forall|j: int|
            0 <= j < frames.len() ==> #[trigger] frames[j] != FrameKind::Completed && frames[j]
                != FrameKind::Error) && (forall|j: int|
            i < j < frames.len() ==> #[trigger] frames[j] != FrameKind::FinalChunk)
            ==> found_answer(frames, stdout, stderr) == FoundAnswerView::Answer(
            SidecarExecutionView { response: full_lines(stdout)[i], stdout, stderr },
        ),
        frames[i] == FrameKind::Malformed && (forall|j: int|
            0 <= j < frames.len() ==> #[trigger] frames[j] != FrameKind::Completed && frames[j]
                != FrameKind::Error && frames[j] != FrameKind::FinalChunk) && (forall|j: int|
            i < j < frames.len() ==> #[trigger] frames[j] != FrameKind::Malformed)
            ==> found_answer(frames, stdout, stderr) == (FoundAnswerView::Unreadable {
            line: full_lines(stdout)[i],
        }),
{
    if forall|j: int|
        0 <= j < frames.len() ==> #[trigger] frames[j] != FrameKind::Completed && frames[j]
            != FrameKind::Error {
        lemma_none_settles(frames, 0);
    }
    if (frames[i] == FrameKind::Completed || frames[i] == FrameKind::Error) && (forall|j: int|
        0 <= j < i ==> #[trigger] frames[j] != FrameKind::Completed && frames[j]
            != FrameKind::Error) {
        lemma_settles_first(frames, 0, i);
    }
    if frames[i] == FrameKind::FinalChunk && (forall|j: int|
        i < j < frames.len() ==> #[trigger] frames[j] != FrameKind::FinalChunk) {
        lemma_last_is(frames, FrameKind::FinalChunk, i);
    }
    if frames[i] == FrameKind::Malformed && (forall|j: int|
        i < j < frames.len() ==> #[trigger] frames[j] != FrameKind::Malformed) {
        lemma_last_is(frames, FrameKind::Malformed, i);
    }
    if forall|j: int| 0 <= j < frames.len() ==> #[trigger] frames[j] != FrameKind::FinalChunk {
        lemma_last_is_none(frames, FrameKind::FinalChunk);
    }
}

proof fn lemma_none_settles(frames: Seq<FrameKind>, from: int)
    requires
        0 <= from,
        forall|j: int|
            0 <= j < frames.len() ==> #[trigger] frames[j] != FrameKind::Completed && frames[j]
                != FrameKind::Error,
    ensures
        first_settling(frames, from) is None,
    decreases frames.len() - from,
{
    if from < frames.len() {
        assert(!settles(frames[from]));
        lemma_none_settles(frames, from + 1);
    }
}

proof fn lemma_settles_first(frames: Seq<FrameKind>, from: int, i: int)
    requires
        0 <= from <= i < frames.len(),
        frames[i] == FrameKind::Completed || frames[i] == FrameKind::Error,
        forall|j: int|
            0 <= j < i ==> #[trigger] frames[j] != FrameKind::Completed && frames[j]
                != FrameKind::Error,
    ensures
        first_settling(frames, from) == Some(i),
    decreases i - from,
{
    if from < i {
        assert(!settles(frames[from]));
        lemma_settles_first(frames, from + 1, i);
    }
}

proof fn lemma_last_is(frames: Seq<FrameKind>, k: FrameKind, i: int)
    requires
        0 <= i < frames.len(),
        frames[i] == k,
        forall|j: int| i < j < frames.len() ==> #[trigger] frames[j] != k,
    ensures
        last_of(frames, k) == Some(i),
    decreases frames.len(),
{
    if i < frames.len() - 1 {
        assert(frames[frames.len() - 1] != k);
        lemma_last_is(frames.drop_last(), k, i);
    }
}

proof fn lemma_last_is_none(frames: Seq<FrameKind>, k: FrameKind)
    requires
        forall|j: int| 0 <= j < frames.len() ==> #[trigger] frames[j] != k,
    ensures
        last_of(frames, k) is None,
    decreases frames.len(),
{
    if frames.len() > 0 {
        assert(frames[frames.len() - 1] != k);
        lemma_last_is_none(frames.drop_last(), k);
    }
}

/// A run, from its start to its end: the request is sent, the process is waited for, and
/// what it wrote is read line by line. A process that failed is reported as a crash, with
/// its status and what it wrote on its error output.
pub proof fn law_a_run_from_start_to_end(
    request_id: Seq<char>,
    timeout_ms: u64,
    exited: RunEvent,
    collected: RunEvent,
    frames: Vec<FrameKind>,
)
    requires
        exited is Exited,
        collected is Collected,
    ensures
        run_step(request_id, timeout_ms, RunPhaseView::Starting, RunEvent::Started) == (
            RunPhaseView::Sending,
            RunActionView::Send,
        ),
        run_step(request_id, timeout_ms, RunPhaseView::Sending, RunEvent::Sent) == (
            RunPhaseView::Running,
            RunActionView::Look,
        ),
        run_step(request_id, timeout_ms, RunPhaseView::Running, RunEvent::StillRunning) == (
            RunPhaseView::Running,
            RunActionView::Look,
        ),
        ({
            let (ending, collect) = run_step(request_id, timeout_ms, RunPhaseView::Running, exited);
            let (reading, read) = run_step(request_id, timeout_ms, ending, collected);
            let out = lossy_text(collected->stdout@);
            let err = lossy_text(collected->stderr@);
            &&& collect is Collect
            &&& exited->success ==> read == RunActionView::Read { lines: full_lines(out) }
            &&& exited->success ==> match run_step(
                request_id,
                timeout_ms,
                reading,
                RunEvent::Lines { frames },
            ) {
                (over, RunActionView::Finish { answer, mark, forget_token }) => {
                    &&& over is Over
                    &&& answer is Ok
                    &&& found_answer(frames@, out, err) == FoundAnswerView::Answer(answer->Ok_0)
                    &&& answer->Ok_0.stdout == out && answer->Ok_0.stderr == err
                    &&& mark == RunMark::Completed(exited->code)
                    &&& forget_token
                },
                (same, RunActionView::Explain { line }) => same == reading && found_answer(
                    frames@,
                    out,
                    err,
                ) == (FoundAnswerView::Unreadable { line }),
                (same, RunActionView::Ignore) => same == reading && frames@.len() != full_lines(
                    out,
                ).len(),
                _ => false,
            }
            &&& !exited->success ==> match read {
                RunActionView::Finish { answer, mark, forget_token } => {
                    &&& answer is Err
                    &&& answer->Err_0.code == SidecarErrorCode::Crash
                    &&& answer->Err_0.request_id == request_id
                    &&& answer->Err_0.details == Some(collected->stderr@)
                    &&& exited->status@.is_suffix_of(answer->Err_0.message)
                    &&& mark == RunMark::Crashed
                    &&& forget_token
                    &&& reading is Over
                },
                _ => false,
            }
        }),
{
    let head = "sidecar exited with status "@;
    let m = head + exited->status@;
    assert(m.subrange(m.len() - exited->status@.len(), m.len() as int) =~= exited->status@);
}

/// How a run fails when its process cannot be started, asked or waited for, or when its
/// answer cannot be read: with what came from outside as the message, and nothing noted.
pub proof fn law_how_runs_break_off(
    request_id: Seq<char>,
    timeout_ms: u64,
    event: RunEvent,
    code: Option<i32>,
    stdout: Seq<u8>,
    stderr: Seq<u8>,
)
    ensures
        match event {
            RunEvent::NotStarted { message } => breaks_off(
                run_step(request_id, timeout_ms, RunPhaseView::Starting, event),
                request_id,
                SidecarErrorCode::TransportError,
                message@,
                None,
            ),
            RunEvent::NotEncoded { message } => breaks_off(
                run_step(request_id, timeout_ms, RunPhaseView::Sending, event),
                request_id,
                SidecarErrorCode::ProtocolError,
                message@,
                None,
            ),
            RunEvent::NotSent { message } => breaks_off(
                run_step(request_id, timeout_ms, RunPhaseView::Sending, event),
                request_id,
                SidecarErrorCode::TransportError,
                message@,
                None,
            ),
            RunEvent::WaitFailed { message } => breaks_off(
                run_step(request_id, timeout_ms, RunPhaseView::Running, event),
                request_id,
                SidecarErrorCode::TransportError,
                message@,
                None,
            ),
            RunEvent::Explained { message } => breaks_off(
                run_step(
                    request_id,
                    timeout_ms,
                    RunPhaseView::Reading { code, stdout, stderr },
                    event,
                ),
                request_id,
                SidecarErrorCode::ProtocolError,
                message@,
                Some(stdout),
            ),
            _ => true,
        },
{
}

/// The run is over with this error; the table of processes and the token stay untouched.
pub open spec fn breaks_off(
    end: (RunPhaseView, RunActionView),
    request_id: Seq<char>,
    code: SidecarErrorCode,
    message: Seq<char>,
    details: Option<Seq<u8>>,
) -> bool {
    &&& end.0 is Over
    &&& match end.1 {
        RunActionView::Finish { answer, mark, forget_token } => {
            &&& answer is Err
            &&& answer->Err_0.request_id == request_id
            &&& answer->Err_0.code == code
            &&& answer->Err_0.message == message
            &&& answer->Err_0.details == details
            &&& mark == RunMark::Untouched
            &&& !forget_token
        },
        _ => false,
    }
}

/// While a run goes on it is waited for in short steps that never reach beyond its time; a
/// cancelled run is stopped whatever the time, and any other when its time is used up.
pub proof fn law_how_long_a_run_is_waited_for(cancelled: bool, elapsed_ns: u128, timeout_ms: u64)
    ensures
        match run_poll(cancelled, elapsed_ns, timeout_ms) {
            RunPoll::Cancelled => cancelled,
            RunPoll::TimedOut => !cancelled && elapsed_ns > timeout_ms * 1_000_000,
            RunPoll::Wait { at_most_ns } => {
                &&& !cancelled && elapsed_ns <= timeout_ms * 1_000_000
                &&& at_most_ns <= 10_000_000
                &&& elapsed_ns + at_most_ns <= timeout_ms * 1_000_000
                &&& at_most_ns == 10_000_000 || elapsed_ns + at_most_ns == timeout_ms * 1_000_000
            },
        },
{
}

/// A lease can be used until it expires, and for what lies at or below its scope.
pub proof fn law_what_a_lease_allows(lease: PermissionLease, target: Seq<Seq<char>>, now_ms: i64)
    ensures
        match lease_objection(lease, target, now_ms) {
            Some(code) => if now_ms > lease.expires_at {
                code == SidecarErrorCode::PermissionDenied
            } else {
                code == SidecarErrorCode::FileWriteDenied && !texts(lease.scope@).is_prefix_of(
                    target,
                )
            },
            None => now_ms <= lease.expires_at && texts(lease.scope@).is_prefix_of(target),
        },
{
}

/// A token stands for the run that was begun with it last, which is not cancelled; the
/// flags of other runs stay. Cancelling a token sets the flag of its run alone.
pub proof fn law_what_a_token_stands_for(v: CancelView, token: Seq<char>, other: Seq<char>, i: int)
    requires
        v.wf(),
        v.flags.len() < usize::MAX,
    ensures
        ({
            let w = v.registered(token);
            &&& w.wf()
            &&& w.flags.len() == v.flags.len() + 1
            &&& !w.flags.last()
            &&& w.tokens.contains_key(token) && w.tokens[token] == v.flags.len()
            &&& 0 <= i < v.flags.len() ==> w.flags[i] == v.flags[i]
            &&& other != token && v.tokens.contains_key(other) ==> w.tokens.contains_key(other)
                && w.tokens[other] == v.tokens[other]
            &&& w.cancelled(token).flags.last()
            &&& 0 <= i < v.flags.len() ==> w.cancelled(token).flags[i] == v.flags[i]
            &&& !v.tokens.contains_key(other) ==> v.cancelled(other) == v
        }),
{
    let w = v.registered(token);
    assert forall|t: Seq<char>| #[trigger] w.tokens.contains_key(t) implies w.tokens[t]
        < w.flags.len() by {
        if t != token {
            assert(v.tokens.contains_key(t));
        }
    }
}

} // verus!
