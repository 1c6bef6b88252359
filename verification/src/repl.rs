//! Evaluating code in the runtime of its language.
use vstd::prelude::*;

use crate::json::{json_integer, lemma_shows, shows, Json, JsonNumber, JsonView};
use crate::process::{exit_code, exit_code_of, ProcessMark, ProcessMarkView};
use crate::text::{lossy_string, lossy_text, lower_string, lower_text, same_text, texts};

verus! {

#[derive(Debug, Clone)]
pub struct ReplEvalRequest {
    pub eval_id: String,
    pub language: String,
    pub code: String,
    pub cwd: Option<String>,
    pub timeout_ms: u64,
}

#[derive(Debug, Clone, PartialEq, Eq)]
pub enum ReplEvalError {
    MissingRuntime { language: String },
    SpawnFailed(String),
    Timeout,
    WaitFailed(String),
}

pub enum ReplErrorView {
    MissingRuntime { language: Seq<char> },
    SpawnFailed(Seq<char>),
    Timeout,
    WaitFailed(Seq<char>),
}

impl View for ReplEvalError {
    type V = ReplErrorView;

    open spec fn view(&self) -> ReplErrorView {
        match self {
            ReplEvalError::MissingRuntime { language } => ReplErrorView::MissingRuntime {
                language: language@,
            },
            ReplEvalError::SpawnFailed(m) => ReplErrorView::SpawnFailed(m@),
            ReplEvalError::Timeout => ReplErrorView::Timeout,
            ReplEvalError::WaitFailed(m) => ReplErrorView::WaitFailed(m@),
        }
    }
}

/// A program to try, with its arguments.
#[derive(Debug, Clone, PartialEq, Eq)]
pub struct RuntimeCandidate {
    pub program: String,
    pub args: Vec<String>,
}

pub struct CandidateView {
    pub program: Seq<char>,
    pub args: Seq<Seq<char>>,
}

impl View for RuntimeCandidate {
    type V = CandidateView;

    open spec fn view(&self) -> CandidateView {
        CandidateView { program: self.program@, args: texts(self.args@) }
    }
}

pub open spec fn candidate_views(candidates: Seq<RuntimeCandidate>) -> Seq<CandidateView> {
    Seq::new(candidates.len(), |i: int| candidates[i]@)
}

/// The programs that run code of a language, the preferred one first; none for a
/// language that is not known. Upper and lower case are the same.
pub open spec fn candidates_for(language: Seq<char>, code: Seq<char>) -> Seq<CandidateView> {
    let l = lower_text(language);
    if l == "node"@ || l == "javascript"@ || l == "js"@ {
        seq![CandidateView { program: "node"@, args: seq!["-e"@, code] }]
    } else if l == "python"@ || l == "py"@ {
        seq![
            CandidateView { program: "python"@, args: seq!["-c"@, code] },
            CandidateView { program: "py"@, args: seq!["-3"@, "-c"@, code] },
        ]
    } else {
        Seq::empty()
    }
}

/// The programs that run code of a language, the preferred one first.
pub fn runtime_candidates(language: &str, code: &str) -> (r: Result<
    Vec<RuntimeCandidate>,
    ReplEvalError,
>)
    ensures
        match r {
            Ok(c) => c@.len() > 0 && candidate_views(c@) == candidates_for(language@, code@),
            Err(e) => candidates_for(language@, code@).len() == 0 && e@ == (
            ReplErrorView::MissingRuntime { language: lower_text(language@) }),
        },
{
    let lower = lower_string(language);
    let l = lower.as_str();
    if same_text(l, "node") || same_text(l, "javascript") || same_text(l, "js") {
        let node = RuntimeCandidate {
            program: "node".to_owned(),
            args: vec!["-e".to_owned(), code.to_owned()],
        };
        assert(node@.args =~= seq!["-e"@, code@]);
        let r = vec![node];
        assert(candidate_views(r@) =~= candidates_for(language@, code@));
        Ok(r)
    } else if same_text(l, "python") || same_text(l, "py") {
        let python = RuntimeCandidate {
            program: "python".to_owned(),
            args: vec!["-c".to_owned(), code.to_owned()],
        };
        assert(python@.args =~= seq!["-c"@, code@]);
        let py = RuntimeCandidate {
            program: "py".to_owned(),
            args: vec!["-3".to_owned(), "-c".to_owned(), code.to_owned()],
        };
        assert(py@.args =~= seq!["-3"@, "-c"@, code@]);
        let r = vec![python, py];
        assert(candidate_views(r@) =~= candidates_for(language@, code@));
        Ok(r)
    } else {
        Err(ReplEvalError::MissingRuntime { language: lower })
    }
}

/// How far an evaluation has come.
#[derive(Debug, Clone, Copy, PartialEq, Eq, Structural)]
pub enum EvalPhase {
    /// This candidate is to be started.
    Starting { candidate: usize },
    /// The process is to be noted.
    Noting { candidate: usize, pid: u32 },
    /// The exit is awaited.
    Waiting { candidate: usize, pid: u32 },
    /// The process is to be killed.
    Stopping,
    /// The output is to be collected.
    Collecting { candidate: usize, pid: u32 },
    /// There is nothing more to do.
    Over,
}

/// What has become of the work that was asked for.
#[derive(Debug)]
pub enum EvalEvent {
    /// There is no such program.
    NotFound,
    NotStarted { message: String },
    Started { pid: u32 },
    NotNoted { message: String },
    Noted,
    WaitFailed { message: String },
    StillRunning,
    Exited,
    Killed,
    NotCollected { message: String },
    Collected { success: bool, code: Option<i32>, stdout: Vec<u8>, stderr: Vec<u8> },
}

/// The work that an evaluation needs next.
#[derive(Debug)]
pub enum EvalAction {
    /// Start this candidate.
    Start { candidate: usize },
    Note,
    /// Wait for the process to exit for at most this time.
    Wait { at_most_ms: u64 },
    /// Kill the process with all that it has started.
    Kill,
    Collect,
    /// The evaluation is done: what it gives, and what is noted of its process.
    Finish { result: Result<Json, ReplEvalError>, mark: ProcessMark },
    /// The event does not belong here.
    Ignore,
}

pub enum EvalActionView {
    Start { candidate: usize },
    Note,
    Wait { at_most_ms: u64 },
    Kill,
    Collect,
    Finish { result: Result<JsonView, ReplErrorView>, mark: ProcessMarkView },
    Ignore,
}

impl View for EvalAction {
    type V = EvalActionView;

    open spec fn view(&self) -> EvalActionView {
        match self {
            EvalAction::Start { candidate } => EvalActionView::Start { candidate: *candidate },
            EvalAction::Note => EvalActionView::Note,
            EvalAction::Wait { at_most_ms } => EvalActionView::Wait { at_most_ms: *at_most_ms },
            EvalAction::Kill => EvalActionView::Kill,
            EvalAction::Collect => EvalActionView::Collect,
            EvalAction::Finish { result, mark } => EvalActionView::Finish {
                result: match result {
                    Ok(v) => Ok(v@),
                    Err(e) => Err(e@),
                },
                mark: mark@,
            },
            EvalAction::Ignore => EvalActionView::Ignore,
        }
    }
}

/// What an evaluation is about.
pub struct EvalView {
    pub eval_id: Seq<char>,
    pub language: Seq<char>,
    pub timeout_ms: u64,
    pub candidates: Seq<CandidateView>,
}

/// What an evaluation gives back, given its outputs as texts.
pub open spec fn eval_json(
    eval: EvalView,
    candidate: int,
    pid: u32,
    success: bool,
    code: Option<i32>,
    stdout: Seq<char>,
    stderr: Seq<char>,
) -> JsonView {
    JsonView::Object(
        seq![
            ("eval_id"@, JsonView::String(eval.eval_id)),
            ("exit_code"@, json_integer(exit_code(code) as i64)),
            ("language"@, JsonView::String(eval.language)),
            ("pid"@, JsonView::Number(JsonNumber::Unsigned(pid as u64))),
            ("runtime"@, JsonView::String(eval.candidates[candidate].program)),
            ("stderr"@, JsonView::String(stderr)),
            ("stdout"@, JsonView::String(stdout)),
            ("success"@, JsonView::Bool(success)),
        ],
    )
}

pub open spec fn eval_failed(error: ReplErrorView, mark: ProcessMarkView) -> (
    EvalPhase,
    EvalActionView,
) {
    (EvalPhase::Over, EvalActionView::Finish { result: Err(error), mark })
}

/// What an evaluation does next.
pub open spec fn eval_step(eval: EvalView, phase: EvalPhase, event: EvalEvent) -> (
    EvalPhase,
    EvalActionView,
) {
    match (phase, event) {
        (EvalPhase::Starting { candidate }, EvalEvent::NotFound) => {
            let next = candidate + 1;
            if next < eval.candidates.len() {
                (
                    EvalPhase::Starting { candidate: next as usize },
                    EvalActionView::Start { candidate: next as usize },
                )
            } else {
                eval_failed(
                    ReplErrorView::MissingRuntime { language: eval.language },
                    ProcessMarkView::Untouched,
                )
            }
        },
        (EvalPhase::Starting { .. }, EvalEvent::NotStarted { message }) => eval_failed(
            ReplErrorView::SpawnFailed(message@),
            ProcessMarkView::Untouched,
        ),
        (EvalPhase::Starting { candidate }, EvalEvent::Started { pid }) => (
            EvalPhase::Noting { candidate, pid },
            EvalActionView::Note,
        ),
        (EvalPhase::Noting { .. }, EvalEvent::NotNoted { message }) => eval_failed(
            ReplErrorView::SpawnFailed(message@),
            ProcessMarkView::Untouched,
        ),
        (EvalPhase::Noting { candidate, pid }, EvalEvent::Noted) => (
            EvalPhase::Waiting { candidate, pid },
            EvalActionView::Wait { at_most_ms: eval.timeout_ms },
        ),
        (EvalPhase::Waiting { .. }, EvalEvent::WaitFailed { message }) => eval_failed(
            ReplErrorView::WaitFailed(message@),
            ProcessMarkView::Failed(message@),
        ),
        (EvalPhase::Waiting { .. }, EvalEvent::StillRunning) => (
            EvalPhase::Stopping,
            EvalActionView::Kill,
        ),
        (EvalPhase::Stopping, EvalEvent::Killed) => eval_failed(
            ReplErrorView::Timeout,
            ProcessMarkView::Failed("timeout"@),
        ),
        (EvalPhase::Waiting { candidate, pid }, EvalEvent::Exited) => (
            EvalPhase::Collecting { candidate, pid },
            EvalActionView::Collect,
        ),
        (EvalPhase::Collecting { .. }, EvalEvent::NotCollected { message }) => eval_failed(
            ReplErrorView::WaitFailed(message@),
            ProcessMarkView::Untouched,
        ),
        (
            EvalPhase::Collecting { candidate, pid },
            EvalEvent::Collected { success, code, stdout, stderr },
        ) => (
            EvalPhase::Over,
            EvalActionView::Finish {
                result: Ok(
                    eval_json(
                        eval,
                        candidate as int,
                        pid,
                        success,
                        code,
                        lossy_text(stdout@),
                        lossy_text(stderr@),
                    ),
                ),
                mark: ProcessMarkView::Completed(exit_code(code)),
            },
        ),
        _ => (phase, EvalActionView::Ignore),
    }
}

/// The evaluation of some code.
#[derive(Debug)]
pub struct ReplRunner {
    eval_id: String,
    language: String,
    timeout_ms: u64,
    candidates: Vec<RuntimeCandidate>,
    phase: EvalPhase,
}

impl View for ReplRunner {
    type V = EvalView;

    closed spec fn view(&self) -> EvalView {
        EvalView {
            eval_id: self.eval_id@,
            language: self.language@,
            timeout_ms: self.timeout_ms,
            candidates: candidate_views(self.candidates@),
        }
    }
}

/// The candidate of a phase is one of so many.
pub open spec fn phase_fits(phase: EvalPhase, candidates: nat) -> bool {
    match phase {
        EvalPhase::Starting { candidate } => candidate < candidates,
        EvalPhase::Noting { candidate, .. } => candidate < candidates,
        EvalPhase::Waiting { candidate, .. } => candidate < candidates,
        EvalPhase::Collecting { candidate, .. } => candidate < candidates,
        _ => true,
    }
}

impl ReplRunner {
    pub closed spec fn stage(self) -> EvalPhase {
        self.phase
    }

    pub open spec fn wf(self) -> bool {
        phase_fits(self.stage(), self@.candidates.len())
    }

    /// The evaluation that a request asks for, whose first candidate is to be started;
    /// refused if the language is not known.
    pub fn eval(request: &ReplEvalRequest) -> (r: Result<Self, ReplEvalError>)
        ensures
            match r {
                Ok(e) => {
                    &&& e.wf()
                    &&& e@ == EvalView {
                        eval_id: request.eval_id@,
                        language: request.language@,
                        timeout_ms: request.timeout_ms,
                        candidates: candidates_for(request.language@, request.code@),
                    }
                    &&& e.stage() == EvalPhase::Starting { candidate: 0 }
                },
                Err(e) => candidates_for(request.language@, request.code@).len() == 0 && e@ == (
                ReplErrorView::MissingRuntime { language: lower_text(request.language@) }),
            },
    {
        match runtime_candidates(request.language.as_str(), request.code.as_str()) {
            Ok(candidates) => {
                assert(candidate_views(candidates@).len() == candidates@.len());
                Ok(
                    ReplRunner {
                        eval_id: request.eval_id.clone(),
                        language: request.language.clone(),
                        timeout_ms: request.timeout_ms,
                        candidates,
                        phase: EvalPhase::Starting { candidate: 0 },
                    },
                )
            },
            Err(e) => Err(e),
        }
    }

    pub fn candidates(&self) -> (c: &[RuntimeCandidate])
        ensures
            candidate_views(c@) == self@.candidates,
    {
        self.candidates.as_slice()
    }

    /// Takes in what has become of the last action and says what to do next.
    pub fn step(&mut self, event: EvalEvent) -> (a: EvalAction)
        requires
            old(self).wf(),
        ensures
            final(self).wf(),
            final(self)@ == old(self)@,
            (final(self).stage(), a@) == eval_step(old(self)@, old(self).stage(), event),
    {
        match (self.phase, event) {
            (EvalPhase::Starting { candidate }, EvalEvent::NotFound) => {
                let n: usize = self.candidates.len();
                let next: usize = candidate + 1;
                if next < n {
                    self.phase = EvalPhase::Starting { candidate: next };
                    EvalAction::Start { candidate: next }
                } else {
                    self.phase = EvalPhase::Over;
                    EvalAction::Finish {
                        result: Err(
                            ReplEvalError::MissingRuntime { language: self.language.clone() },
                        ),
                        mark: ProcessMark::Untouched,
                    }
                }
            },
            (EvalPhase::Starting { candidate: _ }, EvalEvent::NotStarted { message }) => {
                self.phase = EvalPhase::Over;
                EvalAction::Finish {
                    result: Err(ReplEvalError::SpawnFailed(message)),
                    mark: ProcessMark::Untouched,
                }
            },
            (EvalPhase::Starting { candidate }, EvalEvent::Started { pid }) => {
                self.phase = EvalPhase::Noting { candidate, pid };
                EvalAction::Note
            },
            (EvalPhase::Noting { candidate: _, pid: _ }, EvalEvent::NotNoted { message }) => {
                self.phase = EvalPhase::Over;
                EvalAction::Finish {
                    result: Err(ReplEvalError::SpawnFailed(message)),
                    mark: ProcessMark::Untouched,
                }
            },
            (EvalPhase::Noting { candidate, pid }, EvalEvent::Noted) => {
                self.phase = EvalPhase::Waiting { candidate, pid };
                EvalAction::Wait { at_most_ms: self.timeout_ms }
            },
            (EvalPhase::Waiting { candidate: _, pid: _ }, EvalEvent::WaitFailed { message }) => {
                self.phase = EvalPhase::Over;
                EvalAction::Finish {
                    result: Err(ReplEvalError::WaitFailed(message.clone())),
                    mark: ProcessMark::Failed(message),
                }
            },
            (EvalPhase::Waiting { candidate: _, pid: _ }, EvalEvent::StillRunning) => {
                self.phase = EvalPhase::Stopping;
                EvalAction::Kill
            },
            (EvalPhase::Stopping, EvalEvent::Killed) => {
                self.phase = EvalPhase::Over;
                EvalAction::Finish {
                    result: Err(ReplEvalError::Timeout),
                    mark: ProcessMark::Failed("timeout".to_owned()),
                }
            },
            (EvalPhase::Waiting { candidate, pid }, EvalEvent::Exited) => {
                self.phase = EvalPhase::Collecting { candidate, pid };
                EvalAction::Collect
            },
            (EvalPhase::Collecting { candidate: _, pid: _ }, EvalEvent::NotCollected { message }) => {
                self.phase = EvalPhase::Over;
                EvalAction::Finish {
                    result: Err(ReplEvalError::WaitFailed(message)),
                    mark: ProcessMark::Untouched,
                }
            },
            (
                EvalPhase::Collecting { candidate, pid },
                EvalEvent::Collected { success, code, stdout, stderr },
            ) => {
                self.phase = EvalPhase::Over;
                let v = self.result_json(
                    candidate,
                    pid,
                    success,
                    code,
                    lossy_string(&stdout).as_str(),
                    lossy_string(&stderr).as_str(),
                );
                EvalAction::Finish {
                    result: Ok(v),
                    mark: ProcessMark::Completed(exit_code_of(code)),
                }
            },
            _ => EvalAction::Ignore,
        }
    }

    /// What the evaluation gives back, given its outputs as texts.
    pub fn result_json(
        &self,
        candidate: usize,
        pid: u32,
        success: bool,
        code: Option<i32>,
        stdout: &str,
        stderr: &str,
    ) -> (v: Json)
        requires
            candidate < self@.candidates.len(),
        ensures
            v@ == eval_json(self@, candidate as int, pid, success, code, stdout@, stderr@),
    {
        let v = Json::object().with("eval_id", Json::text(self.eval_id.as_str())).with(
            "exit_code",
            Json::integer(exit_code_of(code) as i64),
        ).with("language", Json::text(self.language.as_str())).with(
            "pid",
            Json::number(pid as u64),
        ).with("runtime", Json::text(self.candidates[candidate].program.as_str())).with(
            "stderr",
            Json::text(stderr),
        ).with("stdout", Json::text(stdout)).with("success", Json::Bool(success));
        assert(v@->Object_0 =~= eval_json(
            self@,
            candidate as int,
            pid,
            success,
            code,
            stdout@,
            stderr@,
        )->Object_0);
        v
    }
}

/// A program that is not there makes the next candidate be tried; only where there is
/// none left is the runtime missing.
pub proof fn law_every_candidate_is_tried(eval: EvalView, candidate: usize)
    requires
        candidate < eval.candidates.len() <= usize::MAX,
    ensures
        ({
            let (next, action) = eval_step(
                eval,
                EvalPhase::Starting { candidate },
                EvalEvent::NotFound,
            );
            if candidate + 1 < eval.candidates.len() {
                action == EvalActionView::Start { candidate: (candidate + 1) as usize } && next
                    == EvalPhase::Starting { candidate: (candidate + 1) as usize }
            } else {
                next is Over && action == EvalActionView::Finish {
                    result: Err(ReplErrorView::MissingRuntime { language: eval.language }),
                    mark: ProcessMarkView::Untouched,
                }
            }
        }),
{
}

/// An evaluation that is done stays done, and gives its result once.
pub proof fn law_an_evaluation_ends_once(eval: EvalView, phase: EvalPhase, event: EvalEvent)
    ensures
        ({
            let (next, action) = eval_step(eval, phase, event);
            &&& (action is Finish) ==> !(phase is Over) && next is Over
            &&& !(phase is Over) && next is Over ==> action is Finish
            &&& phase is Over ==> next is Over && action is Ignore
        }),
{
}

/// Whatever the language, the code is handed on as it is: it is the last argument of every
/// program that is tried. JavaScript has one program, Python two, other languages none, and
/// upper and lower case are the same.
pub proof fn law_the_code_is_handed_on_as_it_is(language: Seq<char>, code: Seq<char>, i: int)
    ensures
        ({
            let c = candidates_for(language, code);
            let l = lower_text(language);
            let javascript = l == "node"@ || l == "javascript"@ || l == "js"@;
            let python = l == "python"@ || l == "py"@;
            &&& 0 <= i < c.len() ==> c[i].args.last() == code
            &&& javascript ==> c.len() == 1 && c[0].program == "node"@ && c[0].args[0] == "-e"@
            &&& !javascript && python ==> c.len() == 2 && c[0].program == "python"@
                && c[1].program == "py"@
            &&& !javascript && !python ==> c.len() == 0
        }),
{
}

/// An evaluation, from its start to its end: the process has its time, and what it wrote is
/// given back with its exit code, whether it succeeded, its program and its number.
pub proof fn law_an_evaluation_gives_what_was_written(
    eval: EvalView,
    candidate: usize,
    pid: u32,
    collected: EvalEvent,
)
    requires
        collected is Collected,
        candidate < eval.candidates.len(),
    ensures
        eval_step(eval, EvalPhase::Starting { candidate }, EvalEvent::Started { pid }) == (
            EvalPhase::Noting { candidate, pid },
            EvalActionView::Note,
        ),
        eval_step(eval, EvalPhase::Noting { candidate, pid }, EvalEvent::Noted) == (
            EvalPhase::Waiting { candidate, pid },
            EvalActionView::Wait { at_most_ms: eval.timeout_ms },
        ),
        eval_step(eval, EvalPhase::Waiting { candidate, pid }, EvalEvent::Exited) == (
            EvalPhase::Collecting { candidate, pid },
            EvalActionView::Collect,
        ),
        eval_step(eval, EvalPhase::Waiting { candidate, pid }, EvalEvent::StillRunning) == (
            EvalPhase::Stopping,
            EvalActionView::Kill,
        ),
        match eval_step(eval, EvalPhase::Stopping, EvalEvent::Killed) {
            (over, EvalActionView::Finish { result, mark }) => over == EvalPhase::Over && result
                == Err::<JsonView, ReplErrorView>(ReplErrorView::Timeout) && mark is Failed,
            _ => false,
        },
        match eval_step(eval, EvalPhase::Collecting { candidate, pid }, collected) {
            (over, EvalActionView::Finish { result, mark }) => {
                &&& over == EvalPhase::Over
                &&& result is Ok
                &&& shows(
                    result->Ok_0,
                    "stdout"@,
                    JsonView::String(lossy_text(collected->stdout@)),
                )
                &&& shows(
                    result->Ok_0,
                    "stderr"@,
                    JsonView::String(lossy_text(collected->stderr@)),
                )
                &&& shows(result->Ok_0, "success"@, JsonView::Bool(collected->success))
                &&& shows(result->Ok_0, "eval_id"@, JsonView::String(eval.eval_id))
                &&& shows(result->Ok_0, "language"@, JsonView::String(eval.language))
                &&& shows(
                    result->Ok_0,
                    "runtime"@,
                    JsonView::String(eval.candidates[candidate as int].program),
                )
                &&& shows(
                    result->Ok_0,
                    "pid"@,
                    JsonView::Number(JsonNumber::Unsigned(pid as u64)),
                )
                &&& collected->code is Some ==> shows(
                    result->Ok_0,
                    "exit_code"@,
                    json_integer(collected->code->0 as i64),
                ) && mark == ProcessMarkView::Completed(collected->code->0)
                &&& collected->code is None ==> shows(
                    result->Ok_0,
                    "exit_code"@,
                    json_integer(-1i64),
                )
                &&& result->Ok_0->Object_0.len() == 8
            },
            _ => false,
        },
{
    let r = eval_json(
        eval,
        candidate as int,
        pid,
        collected->success,
        collected->code,
        lossy_text(collected->stdout@),
        lossy_text(collected->stderr@),
    );
    lemma_shows(r, 0);
    lemma_shows(r, 1);
    lemma_shows(r, 2);
    lemma_shows(r, 3);
    lemma_shows(r, 4);
    lemma_shows(r, 5);
    lemma_shows(r, 6);
    lemma_shows(r, 7);
}

/// How evaluations fail: with what came from outside as the message.
pub proof fn law_how_evaluations_fail(eval: EvalView, candidate: usize, pid: u32, event: EvalEvent)
    ensures
        match event {
            EvalEvent::NotStarted { message } => ends_with_error(
                eval_step(eval, EvalPhase::Starting { candidate }, event),
                ReplErrorView::SpawnFailed(message@),
            ),
            EvalEvent::NotNoted { message } => ends_with_error(
                eval_step(eval, EvalPhase::Noting { candidate, pid }, event),
                ReplErrorView::SpawnFailed(message@),
            ),
            EvalEvent::WaitFailed { message } => ends_with_error(
                eval_step(eval, EvalPhase::Waiting { candidate, pid }, event),
                ReplErrorView::WaitFailed(message@),
            ),
            EvalEvent::NotCollected { message } => ends_with_error(
                eval_step(eval, EvalPhase::Collecting { candidate, pid }, event),
                ReplErrorView::WaitFailed(message@),
            ),
            _ => true,
        },
{
}

/// The evaluation is over with this error.
pub open spec fn ends_with_error(
    end: (EvalPhase, EvalActionView),
    error: ReplErrorView,
) -> bool {
    match end {
        (EvalPhase::Over, EvalActionView::Finish { result, .. }) => result == Err::<
            JsonView,
            ReplErrorView,
        >(error),
        _ => false,
    }
}

} // verus!
