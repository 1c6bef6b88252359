//! Terminals that stay open: shells that text is sent to and read from.
use vstd::prelude::*;

use crate::json::{lemma_shows, shows, Json, JsonView};
use crate::output::{last_bytes, tail_utf8};
use crate::projection::{json_opt_integer, opt_integer};
use crate::str_map::{lemma_pairs_map, pairs_map, StrMap};
use crate::text::{clone_opt, lossy_text, opt_text, texts};
use crate::text_order::{lemma_sorted_texts, sort_strings, sorted_texts, text_order};
use vstd::relations::sorted_by;

verus! {

#[derive(Debug, Clone)]
pub struct TerminalCreateOptions {
    pub terminal_id: String,
    pub shell: Option<String>,
    pub args: Vec<String>,
    pub cwd: Option<String>,
}

#[derive(Debug, Clone, PartialEq, Eq)]
pub struct TerminalCreated {
    pub terminal_id: String,
    pub pid: u32,
    pub shell: String,
    pub cwd: Option<String>,
}

#[derive(Debug, Clone, PartialEq, Eq)]
pub struct TerminalRead {
    pub terminal_id: String,
    pub stdout: String,
    pub stderr: String,
    pub running: bool,
    pub exit_code: Option<i32>,
}

/// The shell to run and its arguments: as asked for, or that of the system, whose
/// arguments are then its own.
pub open spec fn shell_line(
    shell: Option<Seq<char>>,
    args: Seq<Seq<char>>,
    windows: bool,
) -> (Seq<char>, Seq<Seq<char>>) {
    match shell {
        Some(shell) => (shell, args),
        None => if windows {
            ("cmd.exe"@, seq!["/Q"@, "/K"@])
        } else {
            ("sh"@, Seq::empty())
        },
    }
}

pub fn shell_command(shell: Option<String>, args: Vec<String>, windows: bool) -> (r: (
    String,
    Vec<String>,
))
    ensures
        (r.0@, texts(r.1@)) == shell_line(opt_text(shell), texts(args@), windows),
{
    match shell {
        Some(shell) => (shell, args),
        None => if windows {
            let r = vec!["/Q".to_owned(), "/K".to_owned()];
            assert(texts(r@) =~= seq!["/Q"@, "/K"@]);
            ("cmd.exe".to_owned(), r)
        } else {
            let r: Vec<String> = Vec::new();
            assert(texts(r@) =~= Seq::empty());
            ("sh".to_owned(), r)
        },
    }
}

/// What a terminal has shown, as JSON.
pub open spec fn read_json(r: TerminalRead) -> JsonView {
    JsonView::Object(
        seq![
            (
                "exit_code"@,
                json_opt_integer(
                    match r.exit_code {
                        Some(code) => Some(code as i64),
                        None => None,
                    },
                ),
            ),
            ("running"@, JsonView::Bool(r.running)),
            ("stderr"@, JsonView::String(r.stderr@)),
            ("stdout"@, JsonView::String(r.stdout@)),
            ("terminal_id"@, JsonView::String(r.terminal_id@)),
        ],
    )
}

pub fn terminal_read_json(read: TerminalRead) -> (v: Json)
    ensures
        v@ == read_json(read),
{
    let code: Option<i64> = match read.exit_code {
        Some(code) => Some(code as i64),
        None => None,
    };
    let v = Json::object().with("exit_code", opt_integer(code)).with(
        "running",
        Json::Bool(read.running),
    ).with("stderr", Json::text(read.stderr.as_str())).with(
        "stdout",
        Json::text(read.stdout.as_str()),
    ).with("terminal_id", Json::text(read.terminal_id.as_str()));
    assert(v@->Object_0 =~= read_json(read)->Object_0);
    v
}

/// What is noted of the process of a terminal after an operation.
#[derive(Debug, Clone, Copy, PartialEq, Eq, Structural)]
pub enum TerminalMark {
    /// Nothing.
    Untouched,
    /// It has exited, with this code unless a signal ended it.
    Completed(Option<i32>),
}

/// What came of starting a shell.
#[derive(Debug)]
pub enum CreateEvent {
    NotStarted { message: String },
    /// The shell has no input to write to.
    NoStdin,
    NoStdout,
    NoStderr,
    /// The process could not be noted; it was killed.
    NotNoted { message: String },
    /// The shell runs and can be reached by this handle.
    Running { pid: u32, handle: usize },
}

/// Why a terminal was not opened.
pub open spec fn create_error(event: CreateEvent) -> Option<Seq<char>> {
    match event {
        CreateEvent::NotStarted { message } => Some("terminal spawn failed: "@ + message@),
        CreateEvent::NoStdin => Some("terminal stdin unavailable"@),
        CreateEvent::NoStdout => Some("terminal stdout unavailable"@),
        CreateEvent::NoStderr => Some("terminal stderr unavailable"@),
        CreateEvent::NotNoted { message } => Some(
            "terminal process registration failed: "@ + message@,
        ),
        CreateEvent::Running { .. } => None,
    }
}

/// What came of sending text to a shell.
#[derive(Debug)]
pub enum SendEvent {
    StatusFailed { message: String },
    /// The shell has exited before.
    Exited { code: Option<i32> },
    WriteFailed { message: String },
    FlushFailed { message: String },
    Sent,
}

/// How a shell is.
#[derive(Debug)]
pub enum StatusEvent {
    StatusFailed { message: String },
    Running,
    Exited { code: Option<i32> },
}

/// What came of killing a shell.
#[derive(Debug)]
pub enum KillEvent {
    StatusFailed { message: String },
    /// The shell has exited before.
    Exited { code: Option<i32> },
    KillFailed { message: String },
    WaitFailed { message: String },
    Killed { code: Option<i32> },
}

fn prefixed(prefix: &str, message: &str) -> (s: String)
    ensures
        s@ == prefix@ + message@,
{
    let mut s = prefix.to_owned();
    s.append(message);
    s
}

/// What sending a text gives, and what is noted: the bytes sent, or why not.
pub open spec fn send_outcome(id: Seq<char>, input: Seq<char>, event: SendEvent) -> (
    Result<nat, Seq<char>>,
    TerminalMark,
) {
    match event {
        SendEvent::StatusFailed { message } => (
            Err("terminal status failed: "@ + message@),
            TerminalMark::Untouched,
        ),
        SendEvent::Exited { code } => (
            Err("terminal session exited: "@ + id),
            TerminalMark::Completed(code),
        ),
        SendEvent::WriteFailed { message } => (
            Err("terminal write failed: "@ + message@),
            TerminalMark::Untouched,
        ),
        SendEvent::FlushFailed { message } => (
            Err("terminal flush failed: "@ + message@),
            TerminalMark::Untouched,
        ),
        SendEvent::Sent => (Ok(vstd::utf8::encode_utf8(input).len()), TerminalMark::Untouched),
    }
}

/// The view of the number of bytes sent, or of the reason for none.
pub open spec fn sent_view(r: Result<usize, String>) -> Result<nat, Seq<char>> {
    match r {
        Ok(n) => Ok(n as nat),
        Err(e) => Err(e@),
    }
}

/// What sending a text to a terminal gives.
pub fn send_result(terminal_id: &str, input: &str, event: SendEvent) -> (r: (
    Result<usize, String>,
    TerminalMark,
))
    ensures
        (sent_view(r.0), r.1) == send_outcome(terminal_id@, input@, event),
{
    match event {
        SendEvent::StatusFailed { message } => (
            Err(prefixed("terminal status failed: ", message.as_str())),
            TerminalMark::Untouched,
        ),
        SendEvent::Exited { code } => (
            Err(prefixed("terminal session exited: ", terminal_id)),
            TerminalMark::Completed(code),
        ),
        SendEvent::WriteFailed { message } => (
            Err(prefixed("terminal write failed: ", message.as_str())),
            TerminalMark::Untouched,
        ),
        SendEvent::FlushFailed { message } => (
            Err(prefixed("terminal flush failed: ", message.as_str())),
            TerminalMark::Untouched,
        ),
        SendEvent::Sent => (Ok(input.as_bytes().len()), TerminalMark::Untouched),
    }
}

/// What reading from a terminal gives: the end of each of its outputs, and whether
/// the shell still runs.
pub fn read_result(
    terminal_id: &str,
    status: StatusEvent,
    stdout: &[u8],
    stderr: &[u8],
    max_bytes: usize,
) -> (r: (Result<TerminalRead, String>, TerminalMark))
    ensures
        (read_view(r.0), r.1) == read_outcome(
            terminal_id@,
            status,
            stdout@,
            stderr@,
            max_bytes as nat,
        ),
        match status {
            StatusEvent::StatusFailed { message } => r.0 is Err && r.0->Err_0@
                == "terminal status failed: "@ + message@ && r.1 == TerminalMark::Untouched,
            _ => {
                let code = match status {
                    StatusEvent::Exited { code } => code,
                    _ => None,
                };
                &&& r.0 is Ok
                &&& r.0->Ok_0.terminal_id@ == terminal_id@
                &&& r.0->Ok_0.stdout@ == lossy_text(last_bytes(stdout@, max_bytes as nat))
                &&& r.0->Ok_0.stderr@ == lossy_text(last_bytes(stderr@, max_bytes as nat))
                &&& r.0->Ok_0.running == (status is Running)
                &&& r.0->Ok_0.exit_code == code
                &&& r.1 == if status is Exited {
                    TerminalMark::Completed(code)
                } else {
                    TerminalMark::Untouched
                }
            },
        },
{
    let (running, exit_code, mark) = match status {
        StatusEvent::StatusFailed { message } => {
            return (
                Err(prefixed("terminal status failed: ", message.as_str())),
                TerminalMark::Untouched,
            );
        },
        StatusEvent::Running => (true, None, TerminalMark::Untouched),
        StatusEvent::Exited { code } => (false, code, TerminalMark::Completed(code)),
    };
    let read = TerminalRead {
        terminal_id: terminal_id.to_owned(),
        stdout: tail_utf8(stdout, max_bytes),
        stderr: tail_utf8(stderr, max_bytes),
        running,
        exit_code,
    };
    (Ok(read), mark)
}

pub struct TerminalReadView {
    pub terminal_id: Seq<char>,
    pub stdout: Seq<char>,
    pub stderr: Seq<char>,
    pub running: bool,
    pub exit_code: Option<i32>,
}

impl View for TerminalRead {
    type V = TerminalReadView;

    open spec fn view(&self) -> TerminalReadView {
        TerminalReadView {
            terminal_id: self.terminal_id@,
            stdout: self.stdout@,
            stderr: self.stderr@,
            running: self.running,
            exit_code: self.exit_code,
        }
    }
}

pub open spec fn read_view(r: Result<TerminalRead, String>) -> Result<TerminalReadView, Seq<char>> {
    match r {
        Ok(read) => Ok(read@),
        Err(e) => Err(e@),
    }
}

/// What reading a terminal gives, and what is noted: the end of what it has shown, with how
/// the shell is.
pub open spec fn read_outcome(
    id: Seq<char>,
    status: StatusEvent,
    stdout: Seq<u8>,
    stderr: Seq<u8>,
    max_bytes: nat,
) -> (Result<TerminalReadView, Seq<char>>, TerminalMark) {
    match status {
        StatusEvent::StatusFailed { message } => (
            Err("terminal status failed: "@ + message@),
            TerminalMark::Untouched,
        ),
        StatusEvent::Running => (
            Ok(
                TerminalReadView {
                    terminal_id: id,
                    stdout: lossy_text(last_bytes(stdout, max_bytes)),
                    stderr: lossy_text(last_bytes(stderr, max_bytes)),
                    running: true,
                    exit_code: None,
                },
            ),
            TerminalMark::Untouched,
        ),
        StatusEvent::Exited { code } => (
            Ok(
                TerminalReadView {
                    terminal_id: id,
                    stdout: lossy_text(last_bytes(stdout, max_bytes)),
                    stderr: lossy_text(last_bytes(stderr, max_bytes)),
                    running: false,
                    exit_code: code,
                },
            ),
            TerminalMark::Completed(code),
        ),
    }
}

/// The open terminals after a shell was to be started for one.
pub open spec fn opened(
    sessions: Map<Seq<char>, usize>,
    id: Seq<char>,
    event: CreateEvent,
) -> Map<Seq<char>, usize> {
    match event {
        CreateEvent::Running { handle, .. } => sessions.insert(id, handle),
        _ => sessions,
    }
}

/// What killing a terminal gives, and what is noted: the code of the exit, or why the
/// shell could not be killed.
pub open spec fn kill_outcome(event: KillEvent) -> (Result<Option<i32>, Seq<char>>, TerminalMark) {
    match event {
        KillEvent::StatusFailed { message } => (
            Err("terminal status failed: "@ + message@),
            TerminalMark::Untouched,
        ),
        KillEvent::KillFailed { message } => (
            Err("terminal kill failed: "@ + message@),
            TerminalMark::Untouched,
        ),
        KillEvent::WaitFailed { message } => (
            Err("terminal wait failed: "@ + message@),
            TerminalMark::Untouched,
        ),
        KillEvent::Exited { code } => (Ok(code), TerminalMark::Completed(code)),
        KillEvent::Killed { code } => (Ok(code), TerminalMark::Completed(code)),
    }
}

pub open spec fn killed_view(r: Result<Option<i32>, String>) -> Result<Option<i32>, Seq<char>> {
    match r {
        Ok(code) => Ok(code),
        Err(e) => Err(e@),
    }
}

/// What killing a terminal gives.
pub fn kill_result(event: KillEvent) -> (r: (Result<Option<i32>, String>, TerminalMark))
    ensures
        (killed_view(r.0), r.1) == kill_outcome(event),
{
    match event {
        KillEvent::StatusFailed { message } => (
            Err(prefixed("terminal status failed: ", message.as_str())),
            TerminalMark::Untouched,
        ),
        KillEvent::KillFailed { message } => (
            Err(prefixed("terminal kill failed: ", message.as_str())),
            TerminalMark::Untouched,
        ),
        KillEvent::WaitFailed { message } => (
            Err(prefixed("terminal wait failed: ", message.as_str())),
            TerminalMark::Untouched,
        ),
        KillEvent::Exited { code } => (Ok(code), TerminalMark::Completed(code)),
        KillEvent::Killed { code } => (Ok(code), TerminalMark::Completed(code)),
    }
}

/// The message for a terminal that is not open.
pub open spec fn not_live(id: Seq<char>) -> Seq<char> {
    "terminal session not live: "@ + id
}

/// The terminals that are open, each with the handle of its shell.
#[derive(Debug)]
pub struct TerminalManager {
    sessions: StrMap<usize>,
}

impl View for TerminalManager {
    type V = Map<Seq<char>, usize>;

    closed spec fn view(&self) -> Map<Seq<char>, usize> {
        self.sessions@
    }
}

impl TerminalManager {
    pub fn new() -> (m: Self)
        ensures
            m@ == Map::<Seq<char>, usize>::empty(),
    {
        TerminalManager { sessions: StrMap::new() }
    }

    /// Takes in what came of starting `shell` for a terminal: a shell that runs is the
    /// terminal's from now on.
    pub fn create(
        &mut self,
        options: &TerminalCreateOptions,
        shell: &str,
        event: CreateEvent,
    ) -> (r: Result<TerminalCreated, String>)
        ensures
            final(self)@ == opened(old(self)@, options.terminal_id@, event),
            match create_error(event) {
                Some(message) => r is Err && r->Err_0@ == message && final(self)@ == old(self)@,
                None => {
                    &&& r is Ok
                    &&& r->Ok_0.terminal_id@ == options.terminal_id@
                    &&& r->Ok_0.pid == event->pid
                    &&& r->Ok_0.shell@ == shell@
                    &&& opt_text(r->Ok_0.cwd) == opt_text(options.cwd)
                    &&& final(self)@ == old(self)@.insert(options.terminal_id@, event->handle)
                },
            },
    {
        match event {
            CreateEvent::NotStarted { message } => Err(
                prefixed("terminal spawn failed: ", message.as_str()),
            ),
            CreateEvent::NoStdin => Err("terminal stdin unavailable".to_owned()),
            CreateEvent::NoStdout => Err("terminal stdout unavailable".to_owned()),
            CreateEvent::NoStderr => Err("terminal stderr unavailable".to_owned()),
            CreateEvent::NotNoted { message } => Err(
                prefixed("terminal process registration failed: ", message.as_str()),
            ),
            CreateEvent::Running { pid, handle } => {
                self.sessions.insert(options.terminal_id.as_str(), handle);
                Ok(
                    TerminalCreated {
                        terminal_id: options.terminal_id.clone(),
                        pid,
                        shell: shell.to_owned(),
                        cwd: clone_opt(&options.cwd),
                    },
                )
            },
        }
    }

    /// The handle of the shell of an open terminal.
    pub fn session(&self, terminal_id: &str) -> (r: Result<usize, String>)
        ensures
            match r {
                Ok(handle) => self@.contains_key(terminal_id@) && self@[terminal_id@] == handle,
                Err(e) => !self@.contains_key(terminal_id@) && e@ == not_live(terminal_id@),
            },
    {
        match self.sessions.get(terminal_id) {
            Some(handle) => Ok(*handle),
            None => Err(prefixed("terminal session not live: ", terminal_id)),
        }
    }

    /// Closes a terminal and gives the handle of its shell, which is to be killed.
    pub fn kill(&mut self, terminal_id: &str) -> (r: Result<usize, String>)
        ensures
            final(self)@ == old(self)@.remove(terminal_id@),
            match r {
                Ok(handle) => old(self)@.contains_key(terminal_id@) && old(self)@[terminal_id@]
                    == handle,
                Err(e) => !old(self)@.contains_key(terminal_id@) && e@ == not_live(terminal_id@),
            },
    {
        match self.sessions.remove(terminal_id) {
            Some(handle) => Ok(handle),
            None => Err(prefixed("terminal session not live: ", terminal_id)),
        }
    }

    /// The names of the open terminals, each once, in alphabetical order.
    pub fn live_session_ids(&self) -> (ids: Vec<String>)
        ensures
            sorted_by(texts(ids@), text_order()),
            texts(ids@).no_duplicates(),
            texts(ids@).to_set() =~= self@.dom(),
    {
        let entries = self.sessions.entries();
        let mut ids: Vec<String> = Vec::new();
        let mut i: usize = 0;
        while i < entries.len()
            invariant
                i <= entries@.len(),
                ids@.len() == i,
                forall|j: int| 0 <= j < i ==> #[trigger] ids@[j]@ == entries@[j].0@,
            decreases entries@.len() - i,
        {
            ids.push(entries[i].0.clone());
            i += 1;
        }
        let ghost keys = texts(ids@);
        let r = sort_strings(ids);
        proof {
            lemma_sorted_texts(keys);
            lemma_pairs_map(entries@);
            assert(pairs_map(entries@) == self@);
            assert(keys.no_duplicates()) by {
                assert forall|a: int, b: int| 0 <= a < b < keys.len() implies keys[a]
                    != keys[b] by {
                    assert(entries@[a].0@ != entries@[b].0@);
                }
            }
            keys.lemma_multiset_has_no_duplicates();
            assert(sorted_texts(keys).to_multiset() == keys.to_multiset());
            sorted_texts(keys).lemma_multiset_has_no_duplicates_conv();
            assert forall|k: Seq<char>| keys.contains(k) <==> self@.contains_key(k) by {
                if keys.contains(k) {
                    let a = choose|a: int| 0 <= a < keys.len() && keys[a] == k;
                    assert(entries@[a].0@ == k);
                }
                if self@.contains_key(k) {
                    let a = choose|a: int|
                        0 <= a < entries@.len() && (#[trigger] entries@[a]).0@ == k;
                    assert(keys[a] == k);
                }
            }
        }
        r
    }
}

impl Default for TerminalManager {
    fn default() -> (m: Self)
        ensures
            m@ == Map::<Seq<char>, usize>::empty(),
    {
        Self::new()
    }
}

/// A shell that is asked for is run with the arguments given; where none is asked for it is
/// that of the system, with its own arguments.
pub proof fn law_which_shell_is_run(shell: Seq<char>, args: Seq<Seq<char>>, windows: bool)
    ensures
        shell_line(Some(shell), args, windows) == (shell, args),
        shell_line(None, args, false).0 == "sh"@,
        shell_line(None, args, false).1.len() == 0,
        shell_line(None, args, true).0 == "cmd.exe"@,
        shell_line(None, args, true).1.len() == 2,
{
}

/// What is read from a terminal is the end of what it has shown, on both outputs, and
/// whether its shell runs; the exit of a shell is noted with its code.
pub proof fn law_what_is_read_from_a_terminal(
    id: Seq<char>,
    status: StatusEvent,
    stdout: Seq<u8>,
    stderr: Seq<u8>,
    max_bytes: nat,
)
    ensures
        ({
            let (r, mark) = read_outcome(id, status, stdout, stderr, max_bytes);
            &&& r is Err <==> status is StatusFailed
            &&& r is Ok ==> {
                &&& r->Ok_0.terminal_id == id
                &&& stdout.len() <= max_bytes ==> r->Ok_0.stdout == lossy_text(stdout)
                &&& stdout.len() > max_bytes ==> r->Ok_0.stdout == lossy_text(
                    stdout.skip(stdout.len() - max_bytes),
                )
                &&& stderr.len() <= max_bytes ==> r->Ok_0.stderr == lossy_text(stderr)
                &&& stderr.len() > max_bytes ==> r->Ok_0.stderr == lossy_text(
                    stderr.skip(stderr.len() - max_bytes),
                )
                &&& r->Ok_0.running <==> status is Running
            }
            &&& match status {
                StatusEvent::Exited { code } => r->Ok_0.exit_code == code && mark
                    == TerminalMark::Completed(code),
                _ => mark == TerminalMark::Untouched,
            }
            &&& status is Running ==> r->Ok_0.exit_code is None
        }),
{
}

/// What is read is shown as it is.
pub proof fn law_a_read_is_shown(r: TerminalRead)
    ensures
        shows(read_json(r), "terminal_id"@, JsonView::String(r.terminal_id@)),
        shows(read_json(r), "stdout"@, JsonView::String(r.stdout@)),
        shows(read_json(r), "stderr"@, JsonView::String(r.stderr@)),
        shows(read_json(r), "running"@, JsonView::Bool(r.running)),
        r.exit_code is None ==> shows(read_json(r), "exit_code"@, JsonView::Null),
        r.exit_code is Some ==> shows(
            read_json(r),
            "exit_code"@,
            crate::json::json_integer(r.exit_code->0 as i64),
        ),
        read_json(r)->Object_0.len() == 5,
{
    lemma_shows(read_json(r), 0);
    lemma_shows(read_json(r), 1);
    lemma_shows(read_json(r), 2);
    lemma_shows(read_json(r), 3);
    lemma_shows(read_json(r), 4);
}

/// A terminal is open from when its shell runs, with the handle of that shell; a start that
/// failed changes nothing, and no start touches other terminals.
pub proof fn law_a_terminal_is_open_while_its_shell_runs(
    sessions: Map<Seq<char>, usize>,
    id: Seq<char>,
    other: Seq<char>,
    event: CreateEvent,
)
    ensures
        create_error(event) is None <==> event is Running,
        event is Running ==> opened(sessions, id, event).contains_key(id) && opened(
            sessions,
            id,
            event,
        )[id] == event->handle,
        !(event is Running) ==> opened(sessions, id, event) == sessions,
        other != id ==> (opened(sessions, id, event).contains_key(other)
            <==> sessions.contains_key(other)),
        other != id && sessions.contains_key(other) ==> opened(sessions, id, event)[other]
            == sessions[other],
{
}

/// Sending succeeds with the number of bytes sent, or fails with what stopped it; the exit of
/// a shell that is met on the way is noted. Killing gives the code of the exit.
pub proof fn law_what_sending_and_killing_give(
    id: Seq<char>,
    input: Seq<char>,
    sent: SendEvent,
    killed: KillEvent,
)
    ensures
        match sent {
            SendEvent::Sent => send_outcome(id, input, sent) == (
                Ok::<nat, Seq<char>>(vstd::utf8::encode_utf8(input).len()),
                TerminalMark::Untouched,
            ),
            SendEvent::Exited { code } => send_outcome(id, input, sent).0 is Err && send_outcome(
                id,
                input,
                sent,
            ).1 == TerminalMark::Completed(code),
            _ => send_outcome(id, input, sent).0 is Err && send_outcome(id, input, sent).1
                == TerminalMark::Untouched,
        },
        match killed {
            KillEvent::Exited { code } => kill_outcome(killed) == (
                Ok::<Option<i32>, Seq<char>>(code),
                TerminalMark::Completed(code),
            ),
            KillEvent::Killed { code } => kill_outcome(killed) == (
                Ok::<Option<i32>, Seq<char>>(code),
                TerminalMark::Completed(code),
            ),
            _ => kill_outcome(killed).0 is Err && kill_outcome(killed).1
                == TerminalMark::Untouched,
        },
{
}

/// What is said of a terminal that is not open ends with its name.
pub proof fn law_a_missing_terminal_is_named(id: Seq<char>)
    ensures
        id.is_suffix_of(not_live(id)),
        "terminal session not live: "@.is_prefix_of(not_live(id)),
        not_live(id).len() == "terminal session not live: "@.len() + id.len(),
{
    let head = "terminal session not live: "@;
    assert(not_live(id).subrange(0, head.len() as int) =~= head);
    assert(not_live(id).subrange(head.len() as int, not_live(id).len() as int) =~= id);
}

} // verus!
