//! The daemon: its arguments, and the answer to a line that is no command.
use vstd::prelude::*;

use crate::json::{json_from_str, json_get, json_read, json_text_of, Json, JsonView};
use crate::protocol::command::CommandResponse;
use crate::protocol::error::{plain_error, CoreError, ErrorCode};
use crate::text::{chars_of, same_text, string_of_range, texts, trim_range, trimmed};

verus! {

pub const DAEMON_NAME: &'static str = "lingxiao-core-daemon";

pub const DAEMON_VERSION: &'static str = "0.1.0";

/// The name and the version of the daemon.
pub fn daemon_info() -> (s: String)
    ensures
        s@ == DAEMON_NAME@ + " v"@ + DAEMON_VERSION@,
{
    let mut s = DAEMON_NAME.to_owned();
    s.append(" v");
    s.append(DAEMON_VERSION);
    s
}

/// The name and the version of the daemon, with the version of the compiler where it
/// is known.
pub fn build_info(rust_version: Option<&str>) -> (s: String)
    ensures
        s@ == DAEMON_NAME@ + " v"@ + DAEMON_VERSION@ + " (rustc "@ + (match rust_version {
            Some(v) => v@,
            None => "unknown"@,
        }) + ")"@,
{
    let mut s = daemon_info();
    s.append(" (rustc ");
    match rust_version {
        Some(v) => {
            s.append(v);
        },
        None => {
            s.append("unknown");
        },
    }
    s.append(")");
    s
}

/// The argument that follows the first `flag` that any argument follows.
pub open spec fn flag_value(args: Seq<Seq<char>>, flag: Seq<char>, from: int) -> Option<Seq<char>>
    decreases args.len() - from,
{
    if from + 1 >= args.len() {
        None
    } else if args[from] == flag {
        Some(args[from + 1])
    } else {
        flag_value(args, flag, from + 1)
    }
}

pub fn parse_flag_value(args: &[String], flag: &str) -> (r: Option<String>)
    ensures
        crate::text::opt_text(r) == flag_value(texts(args@), flag@, 0),
{
    let ghost all = texts(args@);
    let mut i: usize = 0;
    while args.len() > 0 && i < args.len() - 1
        invariant
            i <= args@.len(),
            all == texts(args@),
            flag_value(all, flag@, 0) == flag_value(all, flag@, i as int),
        decreases args@.len() - i,
    {
        if same_text(args[i].as_str(), flag) {
            return Some(args[i + 1].clone());
        }
        i += 1;
    }
    None
}

/// The path of the store in the arguments of `serve`.
pub fn parse_serve_db_path(args: &[String]) -> (r: Option<String>)
    ensures
        crate::text::opt_text(r) == flag_value(texts(args@), "--db"@, 0),
{
    parse_flag_value(args, "--db")
}

/// The id that a value gives for a request, or a general one.
pub open spec fn request_id_of(v: Option<JsonView>) -> Seq<char> {
    match v {
        Some(v) => match json_text_of(json_get(v, "request_id"@)) {
            Some(id) => id,
            None => "invalid-json"@,
        },
        None => "invalid-json"@,
    }
}

/// The id that a value gives for a request.
pub fn request_id_in(v: Option<&Json>) -> (s: String)
    ensures
        s@ == request_id_of(
            match v {
                Some(v) => Some(v@),
                None => None,
            },
        ),
{
    if let Some(v) = v {
        if let Some(id) = v.get("request_id") {
            if let Some(s) = id.as_str() {
                return s.to_owned();
            }
        }
    }
    "invalid-json".to_owned()
}

pub open spec fn read_value(text: Seq<char>) -> Option<JsonView> {
    match json_read(text) {
        Ok(v) => Some(v),
        Err(_) => None,
    }
}

/// The id of the request that a line holds, as far as one can be read from it.
pub fn try_extract_request_id(line: &str) -> (s: String)
    ensures
        s@ == request_id_of(read_value(line@)),
{
    match json_from_str(line) {
        Ok(v) => request_id_in(Some(&v)),
        Err(_) => request_id_in(None),
    }
}

/// The response to a line that is no command.
pub fn malformed_line_response(line: &str) -> (r: CommandResponse)
    ensures
        r.request_id@ == request_id_of(read_value(line@)),
        !r.success,
        r.result is None,
        r.error is Some,
        r.error->0@ == plain_error(ErrorCode::Serialization, "Malformed command JSON"@),
        r.events@.len() == 0,
        r.latest_seq is None,
{
    let request_id = try_extract_request_id(line);
    CommandResponse::err(
        request_id,
        CoreError::new(ErrorCode::Serialization, "Malformed command JSON"),
    )
}

/// A line without the white space around it, unless nothing else is on it: such lines
/// are passed over.
pub fn command_text(line: &str) -> (r: Option<String>)
    ensures
        match r {
            Some(s) => s@ == trimmed(line@) && s@.len() > 0,
            None => trimmed(line@).len() == 0,
        },
{
    let v = chars_of(line);
    let (from, to) = trim_range(&v);
    if from == to {
        None
    } else {
        Some(string_of_range(&v, from, to))
    }
}

/// What the daemon is asked to do.
#[derive(Debug, Clone, PartialEq, Eq)]
pub enum DaemonCommand {
    Version,
    Help,
    Serve { db_path: String, runtime_config: Option<String> },
    /// `serve` without the path of the store.
    MissingDbPath,
    Unknown { name: String },
}

/// The first argument, or `help` where there is none.
pub open spec fn command_name(args: Seq<Seq<char>>) -> Seq<char> {
    if args.len() > 1 {
        args[1]
    } else {
        "help"@
    }
}

pub open spec fn asks_for_version(name: Seq<char>) -> bool {
    name == "version"@ || name == "--version"@ || name == "-V"@
}

pub open spec fn asks_for_help(name: Seq<char>) -> bool {
    name == "help"@ || name == "--help"@ || name == "-h"@
}

pub enum DaemonCommandView {
    Version,
    Help,
    Serve { db_path: Seq<char>, runtime_config: Option<Seq<char>> },
    MissingDbPath,
    Unknown { name: Seq<char> },
}

impl View for DaemonCommand {
    type V = DaemonCommandView;

    open spec fn view(&self) -> DaemonCommandView {
        match self {
            DaemonCommand::Version => DaemonCommandView::Version,
            DaemonCommand::Help => DaemonCommandView::Help,
            DaemonCommand::Serve { db_path, runtime_config } => DaemonCommandView::Serve {
                db_path: db_path@,
                runtime_config: crate::text::opt_text(*runtime_config),
            },
            DaemonCommand::MissingDbPath => DaemonCommandView::MissingDbPath,
            DaemonCommand::Unknown { name } => DaemonCommandView::Unknown { name: name@ },
        }
    }
}

/// What the arguments of the daemon ask it to do.
pub open spec fn command_of(args: Seq<Seq<char>>) -> DaemonCommandView {
    let name = command_name(args);
    if asks_for_version(name) {
        DaemonCommandView::Version
    } else if asks_for_help(name) {
        DaemonCommandView::Help
    } else if name == "serve"@ {
        match flag_value(args, "--db"@, 0) {
            Some(db_path) => DaemonCommandView::Serve {
                db_path,
                runtime_config: flag_value(args, "--runtime-config"@, 0),
            },
            None => DaemonCommandView::MissingDbPath,
        }
    } else {
        DaemonCommandView::Unknown { name }
    }
}

/// Reads the arguments of the daemon, the first of which is its own name.
pub fn parse_command(args: &[String]) -> (c: DaemonCommand)
    ensures
        c@ == command_of(texts(args@)),
        ({
            let all = texts(args@);
            let name = command_name(all);
            if asks_for_version(name) {
                c is Version
            } else if asks_for_help(name) {
                c is Help
            } else if name == "serve"@ {
                match flag_value(all, "--db"@, 0) {
                    Some(path) => match c {
                        DaemonCommand::Serve { db_path, runtime_config } => db_path@ == path
                            && crate::text::opt_text(runtime_config) == flag_value(
                            all,
                            "--runtime-config"@,
                            0,
                        ),
                        _ => false,
                    },
                    None => c is MissingDbPath,
                }
            } else {
                match c {
                    DaemonCommand::Unknown { name: n } => n@ == name,
                    _ => false,
                }
            }
        }),
{
    let name = if args.len() > 1 {
        args[1].clone()
    } else {
        "help".to_owned()
    };
    assert(name@ == command_name(texts(args@)));
    let n = name.as_str();
    if same_text(n, "version") || same_text(n, "--version") || same_text(n, "-V") {
        return DaemonCommand::Version;
    }
    if same_text(n, "help") || same_text(n, "--help") || same_text(n, "-h") {
        return DaemonCommand::Help;
    }
    if same_text(n, "serve") {
        return match parse_serve_db_path(args) {
            Some(db_path) => DaemonCommand::Serve {
                db_path,
                runtime_config: parse_flag_value(args, "--runtime-config"),
            },
            None => DaemonCommand::MissingDbPath,
        };
    }
    DaemonCommand::Unknown { name }
}

/// The value of a flag is what stands behind its first occurrence; a flag with nothing
/// behind it has none.
pub proof fn law_a_flag_has_the_value_behind_it(args: Seq<Seq<char>>, flag: Seq<char>, i: int)
    requires
        0 <= i,
        i + 1 < args.len(),
        forall|j: int| 0 <= j < i ==> #[trigger] args[j] != flag,
    ensures
        args[i] == flag ==> flag_value(args, flag, 0) == Some(args[i + 1]),
        i + 2 == args.len() && args[i] != flag ==> flag_value(args, flag, 0) is None,
{
    lemma_flag_from(args, flag, 0, i);
    reveal_with_fuel(flag_value, 2);
}

proof fn lemma_flag_from(args: Seq<Seq<char>>, flag: Seq<char>, from: int, i: int)
    requires
        0 <= from <= i,
        i + 1 < args.len(),
        forall|j: int| 0 <= j < i ==> #[trigger] args[j] != flag,
    ensures
        flag_value(args, flag, from) == flag_value(args, flag, i),
    decreases i - from,
{
    if from < i {
        assert(args[from] != flag);
        lemma_flag_from(args, flag, from + 1, i);
    }
}

/// What the daemon is asked, by its first argument: its version, help, to serve a store, or
/// something that it does not know; nothing is a call for help.
pub proof fn law_what_the_daemon_is_asked(args: Seq<Seq<char>>)
    ensures
        args.len() <= 1 ==> command_of(args) is Help,
        args.len() > 1 && (args[1] == "version"@ || args[1] == "--version"@ || args[1] == "-V"@)
            ==> command_of(args) is Version,
        args.len() > 1 && (args[1] == "help"@ || args[1] == "--help"@ || args[1] == "-h"@)
            ==> command_of(args) is Help,
        args.len() > 1 && args[1] == "serve"@ ==> match command_of(args) {
            DaemonCommandView::Serve { db_path, runtime_config } => Some(db_path) == flag_value(
                args,
                "--db"@,
                0,
            ) && runtime_config == flag_value(args, "--runtime-config"@, 0),
            DaemonCommandView::MissingDbPath => flag_value(args, "--db"@, 0) is None,
            _ => false,
        },
        match command_of(args) {
            DaemonCommandView::Unknown { name } => args.len() > 1 && name == args[1],
            _ => true,
        },
{
    reveal_strlit("version");
    reveal_strlit("--version");
    reveal_strlit("-V");
    reveal_strlit("help");
    reveal_strlit("--help");
    reveal_strlit("-h");
    reveal_strlit("serve");
    assert("help"@.len() != "version"@.len() && "help"@.len() != "--version"@.len()
        && "help"@.len() != "-V"@.len());
    assert("--help"@.len() != "version"@.len() && "--help"@.len() != "--version"@.len()
        && "--help"@.len() != "-V"@.len());
    assert("-h"@.len() != "version"@.len() && "-h"@.len() != "--version"@.len());
    assert("-h"@[1] != "-V"@[1]);
    assert("serve"@.len() == 5);
}

/// A line that is no command is answered under the id that it gives for its request, where
/// it gives one as a text; else under a general one.
pub proof fn law_a_bad_line_is_answered_under_its_id(line: Seq<char>, v: JsonView, id: Seq<char>)
    ensures
        json_read(line) == Ok::<JsonView, Seq<char>>(v) && json_get(v, "request_id"@) == Some(
            JsonView::String(id),
        ) ==> request_id_of(read_value(line)) == id,
        json_read(line) is Err ==> request_id_of(read_value(line)) == "invalid-json"@,
        json_read(line) == Ok::<JsonView, Seq<char>>(v) && json_get(v, "request_id"@) is None
            ==> request_id_of(read_value(line)) == "invalid-json"@,
{
}

} // verus!
