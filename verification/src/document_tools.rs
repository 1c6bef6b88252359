//! Reading the text of documents: plain files by themselves, others through a
//! program that has to be there.
use vstd::prelude::*;

use crate::json::{json_integer, lemma_shows, shows, Json, JsonNumber, JsonView};
use crate::output::{first_line, first_line_or};
use crate::process::{exit_code, exit_code_of, ProcessMark, ProcessMarkView};
use crate::text::{
    chars_of, line_list, lossy_string, lossy_text, lower_string, lower_text, same_text, split_lines,
    split_on, split_text, texts,
};

verus! {

#[derive(Debug, Clone, PartialEq, Eq)]
pub enum DocumentToolError {
    UnsafePath,
    MissingFile,
    MissingDependency { dependency: String },
    UnsupportedType { extension: String },
    ExternalFailed { dependency: String, message: String },
    Io(String),
    Timeout { dependency: String },
}

pub enum DocumentErrorView {
    UnsafePath,
    MissingFile,
    MissingDependency { dependency: Seq<char> },
    UnsupportedType { extension: Seq<char> },
    ExternalFailed { dependency: Seq<char>, message: Seq<char> },
    Io(Seq<char>),
    Timeout { dependency: Seq<char> },
}

impl View for DocumentToolError {
    type V = DocumentErrorView;

    open spec fn view(&self) -> DocumentErrorView {
        match self {
            DocumentToolError::UnsafePath => DocumentErrorView::UnsafePath,
            DocumentToolError::MissingFile => DocumentErrorView::MissingFile,
            DocumentToolError::MissingDependency { dependency } =>
                DocumentErrorView::MissingDependency { dependency: dependency@ },
            DocumentToolError::UnsupportedType { extension } =>
                DocumentErrorView::UnsupportedType { extension: extension@ },
            DocumentToolError::ExternalFailed { dependency, message } =>
                DocumentErrorView::ExternalFailed { dependency: dependency@, message: message@ },
            DocumentToolError::Io(m) => DocumentErrorView::Io(m@),
            DocumentToolError::Timeout { dependency } => DocumentErrorView::Timeout {
                dependency: dependency@,
            },
        }
    }
}

pub open spec fn payload_json(kind: Seq<char>, detail: Option<(Seq<char>, Seq<char>)>) -> JsonView {
    match detail {
        Some((name, value)) => JsonView::Object(
            seq![(name, JsonView::String(value)), ("kind"@, JsonView::String(kind))],
        ),
        None => JsonView::Object(seq![("kind"@, JsonView::String(kind))]),
    }
}

/// The kind of an error and what it is about, for callers that act on it; messages are
/// left out.
pub open spec fn error_payload(error: DocumentErrorView) -> JsonView {
    match error {
        DocumentErrorView::UnsafePath => payload_json("unsafe_path"@, None),
        DocumentErrorView::MissingFile => payload_json("missing_file"@, None),
        DocumentErrorView::MissingDependency { dependency } => payload_json(
            "missing_dependency"@,
            Some(("dependency"@, dependency)),
        ),
        DocumentErrorView::UnsupportedType { extension } => payload_json(
            "unsupported_type"@,
            Some(("extension"@, extension)),
        ),
        DocumentErrorView::ExternalFailed { dependency, .. } => payload_json(
            "external_failed"@,
            Some(("dependency"@, dependency)),
        ),
        DocumentErrorView::Io(_) => payload_json("io_error"@, None),
        DocumentErrorView::Timeout { dependency } => payload_json(
            "timeout"@,
            Some(("dependency"@, dependency)),
        ),
    }
}

fn kind_only(kind: &str) -> (v: Json)
    ensures
        v@ == payload_json(kind@, None),
{
    let v = Json::object().with("kind", Json::text(kind));
    assert(v@->Object_0 =~= payload_json(kind@, None)->Object_0);
    v
}

fn kind_with(kind: &str, name: &str, value: &str) -> (v: Json)
    ensures
        v@ == payload_json(kind@, Some((name@, value@))),
{
    let v = Json::object().with(name, Json::text(value)).with("kind", Json::text(kind));
    assert(v@->Object_0 =~= payload_json(kind@, Some((name@, value@)))->Object_0);
    v
}

pub fn document_error_payload(error: &DocumentToolError) -> (v: Json)
    ensures
        v@ == error_payload(error@),
{
    match error {
        DocumentToolError::UnsafePath => kind_only("unsafe_path"),
        DocumentToolError::MissingFile => kind_only("missing_file"),
        DocumentToolError::MissingDependency { dependency } => kind_with(
            "missing_dependency",
            "dependency",
            dependency.as_str(),
        ),
        DocumentToolError::UnsupportedType { extension } => kind_with(
            "unsupported_type",
            "extension",
            extension.as_str(),
        ),
        DocumentToolError::ExternalFailed { dependency, message: _ } => kind_with(
            "external_failed",
            "dependency",
            dependency.as_str(),
        ),
        DocumentToolError::Io(_) => kind_only("io_error"),
        DocumentToolError::Timeout { dependency } => kind_with(
            "timeout",
            "dependency",
            dependency.as_str(),
        ),
    }
}

pub open spec fn error_message(error: DocumentErrorView) -> Seq<char> {
    match error {
        DocumentErrorView::UnsafePath => "Document path is unsafe"@,
        DocumentErrorView::MissingFile => "Document file does not exist"@,
        DocumentErrorView::MissingDependency { dependency } =>
            "Required external dependency is missing: "@ + dependency,
        DocumentErrorView::UnsupportedType { extension } => "Unsupported document extension: "@
            + extension,
        DocumentErrorView::ExternalFailed { dependency, message } => dependency + " failed: "@
            + message,
        DocumentErrorView::Io(message) => "Document IO failed: "@ + message,
        DocumentErrorView::Timeout { dependency } => dependency + " timed out"@,
    }
}

fn two_parts(a: &str, b: &str) -> (s: String)
    ensures
        s@ == a@ + b@,
{
    let mut s = a.to_owned();
    s.append(b);
    s
}

pub fn document_error_message(error: &DocumentToolError) -> (s: String)
    ensures
        s@ == error_message(error@),
{
    match error {
        DocumentToolError::UnsafePath => "Document path is unsafe".to_owned(),
        DocumentToolError::MissingFile => "Document file does not exist".to_owned(),
        DocumentToolError::MissingDependency { dependency } => two_parts(
            "Required external dependency is missing: ",
            dependency.as_str(),
        ),
        DocumentToolError::UnsupportedType { extension } => two_parts(
            "Unsupported document extension: ",
            extension.as_str(),
        ),
        DocumentToolError::ExternalFailed { dependency, message } => {
            let mut s = two_parts(dependency.as_str(), " failed: ");
            s.append(message.as_str());
            s
        },
        DocumentToolError::Io(message) => two_parts("Document IO failed: ", message.as_str()),
        DocumentToolError::Timeout { dependency } => two_parts(dependency.as_str(), " timed out"),
    }
}

/// A file to read: the parts of its path, its path as text, its extension, and whether
/// there is a file.
#[derive(Debug, Clone)]
pub struct DocumentPath {
    pub parts: Vec<String>,
    pub path: String,
    pub extension: String,
    pub is_file: bool,
}

/// Why a path may not be read: it leads up out of a directory, or to no file.
pub open spec fn path_objection(path: DocumentPath) -> Option<DocumentErrorView> {
    if texts(path.parts@).contains(".."@) {
        Some(DocumentErrorView::UnsafePath)
    } else if !path.is_file {
        Some(DocumentErrorView::MissingFile)
    } else {
        None
    }
}

pub open spec fn objection_view(r: Result<(), DocumentToolError>) -> Option<DocumentErrorView> {
    match r {
        Ok(_) => None,
        Err(e) => Some(e@),
    }
}

pub fn validate_read_path(path: &DocumentPath) -> (r: Result<(), DocumentToolError>)
    ensures
        objection_view(r) == path_objection(*path),
{
    let ghost parts = texts(path.parts@);
    let mut i: usize = 0;
    while i < path.parts.len()
        invariant
            i <= path.parts@.len(),
            parts == texts(path.parts@),
            forall|j: int| 0 <= j < i ==> parts[j] != ".."@,
        decreases path.parts@.len() - i,
    {
        if same_text(path.parts[i].as_str(), "..") {
            assert(parts[i as int] == ".."@);
            return Err(DocumentToolError::UnsafePath);
        }
        i += 1;
    }
    assert(!parts.contains(".."@));
    if !path.is_file {
        return Err(DocumentToolError::MissingFile);
    }
    Ok(())
}

/// How a document is read.
#[derive(Debug, Clone, PartialEq, Eq)]
pub enum DocumentPlan {
    /// Its text stands in the file.
    ReadText,
    /// A program writes its text to its output.
    Run { dependency: String, args: Vec<String>, kind: String },
}

pub enum DocumentPlanView {
    ReadText,
    Run { dependency: Seq<char>, args: Seq<Seq<char>>, kind: Seq<char> },
}

impl View for DocumentPlan {
    type V = DocumentPlanView;

    open spec fn view(&self) -> DocumentPlanView {
        match self {
            DocumentPlan::ReadText => DocumentPlanView::ReadText,
            DocumentPlan::Run { dependency, args, kind } => DocumentPlanView::Run {
                dependency: dependency@,
                args: texts(args@),
                kind: kind@,
            },
        }
    }
}

pub open spec fn plan_view(r: Result<DocumentPlan, DocumentToolError>) -> Result<
    DocumentPlanView,
    DocumentErrorView,
> {
    match r {
        Ok(plan) => Ok(plan@),
        Err(e) => Err(e@),
    }
}

/// Files that hold their text as it is.
pub open spec fn text_extensions() -> Seq<Seq<char>> {
    seq!["txt"@, "md"@, "csv"@, "json"@, "toml"@, "yaml"@, "yml"@, "rs"@, "ts"@, "js"@]
}

/// Files that an office program would have to convert.
pub open spec fn office_extensions() -> Seq<Seq<char>> {
    seq!["doc"@, "docx"@, "ppt"@, "pptx"@, "xls"@, "xlsx"@, "odt"@, "odp"@, "ods"@]
}

/// How a document is read, by its extension, whose case does not matter.
pub open spec fn parse_plan(path: DocumentPath) -> Result<DocumentPlanView, DocumentErrorView> {
    let extension = lower_text(path.extension@);
    match path_objection(path) {
        Some(e) => Err(e),
        None => if text_extensions().contains(extension) {
            Ok(DocumentPlanView::ReadText)
        } else if extension == "pdf"@ {
            Ok(
                DocumentPlanView::Run {
                    dependency: "pdftotext"@,
                    args: seq![path.path@, "-"@],
                    kind: "pdf"@,
                },
            )
        } else if office_extensions().contains(extension) {
            Err(DocumentErrorView::MissingDependency { dependency: "soffice"@ })
        } else {
            Err(DocumentErrorView::UnsupportedType { extension })
        },
    }
}

fn one_of(s: &str, list: &[&str]) -> (b: bool)
    ensures
        b == exists|i: int| 0 <= i < list@.len() && (#[trigger] list@[i])@ == s@,
{
    let mut i: usize = 0;
    while i < list.len()
        invariant
            i <= list@.len(),
            forall|j: int| 0 <= j < i ==> (#[trigger] list@[j])@ != s@,
        decreases list@.len() - i,
    {
        if same_text(list[i], s) {
            return true;
        }
        i += 1;
    }
    false
}

fn is_text_extension(s: &str) -> (b: bool)
    ensures
        b == text_extensions().contains(s@),
{
    let list = ["txt", "md", "csv", "json", "toml", "yaml", "yml", "rs", "ts", "js"];
    let b = one_of(s, list.as_slice());
    proof {
        let all = text_extensions();
        assert forall|i: int| 0 <= i < 10 implies all[i] == (#[trigger] list@[i])@ by {}
        if all.contains(s@) {
            let i = choose|i: int| 0 <= i < all.len() && all[i] == s@;
            assert(list@[i]@ == s@);
        }
        if b {
            let i = choose|i: int| 0 <= i < list@.len() && (#[trigger] list@[i])@ == s@;
            assert(all[i] == s@);
        }
    }
    b
}

fn is_office_extension(s: &str) -> (b: bool)
    ensures
        b == office_extensions().contains(s@),
{
    let list = ["doc", "docx", "ppt", "pptx", "xls", "xlsx", "odt", "odp", "ods"];
    let b = one_of(s, list.as_slice());
    proof {
        let all = office_extensions();
        assert forall|i: int| 0 <= i < 9 implies all[i] == (#[trigger] list@[i])@ by {}
        if all.contains(s@) {
            let i = choose|i: int| 0 <= i < all.len() && all[i] == s@;
            assert(list@[i]@ == s@);
        }
        if b {
            let i = choose|i: int| 0 <= i < list@.len() && (#[trigger] list@[i])@ == s@;
            assert(all[i] == s@);
        }
    }
    b
}

/// How the text in a picture is read, whatever its extension.
pub open spec fn ocr_plan(path: DocumentPath) -> Result<DocumentPlanView, DocumentErrorView> {
    match path_objection(path) {
        Some(e) => Err(e),
        None => Ok(
            DocumentPlanView::Run {
                dependency: "tesseract"@,
                args: seq![path.path@, "stdout"@],
                kind: "ocr"@,
            },
        ),
    }
}

/// What is known of a text: its lines, characters, bytes and pages. A page ends at a
/// form feed.
pub open spec fn metadata_json(text: Seq<char>, layout: Seq<char>) -> JsonView {
    JsonView::Object(
        seq![
            ("byte_count"@, count_json(vstd::utf8::encode_utf8(text).len())),
            ("char_count"@, count_json(text.len())),
            ("layout"@, JsonView::String(layout)),
            ("line_count"@, count_json(line_list(text).len())),
            ("page_count"@, count_json(split_on(text, '\x0c').len())),
        ],
    )
}

pub open spec fn count_json(n: nat) -> JsonView {
    JsonView::Number(JsonNumber::Unsigned(n as u64))
}

pub fn text_metadata(text: &str, layout_kind: &str) -> (v: Json)
    ensures
        v@ == metadata_json(text@, layout_kind@),
{
    let chars = chars_of(text);
    let lines = split_lines(&chars);
    let pages = split_text(&chars, '\x0c');
    assert(texts(lines@).len() == lines@.len());
    assert(texts(pages@).len() == pages@.len());
    let bytes: usize = text.as_bytes().len();
    let v = Json::object().with("byte_count", Json::number(bytes as u64)).with(
        "char_count",
        Json::number(chars.len() as u64),
    ).with("layout", Json::text(layout_kind)).with(
        "line_count",
        Json::number(lines.len() as u64),
    ).with("page_count", Json::number(pages.len() as u64));
    assert(v@->Object_0 =~= metadata_json(text@, layout_kind@)->Object_0);
    v
}

/// What reading a plain file gives.
pub open spec fn text_json(path: Seq<char>, text: Seq<char>) -> JsonView {
    JsonView::Object(
        seq![
            ("dependency"@, JsonView::Null),
            ("kind"@, JsonView::String("text"@)),
            ("metadata"@, metadata_json(text, "plain_text"@)),
            ("path"@, JsonView::String(path)),
            ("text"@, JsonView::String(text)),
        ],
    )
}

pub fn text_result(path: &str, text: &str) -> (v: Json)
    ensures
        v@ == text_json(path@, text@),
{
    let v = Json::object().with("dependency", Json::Null).with("kind", Json::text("text")).with(
        "metadata",
        text_metadata(text, "plain_text"),
    ).with("path", Json::text(path)).with("text", Json::text(text));
    assert(v@->Object_0 =~= text_json(path@, text@)->Object_0);
    v
}

/// What a program that wrote the text of a document gives.
pub open spec fn tool_json(
    kind: Seq<char>,
    dependency: Seq<char>,
    code: i32,
    text: Seq<char>,
) -> JsonView {
    JsonView::Object(
        seq![
            ("dependency"@, JsonView::String(dependency)),
            ("exit_code"@, json_integer(code as i64)),
            ("kind"@, JsonView::String(kind)),
            ("metadata"@, metadata_json(text, kind)),
            ("text"@, JsonView::String(text)),
        ],
    )
}

/// What comes of the outputs of a program, given as texts, and what is noted of it.
pub open spec fn tool_outcome(
    kind: Seq<char>,
    dependency: Seq<char>,
    success: bool,
    code: Option<i32>,
    stdout: Seq<char>,
    stderr: Seq<char>,
) -> (Result<JsonView, DocumentErrorView>, ProcessMarkView) {
    if success {
        (
            Ok(tool_json(kind, dependency, exit_code(code), stdout)),
            ProcessMarkView::Completed(exit_code(code)),
        )
    } else {
        let message = first_line(stderr, "external document tool failed"@);
        (
            Err(DocumentErrorView::ExternalFailed { dependency, message }),
            ProcessMarkView::Failed(message),
        )
    }
}

pub open spec fn outcome_view(r: Result<Json, DocumentToolError>) -> Result<
    JsonView,
    DocumentErrorView,
> {
    match r {
        Ok(v) => Ok(v@),
        Err(e) => Err(e@),
    }
}

pub fn tool_result(
    kind: &str,
    dependency: &str,
    success: bool,
    code: Option<i32>,
    stdout: &str,
    stderr: &str,
) -> (r: (Result<Json, DocumentToolError>, ProcessMark))
    ensures
        (outcome_view(r.0), r.1@) == tool_outcome(
            kind@,
            dependency@,
            success,
            code,
            stdout@,
            stderr@,
        ),
{
    if success {
        let exit: i32 = exit_code_of(code);
        let v = Json::object().with("dependency", Json::text(dependency)).with(
            "exit_code",
            Json::integer(exit as i64),
        ).with("kind", Json::text(kind)).with("metadata", text_metadata(stdout, kind)).with(
            "text",
            Json::text(stdout),
        );
        assert(v@->Object_0 =~= tool_json(kind@, dependency@, exit, stdout@)->Object_0);
        (Ok(v), ProcessMark::Completed(exit))
    } else {
        let message = first_line_or(stderr, "external document tool failed");
        (
            Err(
                DocumentToolError::ExternalFailed {
                    dependency: dependency.to_owned(),
                    message: message.clone(),
                },
            ),
            ProcessMark::Failed(message),
        )
    }
}

/// How far the run of a program has come.
#[derive(Debug, Clone, Copy, PartialEq, Eq, Structural)]
pub enum ToolPhase {
    /// The program is to be started.
    Starting,
    /// The process is to be noted.
    Noting,
    /// The exit is awaited.
    Waiting,
    /// The process is to be killed.
    Stopping,
    /// The output is to be collected.
    Collecting,
    /// There is nothing more to do.
    Over,
}

/// What has become of the work that was asked for.
#[derive(Debug)]
pub enum ToolEvent {
    /// There is no such program.
    NotFound,
    NotStarted { message: String },
    Started,
    NotNoted { message: String },
    Noted,
    WaitFailed { message: String },
    StillRunning,
    Exited,
    Killed,
    NotCollected { message: String },
    Collected { success: bool, code: Option<i32>, stdout: Vec<u8>, stderr: Vec<u8> },
}

/// The work that the run of a program needs next.
#[derive(Debug)]
pub enum ToolAction {
    Note,
    /// Wait for the process to exit for at most this time.
    Wait { at_most_ms: u64 },
    Kill,
    Collect,
    /// The run is done: what it gives, and what is noted of its process.
    Finish { result: Result<Json, DocumentToolError>, mark: ProcessMark },
    /// The event does not belong here.
    Ignore,
}

pub enum ToolActionView {
    Note,
    Wait { at_most_ms: u64 },
    Kill,
    Collect,
    Finish { result: Result<JsonView, DocumentErrorView>, mark: ProcessMarkView },
    Ignore,
}

impl View for ToolAction {
    type V = ToolActionView;

    open spec fn view(&self) -> ToolActionView {
        match self {
            ToolAction::Note => ToolActionView::Note,
            ToolAction::Wait { at_most_ms } => ToolActionView::Wait { at_most_ms: *at_most_ms },
            ToolAction::Kill => ToolActionView::Kill,
            ToolAction::Collect => ToolActionView::Collect,
            ToolAction::Finish { result, mark } => ToolActionView::Finish {
                result: outcome_view(*result),
                mark: mark@,
            },
            ToolAction::Ignore => ToolActionView::Ignore,
        }
    }
}

/// The program that is run, and for how long.
pub struct ToolRunView {
    pub kind: Seq<char>,
    pub dependency: Seq<char>,
    pub timeout_ms: u64,
}

pub open spec fn tool_failed(error: DocumentErrorView) -> (ToolPhase, ToolActionView) {
    (
        ToolPhase::Over,
        ToolActionView::Finish { result: Err(error), mark: ProcessMarkView::Untouched },
    )
}

/// What the run of a program does next.
pub open spec fn tool_step(run: ToolRunView, phase: ToolPhase, event: ToolEvent) -> (
    ToolPhase,
    ToolActionView,
) {
    match (phase, event) {
        (ToolPhase::Starting, ToolEvent::NotFound) => tool_failed(
            DocumentErrorView::MissingDependency { dependency: run.dependency },
        ),
        (ToolPhase::Starting, ToolEvent::NotStarted { message }) => tool_failed(
            DocumentErrorView::Io(message@),
        ),
        (ToolPhase::Starting, ToolEvent::Started) => (ToolPhase::Noting, ToolActionView::Note),
        (ToolPhase::Noting, ToolEvent::NotNoted { message }) => tool_failed(
            DocumentErrorView::Io(message@),
        ),
        (ToolPhase::Noting, ToolEvent::Noted) => (
            ToolPhase::Waiting,
            ToolActionView::Wait { at_most_ms: run.timeout_ms },
        ),
        (ToolPhase::Waiting, ToolEvent::WaitFailed { message }) => tool_failed(
            DocumentErrorView::Io(message@),
        ),
        (ToolPhase::Waiting, ToolEvent::StillRunning) => (
            ToolPhase::Stopping,
            ToolActionView::Kill,
        ),
        (ToolPhase::Stopping, ToolEvent::Killed) => tool_failed(
            DocumentErrorView::Timeout { dependency: run.dependency },
        ),
        (ToolPhase::Waiting, ToolEvent::Exited) => (ToolPhase::Collecting, ToolActionView::Collect),
        (ToolPhase::Collecting, ToolEvent::NotCollected { message }) => tool_failed(
            DocumentErrorView::Io(message@),
        ),
        (ToolPhase::Collecting, ToolEvent::Collected { success, code, stdout, stderr }) => {
            let (result, mark) = tool_outcome(
                run.kind,
                run.dependency,
                success,
                code,
                lossy_text(stdout@),
                lossy_text(stderr@),
            );
            (ToolPhase::Over, ToolActionView::Finish { result, mark })
        },
        _ => (phase, ToolActionView::Ignore),
    }
}

/// The run of a program that writes the text of a document.
#[derive(Debug)]
pub struct DocumentToolRunner {
    kind: String,
    dependency: String,
    timeout_ms: u64,
    phase: ToolPhase,
}

impl View for DocumentToolRunner {
    type V = ToolRunView;

    closed spec fn view(&self) -> ToolRunView {
        ToolRunView {
            kind: self.kind@,
            dependency: self.dependency@,
            timeout_ms: self.timeout_ms,
        }
    }
}

impl DocumentToolRunner {
    pub closed spec fn stage(self) -> ToolPhase {
        self.phase
    }

    /// How a document is read, or why it cannot be.
    pub fn parse_file(path: &DocumentPath) -> (r: Result<DocumentPlan, DocumentToolError>)
        ensures
            plan_view(r) == parse_plan(*path),
    {
        match validate_read_path(path) {
            Ok(_) => {},
            Err(e) => {
                return Err(e);
            },
        }
        let extension = lower_string(path.extension.as_str());
        if is_text_extension(extension.as_str()) {
            Ok(DocumentPlan::ReadText)
        } else if same_text(extension.as_str(), "pdf") {
            let args = vec![path.path.clone(), "-".to_owned()];
            assert(texts(args@) =~= seq![path.path@, "-"@]);
            Ok(
                DocumentPlan::Run {
                    dependency: "pdftotext".to_owned(),
                    args,
                    kind: "pdf".to_owned(),
                },
            )
        } else if is_office_extension(extension.as_str()) {
            Err(DocumentToolError::MissingDependency { dependency: "soffice".to_owned() })
        } else {
            Err(DocumentToolError::UnsupportedType { extension })
        }
    }

    /// How the text in a picture is read, or why it cannot be.
    pub fn ocr_image(path: &DocumentPath) -> (r: Result<DocumentPlan, DocumentToolError>)
        ensures
            plan_view(r) == ocr_plan(*path),
    {
        match validate_read_path(path) {
            Ok(_) => {},
            Err(e) => {
                return Err(e);
            },
        }
        let args = vec![path.path.clone(), "stdout".to_owned()];
        assert(texts(args@) =~= seq![path.path@, "stdout"@]);
        Ok(DocumentPlan::Run { dependency: "tesseract".to_owned(), args, kind: "ocr".to_owned() })
    }

    /// The run of a program that is to be started.
    pub fn run_stdout_tool(dependency: &str, kind: &str, timeout_ms: u64) -> (r: Self)
        ensures
            r@ == (ToolRunView { kind: kind@, dependency: dependency@, timeout_ms }),
            r.stage() == ToolPhase::Starting,
    {
        DocumentToolRunner {
            kind: kind.to_owned(),
            dependency: dependency.to_owned(),
            timeout_ms,
            phase: ToolPhase::Starting,
        }
    }

    fn fail(&mut self, error: DocumentToolError) -> (a: ToolAction)
        ensures
            final(self)@ == old(self)@,
            (final(self).stage(), a@) == tool_failed(error@),
    {
        self.phase = ToolPhase::Over;
        ToolAction::Finish { result: Err(error), mark: ProcessMark::Untouched }
    }

    /// Takes in what has become of the last action and says what to do next.
    pub fn step(&mut self, event: ToolEvent) -> (a: ToolAction)
        ensures
            final(self)@ == old(self)@,
            (final(self).stage(), a@) == tool_step(old(self)@, old(self).stage(), event),
    {
        match (self.phase, event) {
            (ToolPhase::Starting, ToolEvent::NotFound) => {
                let dependency = self.dependency.clone();
                self.fail(DocumentToolError::MissingDependency { dependency })
            },
            (ToolPhase::Starting, ToolEvent::NotStarted { message }) => self.fail(
                DocumentToolError::Io(message),
            ),
            (ToolPhase::Starting, ToolEvent::Started) => {
                self.phase = ToolPhase::Noting;
                ToolAction::Note
            },
            (ToolPhase::Noting, ToolEvent::NotNoted { message }) => self.fail(
                DocumentToolError::Io(message),
            ),
            (ToolPhase::Noting, ToolEvent::Noted) => {
                self.phase = ToolPhase::Waiting;
                ToolAction::Wait { at_most_ms: self.timeout_ms }
            },
            (ToolPhase::Waiting, ToolEvent::WaitFailed { message }) => self.fail(
                DocumentToolError::Io(message),
            ),
            (ToolPhase::Waiting, ToolEvent::StillRunning) => {
                self.phase = ToolPhase::Stopping;
                ToolAction::Kill
            },
            (ToolPhase::Stopping, ToolEvent::Killed) => {
                let dependency = self.dependency.clone();
                self.fail(DocumentToolError::Timeout { dependency })
            },
            (ToolPhase::Waiting, ToolEvent::Exited) => {
                self.phase = ToolPhase::Collecting;
                ToolAction::Collect
            },
            (ToolPhase::Collecting, ToolEvent::NotCollected { message }) => self.fail(
                DocumentToolError::Io(message),
            ),
            (ToolPhase::Collecting, ToolEvent::Collected { success, code, stdout, stderr }) => {
                self.phase = ToolPhase::Over;
                let (result, mark) = tool_result(
                    self.kind.as_str(),
                    self.dependency.as_str(),
                    success,
                    code,
                    lossy_string(&stdout).as_str(),
                    lossy_string(&stderr).as_str(),
                );
                ToolAction::Finish { result, mark }
            },
            _ => ToolAction::Ignore,
        }
    }
}

/// No path that leads up out of a directory is read, neither as a document nor as a
/// picture.
pub proof fn law_no_path_leads_up(path: DocumentPath)
    requires
        texts(path.parts@).contains(".."@),
    ensures
        parse_plan(path) == Err::<DocumentPlanView, DocumentErrorView>(
            DocumentErrorView::UnsafePath,
        ),
        ocr_plan(path) == Err::<DocumentPlanView, DocumentErrorView>(DocumentErrorView::UnsafePath),
{
}

/// A run that is done stays done, and gives its result once.
pub proof fn law_a_document_run_ends_once(run: ToolRunView, phase: ToolPhase, event: ToolEvent)
    ensures
        ({
            let (next, action) = tool_step(run, phase, event);
            &&& (action is Finish) ==> !(phase is Over) && next is Over
            &&& !(phase is Over) && next is Over ==> action is Finish
            &&& phase is Over ==> next is Over && action is Ignore
        }),
{
}

/// How documents are read: a path that leads up, or to no file, is refused; plain texts are
/// read as they are, a PDF is converted, office files lack their program, and anything else
/// is not known. The case of the extension does not matter.
pub proof fn law_how_documents_are_read(path: DocumentPath)
    ensures
        ({
            let plan = parse_plan(path);
            let e = lower_text(path.extension@);
            let text = e == "txt"@ || e == "md"@ || e == "csv"@ || e == "json"@ || e == "toml"@ || e
                == "yaml"@ || e == "yml"@ || e == "rs"@ || e == "ts"@ || e == "js"@;
            let office = e == "doc"@ || e == "docx"@ || e == "ppt"@ || e == "pptx"@ || e == "xls"@
                || e == "xlsx"@ || e == "odt"@ || e == "odp"@ || e == "ods"@;
            let allowed = !texts(path.parts@).contains(".."@) && path.is_file;
            &&& plan == Ok::<DocumentPlanView, DocumentErrorView>(DocumentPlanView::ReadText)
                <==> allowed && text
            &&& allowed && !text && e == "pdf"@ ==> match plan {
                Ok(DocumentPlanView::Run { dependency, args, kind }) => dependency == "pdftotext"@
                    && kind == "pdf"@ && args.len() == 2 && args[0] == path.path@ && args[1]
                    == "-"@,
                _ => false,
            }
            &&& allowed && !text && e != "pdf"@ && office ==> plan == Err::<
                DocumentPlanView,
                DocumentErrorView,
            >(DocumentErrorView::MissingDependency { dependency: "soffice"@ })
            &&& allowed && !text && e != "pdf"@ && !office ==> plan == Err::<
                DocumentPlanView,
                DocumentErrorView,
            >(DocumentErrorView::UnsupportedType { extension: e })
            &&& texts(path.parts@).contains(".."@) ==> plan == Err::<
                DocumentPlanView,
                DocumentErrorView,
            >(DocumentErrorView::UnsafePath)
            &&& !texts(path.parts@).contains(".."@) && !path.is_file ==> plan == Err::<
                DocumentPlanView,
                DocumentErrorView,
            >(DocumentErrorView::MissingFile)
            &&& allowed ==> match ocr_plan(path) {
                Ok(DocumentPlanView::Run { dependency, args, kind }) => dependency == "tesseract"@
                    && kind == "ocr"@ && args.len() == 2 && args[0] == path.path@ && args[1]
                    == "stdout"@,
                _ => false,
            }
            &&& !allowed ==> ocr_plan(path) is Err
        }),
{
    let e = lower_text(path.extension@);
    let t = text_extensions();
    let o = office_extensions();
    if t.contains(e) {
        let i = choose|i: int| 0 <= i < t.len() && t[i] == e;
    }
    if o.contains(e) {
        let i = choose|i: int| 0 <= i < o.len() && o[i] == e;
    }
    assert(t.contains(t[0]) && t.contains(t[1]) && t.contains(t[2]) && t.contains(t[3])
        && t.contains(t[4]) && t.contains(t[5]) && t.contains(t[6]) && t.contains(t[7])
        && t.contains(t[8]) && t.contains(t[9]));
    assert(o.contains(o[0]) && o.contains(o[1]) && o.contains(o[2]) && o.contains(o[3])
        && o.contains(o[4]) && o.contains(o[5]) && o.contains(o[6]) && o.contains(o[7])
        && o.contains(o[8]));
}

/// What reading a plain file gives shows its path and its whole text; what a program gives
/// shows the whole text that it wrote; both with the lines, characters, bytes and pages of
/// the text.
pub proof fn law_a_document_is_shown_whole(
    path: Seq<char>,
    text: Seq<char>,
    kind: Seq<char>,
    dependency: Seq<char>,
    code: i32,
    layout: Seq<char>,
)
    ensures
        shows(text_json(path, text), "path"@, JsonView::String(path)),
        shows(text_json(path, text), "text"@, JsonView::String(text)),
        shows(text_json(path, text), "kind"@, JsonView::String("text"@)),
        shows(text_json(path, text), "metadata"@, metadata_json(text, "plain_text"@)),
        text_json(path, text)->Object_0.len() == 5,
        shows(tool_json(kind, dependency, code, text), "text"@, JsonView::String(text)),
        shows(tool_json(kind, dependency, code, text), "kind"@, JsonView::String(kind)),
        shows(tool_json(kind, dependency, code, text), "dependency"@, JsonView::String(dependency)),
        shows(tool_json(kind, dependency, code, text), "exit_code"@, json_integer(code as i64)),
        shows(tool_json(kind, dependency, code, text), "metadata"@, metadata_json(text, kind)),
        tool_json(kind, dependency, code, text)->Object_0.len() == 5,
        shows(metadata_json(text, layout), "layout"@, JsonView::String(layout)),
        shows(
            metadata_json(text, layout),
            "char_count"@,
            JsonView::Number(JsonNumber::Unsigned(text.len() as u64)),
        ),
        shows(
            metadata_json(text, layout),
            "byte_count"@,
            JsonView::Number(
                JsonNumber::Unsigned(vstd::utf8::encode_utf8(text).len() as u64),
            ),
        ),
        shows(
            metadata_json(text, layout),
            "line_count"@,
            JsonView::Number(JsonNumber::Unsigned(line_list(text).len() as u64)),
        ),
        shows(
            metadata_json(text, layout),
            "page_count"@,
            JsonView::Number(JsonNumber::Unsigned(split_on(text, '\x0c').len() as u64)),
        ),
{
    lemma_shows(text_json(path, text), 1);
    lemma_shows(text_json(path, text), 2);
    lemma_shows(text_json(path, text), 3);
    lemma_shows(text_json(path, text), 4);
    lemma_shows(tool_json(kind, dependency, code, text), 0);
    lemma_shows(tool_json(kind, dependency, code, text), 1);
    lemma_shows(tool_json(kind, dependency, code, text), 2);
    lemma_shows(tool_json(kind, dependency, code, text), 3);
    lemma_shows(tool_json(kind, dependency, code, text), 4);
    lemma_shows(metadata_json(text, layout), 0);
    lemma_shows(metadata_json(text, layout), 1);
    lemma_shows(metadata_json(text, layout), 2);
    lemma_shows(metadata_json(text, layout), 3);
    lemma_shows(metadata_json(text, layout), 4);
}

/// A program that succeeded gives what it wrote; one that failed, an error with the first
/// line of its error output, which is also what is noted of it.
pub proof fn law_what_a_program_gives(
    kind: Seq<char>,
    dependency: Seq<char>,
    success: bool,
    code: Option<i32>,
    stdout: Seq<char>,
    stderr: Seq<char>,
)
    ensures
        ({
            let (r, mark) = tool_outcome(kind, dependency, success, code, stdout, stderr);
            &&& success ==> r is Ok && shows(r->Ok_0, "text"@, JsonView::String(stdout)) && shows(
                r->Ok_0,
                "kind"@,
                JsonView::String(kind),
            ) && mark is Completed
            &&& !success ==> match r {
                Err(DocumentErrorView::ExternalFailed { dependency: d, message }) => {
                    &&& d == dependency
                    &&& message == first_line(stderr, "external document tool failed"@)
                    &&& mark == ProcessMarkView::Failed(message)
                },
                _ => false,
            }
        }),
{
    if success {
        law_a_document_is_shown_whole(
            kind,
            stdout,
            kind,
            dependency,
            crate::process::exit_code(code),
            kind,
        );
    }
}

/// The run of a program, from its start to its end.
pub proof fn law_a_program_from_start_to_end(
    run: ToolRunView,
    event: ToolEvent,
)
    ensures
        tool_step(run, ToolPhase::Starting, ToolEvent::Started) == (
            ToolPhase::Noting,
            ToolActionView::Note,
        ),
        tool_step(run, ToolPhase::Noting, ToolEvent::Noted) == (
            ToolPhase::Waiting,
            ToolActionView::Wait { at_most_ms: run.timeout_ms },
        ),
        tool_step(run, ToolPhase::Waiting, ToolEvent::StillRunning).1 is Kill,
        match tool_step(run, ToolPhase::Starting, ToolEvent::NotFound) {
            (over, ToolActionView::Finish { result, .. }) => over == ToolPhase::Over && result
                == Err::<JsonView, DocumentErrorView>(
                DocumentErrorView::MissingDependency { dependency: run.dependency },
            ),
            _ => false,
        },
        match tool_step(run, ToolPhase::Stopping, ToolEvent::Killed) {
            (over, ToolActionView::Finish { result, .. }) => over == ToolPhase::Over && result
                == Err::<JsonView, DocumentErrorView>(
                DocumentErrorView::Timeout { dependency: run.dependency },
            ),
            _ => false,
        },
        match event {
            ToolEvent::NotStarted { message } => match tool_step(run, ToolPhase::Starting, event) {
                (over, ToolActionView::Finish { result, .. }) => over == ToolPhase::Over && result
                    == Err::<JsonView, DocumentErrorView>(DocumentErrorView::Io(message@)),
                _ => false,
            },
            ToolEvent::WaitFailed { message } => match tool_step(run, ToolPhase::Waiting, event) {
                (over, ToolActionView::Finish { result, .. }) => over == ToolPhase::Over && result
                    == Err::<JsonView, DocumentErrorView>(DocumentErrorView::Io(message@)),
                _ => false,
            },
            ToolEvent::Exited => tool_step(run, ToolPhase::Waiting, event) == (
                ToolPhase::Collecting,
                ToolActionView::Collect,
            ),
            ToolEvent::Collected { success, code, stdout, stderr } => match tool_step(
                run,
                ToolPhase::Collecting,
                event,
            ) {
                (over, ToolActionView::Finish { result, mark }) => {
                    &&& over == ToolPhase::Over
                    &&& success ==> result is Ok && shows(
                        result->Ok_0,
                        "text"@,
                        JsonView::String(lossy_text(stdout@)),
                    ) && shows(result->Ok_0, "kind"@, JsonView::String(run.kind))
                    &&& !success ==> result is Err && mark is Failed
                },
                _ => false,
            },
            _ => true,
        },
{
    match event {
        ToolEvent::Collected { success, code, stdout, stderr } => {
            law_what_a_program_gives(
                run.kind,
                run.dependency,
                success,
                code,
                lossy_text(stdout@),
                lossy_text(stderr@),
            );
        },
        _ => {},
    }
}

/// What callers are told of an error: its kind, and what it is about.
pub proof fn law_what_is_told_of_an_error(d: Seq<char>, m: Seq<char>)
    ensures
        shows(
            error_payload(DocumentErrorView::MissingDependency { dependency: d }),
            "dependency"@,
            JsonView::String(d),
        ),
        shows(
            error_payload(DocumentErrorView::MissingDependency { dependency: d }),
            "kind"@,
            JsonView::String("missing_dependency"@),
        ),
        shows(
            error_payload(DocumentErrorView::UnsupportedType { extension: d }),
            "extension"@,
            JsonView::String(d),
        ),
        shows(
            error_payload(DocumentErrorView::UnsupportedType { extension: d }),
            "kind"@,
            JsonView::String("unsupported_type"@),
        ),
        shows(
            error_payload(DocumentErrorView::ExternalFailed { dependency: d, message: m }),
            "dependency"@,
            JsonView::String(d),
        ),
        shows(
            error_payload(DocumentErrorView::Timeout { dependency: d }),
            "dependency"@,
            JsonView::String(d),
        ),
        shows(
            error_payload(DocumentErrorView::Timeout { dependency: d }),
            "kind"@,
            JsonView::String("timeout"@),
        ),
{
    lemma_shows(error_payload(DocumentErrorView::MissingDependency { dependency: d }), 0);
    lemma_shows(error_payload(DocumentErrorView::MissingDependency { dependency: d }), 1);
    lemma_shows(error_payload(DocumentErrorView::UnsupportedType { extension: d }), 0);
    lemma_shows(error_payload(DocumentErrorView::UnsupportedType { extension: d }), 1);
    lemma_shows(
        error_payload(DocumentErrorView::ExternalFailed { dependency: d, message: m }),
        0,
    );
    lemma_shows(error_payload(DocumentErrorView::Timeout { dependency: d }), 0);
    lemma_shows(error_payload(DocumentErrorView::Timeout { dependency: d }), 1);
}

} // verus!
