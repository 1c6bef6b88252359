//! What kind of failure a failed tool call is, and how failed calls are told apart.
use vstd::prelude::*;
use vstd::utf8::encode_utf8;

use crate::agent::tool_loop::{
    law_stable_text_ignores_member_order, plainly_written, stable_json, stable_text,
};
use crate::json::{Json, JsonView};
use crate::json_equality::same_value;
use crate::text::{
    chars_of, contains_text, lower_string, lower_text, text_contains, trim_string, trimmed,
};

verus! {

/// The kind of a tool failure.
#[derive(Debug, Clone, Copy, PartialEq, Eq, Hash, Structural)]
pub enum ToolFailureErrorKind {
    Permission,
    Mode,
    WriteScope,
    Sandbox,
    Network,
    Schema,
    Precondition,
    Execution,
    Timeout,
    Aborted,
    Other,
}

/// A failure that the state of the session causes: trying again cannot help.
pub open spec fn state_error(kind: ToolFailureErrorKind) -> bool {
    match kind {
        ToolFailureErrorKind::Permission
        | ToolFailureErrorKind::Mode
        | ToolFailureErrorKind::WriteScope
        | ToolFailureErrorKind::Sandbox
        | ToolFailureErrorKind::Network
        | ToolFailureErrorKind::Schema => true,
        _ => false,
    }
}

pub open spec fn kind_name(kind: ToolFailureErrorKind) -> Seq<char> {
    match kind {
        ToolFailureErrorKind::Permission => "permission"@,
        ToolFailureErrorKind::Mode => "mode"@,
        ToolFailureErrorKind::WriteScope => "write_scope"@,
        ToolFailureErrorKind::Sandbox => "sandbox"@,
        ToolFailureErrorKind::Network => "network"@,
        ToolFailureErrorKind::Schema => "schema"@,
        ToolFailureErrorKind::Precondition => "precondition"@,
        ToolFailureErrorKind::Execution => "execution"@,
        ToolFailureErrorKind::Timeout => "timeout"@,
        ToolFailureErrorKind::Aborted => "aborted"@,
        ToolFailureErrorKind::Other => "other"@,
    }
}

impl ToolFailureErrorKind {
    pub fn is_state_error(self) -> (b: bool)
        ensures
            b == state_error(self),
    {
        matches!(
            self,
            ToolFailureErrorKind::Permission
                | ToolFailureErrorKind::Mode
                | ToolFailureErrorKind::WriteScope
                | ToolFailureErrorKind::Sandbox
                | ToolFailureErrorKind::Network
                | ToolFailureErrorKind::Schema
        )
    }

    /// A failure that names the next step itself; a guard must not hide it.
    pub fn is_non_tripping(self) -> (b: bool)
        ensures
            b == (self == ToolFailureErrorKind::Precondition),
    {
        matches!(self, ToolFailureErrorKind::Precondition)
    }

    pub fn as_str(self) -> (s: &'static str)
        ensures
            s@ == kind_name(self),
    {
        match self {
            ToolFailureErrorKind::Permission => "permission",
            ToolFailureErrorKind::Mode => "mode",
            ToolFailureErrorKind::WriteScope => "write_scope",
            ToolFailureErrorKind::Sandbox => "sandbox",
            ToolFailureErrorKind::Network => "network",
            ToolFailureErrorKind::Schema => "schema",
            ToolFailureErrorKind::Precondition => "precondition",
            ToolFailureErrorKind::Execution => "execution",
            ToolFailureErrorKind::Timeout => "timeout",
            ToolFailureErrorKind::Aborted => "aborted",
            ToolFailureErrorKind::Other => "other",
        }
    }
}

/// The text `s` uses a phrase that is typical of failures of this kind.
pub open spec fn speaks_of(s: Seq<char>, kind: ToolFailureErrorKind) -> bool {
    match kind {
        ToolFailureErrorKind::WriteScope => {
            ||| contains_text(s, "write_scope_forbidden"@)
            ||| contains_text(s, "write_out_of_scope"@)
            ||| contains_text(s, "scope_forbidden"@)
            ||| contains_text(s, "outside permission scope"@)
            ||| contains_text(s, "outside permission grant"@)
            ||| contains_text(s, "write_scope"@)
            ||| contains_text(s, "outside the session workspace"@)
        },
        ToolFailureErrorKind::Permission => {
            ||| contains_text(s, "permission_required"@)
            ||| contains_text(s, "permission_denied"@)
            ||| contains_text(s, "tool_scope_forbidden"@)
            ||| contains_text(s, "requires permission grant"@)
            ||| contains_text(s, "permission"@)
        },
        ToolFailureErrorKind::Mode => {
            ||| contains_text(s, "mode_tool_forbidden"@)
            ||| contains_text(s, "mode_forbidden"@)
            ||| contains_text(s, "tool_mode_mismatch"@)
            ||| contains_text(s, "mode"@)
        },
        ToolFailureErrorKind::Sandbox => {
            ||| contains_text(s, "sandbox_forbidden"@)
            ||| contains_text(s, "sandbox_blocked"@)
            ||| contains_text(s, "sandbox"@)
        },
        ToolFailureErrorKind::Network => {
            ||| contains_text(s, "network_forbidden"@)
            ||| contains_text(s, "network_blocked"@)
            ||| contains_text(s, "network_unreachable"@)
            ||| contains_text(s, "network"@)
        },
        ToolFailureErrorKind::Precondition => {
            ||| contains_text(s, "file_must_be_read_first"@)
            ||| contains_text(s, "read_first"@)
            ||| contains_text(s, "file_must_read_first"@)
            ||| contains_text(s, "must be read first"@)
        },
        ToolFailureErrorKind::Schema => {
            ||| contains_text(s, "tool_argument_parse_failed"@)
            ||| contains_text(s, "tool_argument_validation_failed"@)
            ||| contains_text(s, "tool_not_found"@)
            ||| contains_text(s, "schema_invalid"@)
            ||| contains_text(s, "argument_validation"@)
            ||| contains_text(s, "missing required param"@)
            ||| contains_text(s, "tool not found"@)
        },
        ToolFailureErrorKind::Timeout => {
            ||| contains_text(s, "tool_timeout"@)
            ||| contains_text(s, "timed out"@)
            ||| contains_text(s, "timeout"@)
        },
        ToolFailureErrorKind::Aborted => {
            ||| contains_text(s, "tool_aborted"@)
            ||| contains_text(s, "aborted"@)
            ||| contains_text(s, "aborterror"@)
        },
        ToolFailureErrorKind::Execution | ToolFailureErrorKind::Other => false,
    }
}

/// The kinds in the order in which a text is held against them.
pub open spec fn kind_order() -> Seq<ToolFailureErrorKind> {
    seq![
        ToolFailureErrorKind::WriteScope,
        ToolFailureErrorKind::Permission,
        ToolFailureErrorKind::Mode,
        ToolFailureErrorKind::Sandbox,
        ToolFailureErrorKind::Network,
        ToolFailureErrorKind::Precondition,
        ToolFailureErrorKind::Schema,
        ToolFailureErrorKind::Timeout,
        ToolFailureErrorKind::Aborted,
    ]
}

/// The first of the kinds from place `from` on that the text speaks of.
pub open spec fn first_kind(s: Seq<char>, from: int) -> ToolFailureErrorKind
    decreases kind_order().len() - from,
{
    if from >= kind_order().len() {
        ToolFailureErrorKind::Other
    } else if speaks_of(s, kind_order()[from]) {
        kind_order()[from]
    } else {
        first_kind(s, from + 1)
    }
}

/// The kind of failure that an error text reports, whatever its case.
pub open spec fn failure_kind(error_text: Seq<char>) -> ToolFailureErrorKind {
    first_kind(lower_text(trimmed(error_text)), 0)
}

fn mentions(v: &[char], phrase: &str) -> (b: bool)
    ensures
        b == contains_text(v@, phrase@),
{
    let p = chars_of(phrase);
    text_contains(v, &p)
}

fn text_speaks_of(v: &[char], kind: ToolFailureErrorKind) -> (b: bool)
    ensures
        b == speaks_of(v@, kind),
{
    match kind {
        ToolFailureErrorKind::WriteScope => mentions(v, "write_scope_forbidden") || mentions(
            v,
            "write_out_of_scope",
        ) || mentions(v, "scope_forbidden") || mentions(v, "outside permission scope")
            || mentions(v, "outside permission grant") || mentions(v, "write_scope") || mentions(
            v,
            "outside the session workspace",
        ),
        ToolFailureErrorKind::Permission => mentions(v, "permission_required") || mentions(
            v,
            "permission_denied",
        ) || mentions(v, "tool_scope_forbidden") || mentions(v, "requires permission grant")
            || mentions(v, "permission"),
        ToolFailureErrorKind::Mode => mentions(v, "mode_tool_forbidden") || mentions(
            v,
            "mode_forbidden",
        ) || mentions(v, "tool_mode_mismatch") || mentions(v, "mode"),
        ToolFailureErrorKind::Sandbox => mentions(v, "sandbox_forbidden") || mentions(
            v,
            "sandbox_blocked",
        ) || mentions(v, "sandbox"),
        ToolFailureErrorKind::Network => mentions(v, "network_forbidden") || mentions(
            v,
            "network_blocked",
        ) || mentions(v, "network_unreachable") || mentions(v, "network"),
        ToolFailureErrorKind::Precondition => mentions(v, "file_must_be_read_first") || mentions(
            v,
            "read_first",
        ) || mentions(v, "file_must_read_first") || mentions(v, "must be read first"),
        ToolFailureErrorKind::Schema => mentions(v, "tool_argument_parse_failed") || mentions(
            v,
            "tool_argument_validation_failed",
        ) || mentions(v, "tool_not_found") || mentions(v, "schema_invalid") || mentions(
            v,
            "argument_validation",
        ) || mentions(v, "missing required param") || mentions(v, "tool not found"),
        ToolFailureErrorKind::Timeout => mentions(v, "tool_timeout") || mentions(v, "timed out")
            || mentions(v, "timeout"),
        ToolFailureErrorKind::Aborted => mentions(v, "tool_aborted") || mentions(v, "aborted")
            || mentions(v, "aborterror"),
        ToolFailureErrorKind::Execution | ToolFailureErrorKind::Other => false,
    }
}

/// The kind of failure that an error text reports. The more specific kinds come
/// first: what lies outside a permission scope is no mere lack of permission.
pub fn classify_tool_failure(error_text: &str) -> (kind: ToolFailureErrorKind)
    ensures
        kind == failure_kind(error_text@),
{
    let combined = trim_string(error_text);
    let lower = lower_string(combined.as_str());
    let v = chars_of(lower.as_str());
    let kinds: [ToolFailureErrorKind; 9] = [
        ToolFailureErrorKind::WriteScope,
        ToolFailureErrorKind::Permission,
        ToolFailureErrorKind::Mode,
        ToolFailureErrorKind::Sandbox,
        ToolFailureErrorKind::Network,
        ToolFailureErrorKind::Precondition,
        ToolFailureErrorKind::Schema,
        ToolFailureErrorKind::Timeout,
        ToolFailureErrorKind::Aborted,
    ];
    assert(kinds@ =~= kind_order());
    let mut i: usize = 0;
    while i < 9
        invariant
            i <= 9,
            kinds@ == kind_order(),
            v@ == lower_text(trimmed(error_text@)),
            first_kind(v@, 0) == first_kind(v@, i as int),
        decreases 9 - i,
    {
        if text_speaks_of(&v, kinds[i]) {
            return kinds[i];
        }
        i += 1;
    }
    ToolFailureErrorKind::Other
}

/// The SHA-1 digest of a sequence of bytes.
pub uninterp spec fn sha1_digest(bytes: Seq<u8>) -> Seq<u8>;

/// `sha1::Sha1::digest`: the 20 bytes of the digest, a function of the input alone.
#[verifier::external_body]
fn sha1_of(bytes: &[u8]) -> (digest: Vec<u8>)
    ensures
        digest@ == sha1_digest(bytes@),
        digest@.len() == 20,
{
    <sha1::Sha1 as sha1::Digest>::digest(bytes).to_vec()
}

/// The small hexadecimal digit of value `d`.
pub open spec fn hex_digit(d: int) -> char {
    if d < 10 {
        (48 + d) as u8 as char
    } else {
        (87 + d) as u8 as char
    }
}

/// Bytes in hexadecimal, two digits each.
pub open spec fn hex_text(bytes: Seq<u8>) -> Seq<char>
    decreases bytes.len(),
{
    if bytes.len() == 0 {
        Seq::empty()
    } else {
        hex_text(bytes.drop_last()).push(hex_digit(bytes.last() as int / 16)).push(
            hex_digit(bytes.last() as int % 16),
        )
    }
}

fn hex_char(d: u8) -> (c: char)
    requires
        d < 16,
    ensures
        c == hex_digit(d as int),
{
    if d < 10 {
        (48 + d) as char
    } else {
        (87 + d) as char
    }
}

/// The first eight bytes of a digest in hexadecimal.
pub fn digest_prefix(digest: &[u8]) -> (s: String)
    requires
        digest@.len() >= 8,
    ensures
        s@ == hex_text(digest@.take(8)),
        s@.len() == 16,
{
    let mut s = String::new();
    let mut i: usize = 0;
    assert(digest@.take(0) =~= Seq::<u8>::empty());
    while i < 8
        invariant
            i <= 8 <= digest@.len(),
            s@ == hex_text(digest@.take(i as int)),
            s@.len() == 2 * i,
        decreases 8 - i,
    {
        s.push(hex_char(digest[i] / 16));
        s.push(hex_char(digest[i] % 16));
        assert(digest@.take(i + 1).drop_last() =~= digest@.take(i as int));
        i += 1;
    }
    s
}

/// What stands for the arguments of a call where the arguments themselves must not
/// be kept: the first sixteen hexadecimal digits of the digest of their text.
pub open spec fn args_fingerprint(args: JsonView) -> Seq<char> {
    hex_text(sha1_digest(encode_utf8(stable_text(args))).take(8))
}

pub fn failure_args_fingerprint(args: &Json) -> (s: String)
    ensures
        s@ == args_fingerprint(args@),
        s@.len() == 16,
{
    let raw = stable_json(args);
    let digest = sha1_of(raw.as_str().as_bytes());
    digest_prefix(&digest)
}

/// Arguments that differ only in the order of members, at any depth, have the same
/// fingerprint.
pub proof fn law_fingerprint_ignores_member_order(a: JsonView, b: JsonView)
    requires
        same_value(a, b),
        plainly_written(a),
        plainly_written(b),
    ensures
        args_fingerprint(a) == args_fingerprint(b),
{
    law_stable_text_ignores_member_order(a, b);
}

/// A failure is of the first kind that its text mentions by one of its phrases, whatever the
/// case of the letters and the white space around: what lies outside a scope comes before
/// what lacks permission, and so on. A text that mentions none is of no special kind.
pub proof fn law_a_failure_is_of_the_first_kind_it_mentions(error_text: Seq<char>)
    ensures
        ({
            let s = lower_text(trimmed(error_text));
            let kind = failure_kind(error_text);
            let writescope = contains_text(s, "write_scope_forbidden"@)
                || contains_text(s, "write_out_of_scope"@)
                || contains_text(s, "scope_forbidden"@)
                || contains_text(s, "outside permission scope"@)
                || contains_text(s, "outside permission grant"@)
                || contains_text(s, "write_scope"@)
                || contains_text(s, "outside the session workspace"@);
            let permission = contains_text(s, "permission_required"@)
                || contains_text(s, "permission_denied"@)
                || contains_text(s, "tool_scope_forbidden"@)
                || contains_text(s, "requires permission grant"@)
                || contains_text(s, "permission"@);
            let mode = contains_text(s, "mode_tool_forbidden"@)
                || contains_text(s, "mode_forbidden"@)
                || contains_text(s, "tool_mode_mismatch"@)
                || contains_text(s, "mode"@);
            let sandbox = contains_text(s, "sandbox_forbidden"@)
                || contains_text(s, "sandbox_blocked"@)
                || contains_text(s, "sandbox"@);
            let network = contains_text(s, "network_forbidden"@)
                || contains_text(s, "network_blocked"@)
                || contains_text(s, "network_unreachable"@)
                || contains_text(s, "network"@);
            let precondition = contains_text(s, "file_must_be_read_first"@)
                || contains_text(s, "read_first"@)
                || contains_text(s, "file_must_read_first"@)
                || contains_text(s, "must be read first"@);
            let schema = contains_text(s, "tool_argument_parse_failed"@)
                || contains_text(s, "tool_argument_validation_failed"@)
                || contains_text(s, "tool_not_found"@)
                || contains_text(s, "schema_invalid"@)
                || contains_text(s, "argument_validation"@)
                || contains_text(s, "missing required param"@)
                || contains_text(s, "tool not found"@);
            let timeout = contains_text(s, "tool_timeout"@)
                || contains_text(s, "timed out"@)
                || contains_text(s, "timeout"@);
            let aborted = contains_text(s, "tool_aborted"@)
                || contains_text(s, "aborted"@)
                || contains_text(s, "aborterror"@);
            &&& kind == ToolFailureErrorKind::WriteScope <==> writescope
            &&& kind == ToolFailureErrorKind::Permission <==> !writescope && permission
            &&& kind == ToolFailureErrorKind::Mode <==> !writescope && !permission && mode
            &&& kind == ToolFailureErrorKind::Sandbox <==> !writescope && !permission && !mode && sandbox
            &&& kind == ToolFailureErrorKind::Network <==> !writescope && !permission && !mode && !sandbox && network
            &&& kind == ToolFailureErrorKind::Precondition <==> !writescope && !permission && !mode && !sandbox && !network && precondition
            &&& kind == ToolFailureErrorKind::Schema <==> !writescope && !permission && !mode && !sandbox && !network && !precondition && schema
            &&& kind == ToolFailureErrorKind::Timeout <==> !writescope && !permission && !mode && !sandbox && !network && !precondition && !schema && timeout
            &&& kind == ToolFailureErrorKind::Aborted <==> !writescope && !permission && !mode && !sandbox && !network && !precondition && !schema && !timeout && aborted
            &&& kind == ToolFailureErrorKind::Other <==> !writescope && !permission && !mode && !sandbox && !network && !precondition && !schema && !timeout && !aborted
        }),
{
    reveal_with_fuel(first_kind, 11);
}

/// The failures that the state of the session causes, all of them.
pub proof fn law_which_failures_the_state_causes(kind: ToolFailureErrorKind)
    ensures
        !state_error(kind) <==> kind == ToolFailureErrorKind::Precondition || kind
            == ToolFailureErrorKind::Execution || kind == ToolFailureErrorKind::Timeout || kind
            == ToolFailureErrorKind::Aborted || kind == ToolFailureErrorKind::Other,
{
}

/// The value of a small hexadecimal digit.
pub open spec fn hex_value(c: char) -> int {
    if '0' <= c <= '9' {
        c as int - '0' as int
    } else {
        c as int - 'a' as int + 10
    }
}

/// The fingerprint of arguments tells the beginning of the digest of their text, byte by
/// byte, so that arguments with different beginnings have different fingerprints.
pub proof fn law_a_fingerprint_tells_the_digest(args: JsonView, i: int)
    requires
        sha1_digest(encode_utf8(stable_text(args))).len() == 20,
        0 <= i < 8,
    ensures
        ({
            let f = args_fingerprint(args);
            let digest = sha1_digest(encode_utf8(stable_text(args)));
            &&& f.len() == 16
            &&& hex_value(f[2 * i]) * 16 + hex_value(f[2 * i + 1]) == digest[i]
            &&& 0 <= hex_value(f[2 * i]) < 16 && 0 <= hex_value(f[2 * i + 1]) < 16
        }),
{
    lemma_hex_text(sha1_digest(encode_utf8(stable_text(args))).take(8), i);
}

proof fn lemma_hex_text(bytes: Seq<u8>, i: int)
    requires
        0 <= i < bytes.len(),
    ensures
        hex_text(bytes).len() == 2 * bytes.len(),
        hex_value(hex_text(bytes)[2 * i]) * 16 + hex_value(hex_text(bytes)[2 * i + 1]) == bytes[i],
        0 <= hex_value(hex_text(bytes)[2 * i]) < 16,
        0 <= hex_value(hex_text(bytes)[2 * i + 1]) < 16,
    decreases bytes.len(),
{
    let front = bytes.drop_last();
    lemma_hex_text_len(front);
    if i < front.len() {
        lemma_hex_text(front, i);
        assert(hex_text(bytes)[2 * i] == hex_text(front)[2 * i]);
        assert(hex_text(bytes)[2 * i + 1] == hex_text(front)[2 * i + 1]);
    } else {
        let b = bytes.last() as int;
        assert(b == b / 16 * 16 + b % 16);
        assert(0 <= b / 16 < 16);
        lemma_hex_digit(b / 16);
        lemma_hex_digit(b % 16);
    }
}

proof fn lemma_hex_text_len(bytes: Seq<u8>)
    ensures
        hex_text(bytes).len() == 2 * bytes.len(),
    decreases bytes.len(),
{
    if bytes.len() > 0 {
        lemma_hex_text_len(bytes.drop_last());
    }
}

proof fn lemma_hex_digit(d: int)
    requires
        0 <= d < 16,
    ensures
        hex_value(hex_digit(d)) == d,
{
}

/// The names of the kinds of failures.
pub proof fn law_how_kinds_are_named(kind: ToolFailureErrorKind)
    ensures
        kind == ToolFailureErrorKind::Permission ==> kind_name(kind) == "permission"@,
        kind == ToolFailureErrorKind::Mode ==> kind_name(kind) == "mode"@,
        kind == ToolFailureErrorKind::WriteScope ==> kind_name(kind) == "write_scope"@,
        kind == ToolFailureErrorKind::Sandbox ==> kind_name(kind) == "sandbox"@,
        kind == ToolFailureErrorKind::Network ==> kind_name(kind) == "network"@,
        kind == ToolFailureErrorKind::Schema ==> kind_name(kind) == "schema"@,
        kind == ToolFailureErrorKind::Precondition ==> kind_name(kind) == "precondition"@,
        kind == ToolFailureErrorKind::Execution ==> kind_name(kind) == "execution"@,
        kind == ToolFailureErrorKind::Timeout ==> kind_name(kind) == "timeout"@,
        kind == ToolFailureErrorKind::Aborted ==> kind_name(kind) == "aborted"@,
        kind == ToolFailureErrorKind::Other ==> kind_name(kind) == "other"@,
{
}

} // verus!
