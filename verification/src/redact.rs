//! Keeping secrets out of what is stored: tokens with a well-known beginning and
//! bearer tokens give way to a marker.
use vstd::prelude::*;

use crate::json::{
    json_views, lemma_json_view, lemma_parts_are_smaller, member_views, Json, JsonView,
};
use crate::text::{
    ascii_lower, chars_of, contains_text, find_text, first_occurrence, foreign_to, is_white_space,
    lemma_first_occurrence, lemma_first_occurrence_skip, lemma_no_text_across_marker,
    lemma_part_contains_no_more, lower_string, lower_text, occurs_at, string_of_range, white_space,
};

verus! {

/// A character that ends a token.
pub open spec fn ends_token(c: char) -> bool {
    white_space(c) || c == '"' || c == '\'' || c == ',' || c == ';' || c == ')' || c == ']' || c
        == '}' || c == '<' || c == '>'
}

fn is_token_end(c: char) -> (b: bool)
    ensures
        b == ends_token(c),
{
    is_white_space(c) || c == '"' || c == '\'' || c == ',' || c == ';' || c == ')' || c == ']' || c
        == '}' || c == '<' || c == '>'
}

/// Where the token that stands at `from` ends.
pub open spec fn token_end(s: Seq<char>, from: int) -> int
    decreases s.len() - from,
{
    if from >= s.len() {
        s.len() as int
    } else if ends_token(s[from]) {
        from
    } else {
        token_end(s, from + 1)
    }
}

fn find_token_end(v: &[char], from: usize) -> (e: usize)
    requires
        from <= v@.len(),
    ensures
        e == token_end(v@, from as int),
        from <= e <= v@.len(),
{
    let mut e: usize = from;
    while e < v.len() && !is_token_end(v[e])
        invariant
            from <= e <= v@.len(),
            token_end(v@, from as int) == token_end(v@, e as int),
        decreases v@.len() - e,
    {
        e += 1;
    }
    e
}

proof fn lemma_token_end(s: Seq<char>, from: int)
    requires
        0 <= from <= s.len(),
    ensures
        from <= token_end(s, from) <= s.len(),
        from < s.len() && !ends_token(s[from]) ==> from < token_end(s, from),
        token_end(s, from) < s.len() ==> ends_token(s[token_end(s, from)]),
    decreases s.len() - from,
{
    if from < s.len() && !ends_token(s[from]) {
        lemma_token_end(s, from + 1);
    }
}

/// `s` with each token part from `prefix` to the end of the token replaced.
pub open spec fn without_prefixed(s: Seq<char>, prefix: Seq<char>) -> Seq<char>
    decreases s.len(),
{
    match first_occurrence(s, prefix, 0) {
        Some(i) => if 0 <= i < token_end(s, i) <= s.len() {
            s.take(i) + "[redacted]"@ + without_prefixed(s.skip(token_end(s, i)), prefix)
        } else {
            s
        },
        None => s,
    }
}

/// A beginning of secrets: not empty, and its first character ends no token.
pub open spec fn token_prefix(prefix: Seq<char>) -> bool {
    prefix.len() > 0 && !ends_token(prefix[0])
}

fn redact_prefixed_secret(text: &str, prefix: &str) -> (r: String)
    requires
        token_prefix(prefix@),
    ensures
        r@ == without_prefixed(text@, prefix@),
{
    let v = chars_of(text);
    let w = chars_of(prefix);
    let n: usize = v.len();
    let mut r = String::new();
    let mut from: usize = 0;
    assert(v@.skip(0) =~= v@);
    loop
        invariant
            n == v@.len(),
            token_prefix(w@),
            w@ == prefix@,
            v@ == text@,
            from <= n,
            without_prefixed(text@, prefix@) == r@ + without_prefixed(
                v@.skip(from as int),
                prefix@,
            ),
        decreases n - from,
    {
        let ghost rest = v@.skip(from as int);
        match find_text(&v, &w, from) {
            Some(i) => {
                let end = find_token_end(&v, i);
                proof {
                    lemma_first_occurrence_skip(v@, w@, from as int, 0);
                    lemma_first_occurrence(v@, w@, from as int);
                    let k = i - from;
                    assert(first_occurrence(rest, w@, 0) == Some(k));
                    assert(v@.subrange(i as int, i + w@.len())[0] == w@[0]);
                    lemma_token_end(v@, i as int);
                    lemma_token_end_skip(v@, from as int, k);
                    assert(rest.take(k) =~= v@.subrange(from as int, i as int));
                    assert(rest.skip(end - from) =~= v@.skip(end as int));
                }
                let gap = string_of_range(&v, from, i);
                let ghost before = r@;
                r.append(gap.as_str());
                r.append("[redacted]");
                from = end;
                assert(r@ + without_prefixed(v@.skip(from as int), prefix@) =~= before
                    + without_prefixed(rest, prefix@));
            },
            None => {
                proof {
                    lemma_first_occurrence_skip(v@, w@, from as int, 0);
                    assert(first_occurrence(rest, w@, 0) is None);
                    assert(v@.subrange(from as int, n as int) =~= rest);
                }
                let gap = string_of_range(&v, from, n);
                r.append(gap.as_str());
                return r;
            },
        }
    }
}

proof fn lemma_token_end_skip(s: Seq<char>, from: int, k: int)
    requires
        0 <= from <= s.len(),
        0 <= k <= s.len() - from,
    ensures
        token_end(s.skip(from), k) == token_end(s, from + k) - from,
    decreases s.len() - from - k,
{
    if from + k < s.len() && !ends_token(s[from + k]) {
        lemma_token_end_skip(s, from, k + 1);
    }
}

pub open spec fn ascii_alphanumeric(c: char) -> bool {
    ('0' <= c <= '9') || ('a' <= c <= 'z') || ('A' <= c <= 'Z')
}

/// The word `bearer` stands at `i`, in any case of letters, and no letter or digit
/// stands before it.
pub open spec fn bearer_at(s: Seq<char>, i: int) -> bool {
    occurs_at(lower_text(s), "bearer"@, i) && (i == 0 || !ascii_alphanumeric(s[i - 1]))
}

/// The first place from `from` on at which the word `bearer` stands.
pub open spec fn next_bearer(s: Seq<char>, from: int) -> Option<int>
    decreases s.len() - from,
{
    if from >= s.len() {
        None
    } else if bearer_at(s, from) {
        Some(from)
    } else {
        next_bearer(s, from + 1)
    }
}

/// Where the blanks from `from` on end.
pub open spec fn blanks_end(s: Seq<char>, from: int) -> int
    decreases s.len() - from,
{
    if from < s.len() && s[from] == ' ' {
        blanks_end(s, from + 1)
    } else {
        from
    }
}

/// What a bearer token is replaced by: nothing where there is none.
pub open spec fn token_marker(s: Seq<char>, from: int) -> Seq<char> {
    if token_end(s, from) > from {
        "[redacted]"@
    } else {
        Seq::empty()
    }
}

/// `s` from `from` on, with the token behind each word `bearer` replaced.
pub open spec fn without_bearer(s: Seq<char>, from: int) -> Seq<char>
    decreases s.len() - from,
{
    match next_bearer(s, from) {
        Some(i) => {
            let t = blanks_end(s, i + 6);
            if from <= i && i + 6 <= t && t <= token_end(s, t) <= s.len() {
                s.subrange(from, i) + "Bearer"@ + s.subrange(i + 6, t) + token_marker(s, t)
                    + without_bearer(s, token_end(s, t))
            } else {
                s.skip(from)
            }
        },
        None => s.skip(from),
    }
}

proof fn lemma_next_bearer(s: Seq<char>, from: int)
    requires
        0 <= from,
    ensures
        match next_bearer(s, from) {
            Some(i) => from <= i && i + 6 <= s.len() && bearer_at(s, i) && forall|j: int|
                from <= j < i ==> !bearer_at(s, j),
            None => forall|j: int| from <= j < s.len() ==> !bearer_at(s, j),
        },
    decreases s.len() - from,
{
    reveal_strlit("bearer");
    if from < s.len() && !bearer_at(s, from) {
        lemma_next_bearer(s, from + 1);
    }
}

proof fn lemma_blanks_end(s: Seq<char>, from: int)
    requires
        0 <= from <= s.len(),
    ensures
        from <= blanks_end(s, from) <= s.len(),
        forall|j: int| from <= j < blanks_end(s, from) ==> s[j] == ' ',
    decreases s.len() - from,
{
    if from < s.len() && s[from] == ' ' {
        lemma_blanks_end(s, from + 1);
    }
}

proof fn lemma_next_bearer_found(s: Seq<char>, from: int, i: int)
    requires
        0 <= from <= i < s.len(),
        bearer_at(s, i),
        forall|j: int| from <= j < i ==> !bearer_at(s, j),
    ensures
        next_bearer(s, from) == Some(i),
    decreases i - from,
{
    if from < i {
        lemma_next_bearer_found(s, from + 1, i);
    }
}

proof fn lemma_next_bearer_none(s: Seq<char>, from: int)
    requires
        0 <= from,
        forall|j: int| from <= j < s.len() ==> !bearer_at(s, j),
    ensures
        next_bearer(s, from) is None,
    decreases s.len() - from,
{
    if from < s.len() {
        lemma_next_bearer_none(s, from + 1);
    }
}

fn is_alphanumeric(c: char) -> (b: bool)
    ensures
        b == ascii_alphanumeric(c),
{
    ('0' <= c && c <= '9') || ('a' <= c && c <= 'z') || ('A' <= c && c <= 'Z')
}

/// The first place from `from` on at which the word `bearer` stands.
fn find_bearer(v: &[char], lower: &[char], from: usize) -> (r: Option<usize>)
    requires
        from <= v@.len(),
        lower@ == lower_text(v@),
    ensures
        match r {
            Some(i) => next_bearer(v@, from as int) == Some(i as int) && from <= i && i + 6
                <= v@.len(),
            None => next_bearer(v@, from as int) is None,
        },
{
    proof {
        reveal_strlit("bearer");
    }
    let word = chars_of("bearer");
    let mut at: usize = from;
    while at <= lower.len()
        invariant
            from <= at <= v@.len(),
            lower@ == lower_text(v@),
            word@ == "bearer"@,
            word@.len() == 6,
            forall|j: int| from <= j < at ==> !bearer_at(v@, j),
        decreases v@.len() - at,
    {
        proof {
            lemma_first_occurrence(lower@, word@, at as int);
        }
        match find_text(lower, &word, at) {
            None => {
                proof {
                    lemma_next_bearer_none(v@, from as int);
                }
                return None;
            },
            Some(i) => {
                if i == 0 || !is_alphanumeric(v[i - 1]) {
                    proof {
                        lemma_next_bearer_found(v@, from as int, i as int);
                    }
                    return Some(i);
                }
                at = i + 1;
            },
        }
    }
    None
}

fn find_blanks_end(v: &[char], from: usize) -> (e: usize)
    requires
        from <= v@.len(),
    ensures
        e == blanks_end(v@, from as int),
        from <= e <= v@.len(),
{
    let mut e: usize = from;
    while e < v.len() && v[e] == ' '
        invariant
            from <= e <= v@.len(),
            blanks_end(v@, from as int) == blanks_end(v@, e as int),
        decreases v@.len() - e,
    {
        e += 1;
    }
    e
}

fn redact_bearer_token(text: &str) -> (r: String)
    ensures
        r@ == without_bearer(text@, 0),
{
    let v = chars_of(text);
    let lower_text_string = lower_string(text);
    let lower = chars_of(lower_text_string.as_str());
    let n: usize = v.len();
    let mut r = String::new();
    let mut from: usize = 0;
    loop
        invariant
            n == v@.len(),
            v@ == text@,
            lower@ == lower_text(v@),
            from <= n,
            without_bearer(text@, 0) == r@ + without_bearer(v@, from as int),
        decreases n - from,
    {
        match find_bearer(&v, &lower, from) {
            Some(i) => {
                let blanks = find_blanks_end(&v, i + 6);
                let end = find_token_end(&v, blanks);
                let ghost before = r@;
                let gap = string_of_range(&v, from, i);
                r.append(gap.as_str());
                r.append("Bearer");
                let spaces = string_of_range(&v, i + 6, blanks);
                r.append(spaces.as_str());
                if end > blanks {
                    r.append("[redacted]");
                }
                assert(r@ =~= before + v@.subrange(from as int, i as int) + "Bearer"@
                    + v@.subrange(i + 6, blanks as int) + token_marker(v@, blanks as int));
                assert(r@ + without_bearer(v@, end as int) =~= before + without_bearer(
                    v@,
                    from as int,
                ));
                from = end;
            },
            None => {
                let gap = string_of_range(&v, from, n);
                assert(gap@ =~= v@.skip(from as int));
                r.append(gap.as_str());
                return r;
            },
        }
    }
}

/// A text without the secrets that are recognized in it.
pub open spec fn without_secrets(s: Seq<char>) -> Seq<char> {
    without_bearer(
        without_prefixed(
            without_prefixed(
                without_prefixed(without_prefixed(s, "sk-"@), "sk-ant-"@),
                "AKIA"@,
            ),
            "ASIA"@,
        ),
        0,
    )
}

proof fn lemma_known_prefixes()
    ensures
        token_prefix("sk-"@),
        token_prefix("sk-ant-"@),
        token_prefix("AKIA"@),
        token_prefix("ASIA"@),
{
    reveal_strlit("sk-");
    reveal_strlit("sk-ant-");
    reveal_strlit("AKIA");
    reveal_strlit("ASIA");
}

pub fn redact_secret_text(text: &str) -> (r: String)
    ensures
        r@ == without_secrets(text@),
{
    proof {
        lemma_known_prefixes();
    }
    let a = redact_prefixed_secret(text, "sk-");
    let b = redact_prefixed_secret(a.as_str(), "sk-ant-");
    let c = redact_prefixed_secret(b.as_str(), "AKIA");
    let d = redact_prefixed_secret(c.as_str(), "ASIA");
    redact_bearer_token(d.as_str())
}

/// A value without the secrets that are recognized in its texts. The names of
/// members stay.
pub open spec fn redacted_payload(v: JsonView) -> JsonView
    decreases v,
{
    match v {
        JsonView::String(s) => JsonView::String(without_secrets(s)),
        JsonView::Array(items) => JsonView::Array(redacted_items(items)),
        JsonView::Object(members) => JsonView::Object(redacted_members(members)),
        other => other,
    }
}

pub open spec fn redacted_items(items: Seq<JsonView>) -> Seq<JsonView>
    decreases items,
{
    Seq::new(
        items.len(),
        |i: int|
            if 0 <= i < items.len() {
                redacted_payload(items[i])
            } else {
                JsonView::Null
            },
    )
}

pub open spec fn redacted_members(members: Seq<(Seq<char>, JsonView)>) -> Seq<
    (Seq<char>, JsonView),
>
    decreases members,
{
    Seq::new(
        members.len(),
        |i: int|
            if 0 <= i < members.len() {
                (members[i].0, redacted_payload(members[i].1))
            } else {
                (Seq::empty(), JsonView::Null)
            },
    )
}

pub fn redact_event_payload(value: &Json) -> (r: Json)
    ensures
        r@ == redacted_payload(value@),
    decreases value,
{
    proof {
        lemma_json_view(*value);
    }
    match value {
        Json::String(text) => Json::String(redact_secret_text(text.as_str())),
        Json::Array(items) => {
            let mut kept: Vec<Json> = Vec::new();
            let mut i: usize = 0;
            while i < items.len()
                invariant
                    i <= items@.len(),
                    *value == Json::Array(*items),
                    kept@.len() == i,
                    forall|j: int|
                        0 <= j < i ==> #[trigger] kept@[j]@ == redacted_payload(items@[j]@),
                decreases items@.len() - i,
            {
                proof {
                    lemma_parts_are_smaller(*value, i as int);
                }
                kept.push(redact_event_payload(&items[i]));
                i += 1;
            }
            let r = Json::Array(kept);
            proof {
                lemma_json_view(r);
                assert(json_views(kept@) =~= redacted_items(json_views(items@)));
            }
            r
        },
        Json::Object(members) => {
            let mut kept: Vec<(String, Json)> = Vec::new();
            let mut i: usize = 0;
            while i < members.len()
                invariant
                    i <= members@.len(),
                    *value == Json::Object(*members),
                    kept@.len() == i,
                    forall|j: int|
                        0 <= j < i ==> (#[trigger] kept@[j]).0@ == members@[j].0@ && kept@[j].1@
                            == redacted_payload(members@[j].1@),
                decreases members@.len() - i,
            {
                proof {
                    lemma_parts_are_smaller(*value, i as int);
                }
                kept.push((members[i].0.clone(), redact_event_payload(&members[i].1)));
                i += 1;
            }
            let r = Json::Object(kept);
            proof {
                lemma_json_view(r);
                assert(member_views(kept@) =~= redacted_members(member_views(members@)));
            }
            r
        },
        other => other.clone(),
    }
}

/// A text that cannot come into being where tokens give way to markers: its first
/// character stands in no marker, and it has no first or last character of one.
pub open spec fn unmarked(q: Seq<char>) -> bool {
    &&& q.len() > 0
    &&& !marker_char(q[0])
    &&& !q.contains('B')
    &&& !q.contains('r')
    &&& !q.contains(' ')
    &&& !q.contains('[')
    &&& !q.contains(']')
}

pub open spec fn marker_char(c: char) -> bool {
    c == 'B' || c == 'e' || c == 'a' || c == 'r' || c == ' ' || c == '[' || c == 'd' || c == 'c'
        || c == 't' || c == ']'
}

proof fn lemma_known_prefixes_are_unmarked()
    ensures
        unmarked("sk-"@),
        unmarked("AKIA"@),
        unmarked("ASIA"@),
{
    reveal_strlit("sk-");
    reveal_strlit("AKIA");
    reveal_strlit("ASIA");
    assert("sk-"@ =~= seq!['s', 'k', '-']);
    assert("AKIA"@ =~= seq!['A', 'K', 'I', 'A']);
    assert("ASIA"@ =~= seq!['A', 'S', 'I', 'A']);
}

/// What is made of characters of markers only is foreign to an unmarked text.
proof fn lemma_unmarked_is_foreign(q: Seq<char>, marker: Seq<char>)
    requires
        unmarked(q),
        marker.len() > 0,
        forall|i: int| 0 <= i < marker.len() ==> marker_char(#[trigger] marker[i]),
        marker[0] == 'B' || marker[0] == '[',
        marker.last() == 'r' || marker.last() == ' ' || marker.last() == ']',
    ensures
        foreign_to(q, marker),
{
    if contains_text(marker, q) {
        let i = choose|i: int| occurs_at(marker, q, i);
        assert(marker.subrange(i, i + q.len())[0] == marker[i]);
    }
}

proof fn lemma_marker_chars()
    ensures
        "[redacted]"@.len() == 10,
        "[redacted]"@[0] == '[',
        "[redacted]"@.last() == ']',
        forall|i: int| 0 <= i < 10 ==> marker_char(#[trigger] "[redacted]"@[i]),
        "Bearer"@.len() == 6,
        "Bearer"@[0] == 'B',
        "Bearer"@.last() == 'r',
        forall|i: int| 0 <= i < 6 ==> marker_char(#[trigger] "Bearer"@[i]),
{
    reveal_strlit("[redacted]");
    reveal_strlit("Bearer");
    assert("[redacted]"@ =~= seq!['[', 'r', 'e', 'd', 'a', 'c', 't', 'e', 'd', ']']);
    assert("Bearer"@ =~= seq!['B', 'e', 'a', 'r', 'e', 'r']);
}

proof fn lemma_prefixed_is_gone(s: Seq<char>, prefix: Seq<char>)
    requires
        token_prefix(prefix),
        unmarked(prefix),
    ensures
        !contains_text(without_prefixed(s, prefix), prefix),
    decreases s.len(),
{
    lemma_marker_chars();
    lemma_unmarked_is_foreign(prefix, "[redacted]"@);
    lemma_first_occurrence(s, prefix, 0);
    match first_occurrence(s, prefix, 0) {
        Some(i) => {
            assert(s.subrange(i, i + prefix.len())[0] == prefix[0]);
            lemma_token_end(s, i);
            let e = token_end(s, i);
            lemma_prefixed_is_gone(s.skip(e), prefix);
            if contains_text(s.take(i), prefix) {
                let j = choose|j: int| occurs_at(s.take(i), prefix, j);
                assert(s.subrange(j, j + prefix.len()) =~= s.take(i).subrange(
                    j,
                    j + prefix.len(),
                ));
                assert(occurs_at(s, prefix, j));
            }
            lemma_no_text_across_marker(
                s.take(i),
                "[redacted]"@,
                without_prefixed(s.skip(e), prefix),
                prefix,
            );
        },
        None => {
            if contains_text(s, prefix) {
                let j = choose|j: int| occurs_at(s, prefix, j);
            }
        },
    }
}

proof fn lemma_prefixed_brings_nothing(s: Seq<char>, prefix: Seq<char>, q: Seq<char>)
    requires
        unmarked(q),
        !contains_text(s, q),
    ensures
        !contains_text(without_prefixed(s, prefix), q),
    decreases s.len(),
{
    lemma_marker_chars();
    lemma_unmarked_is_foreign(q, "[redacted]"@);
    match first_occurrence(s, prefix, 0) {
        Some(i) => {
            let e = token_end(s, i);
            if 0 <= i < e <= s.len() {
                lemma_part_contains_no_more(s, 0, i, q);
                lemma_part_contains_no_more(s, e, s.len() as int, q);
                assert(s.take(i) =~= s.subrange(0, i));
                assert(s.skip(e) =~= s.subrange(e, s.len() as int));
                lemma_prefixed_brings_nothing(s.skip(e), prefix, q);
                lemma_no_text_across_marker(
                    s.take(i),
                    "[redacted]"@,
                    without_prefixed(s.skip(e), prefix),
                    q,
                );
            }
        },
        None => {},
    }
}

proof fn lemma_bearer_brings_nothing(s: Seq<char>, from: int, q: Seq<char>)
    requires
        unmarked(q),
        !contains_text(s, q),
        0 <= from <= s.len(),
    ensures
        !contains_text(without_bearer(s, from), q),
    decreases s.len() - from,
{
    lemma_part_contains_no_more(s, from, s.len() as int, q);
    assert(s.skip(from) =~= s.subrange(from, s.len() as int));
    lemma_next_bearer(s, from);
    match next_bearer(s, from) {
        Some(i) => {
            lemma_blanks_end(s, i + 6);
            let t = blanks_end(s, i + 6);
            lemma_token_end(s, t);
            let e = token_end(s, t);
            let blanks = s.subrange(i + 6, t);
            let marker = "Bearer"@ + blanks + token_marker(s, t);
            lemma_marker_chars();
            assert forall|k: int| 0 <= k < marker.len() implies marker_char(
                #[trigger] marker[k],
            ) by {
                if k < 6 {
                    assert(marker[k] == "Bearer"@[k]);
                } else if k < 6 + blanks.len() {
                    assert(marker[k] == s[i + k]);
                } else {
                    assert(marker[k] == "[redacted]"@[k - 6 - blanks.len()]);
                }
            }
            assert(marker[0] == 'B');
            if token_marker(s, t).len() > 0 {
                assert(marker.last() == "[redacted]"@.last());
            } else if blanks.len() > 0 {
                assert(marker.last() == blanks.last());
                assert(blanks.last() == s[t - 1]);
            } else {
                assert(marker.last() == "Bearer"@.last());
            }
            lemma_unmarked_is_foreign(q, marker);
            lemma_bearer_brings_nothing(s, e, q);
            lemma_part_contains_no_more(s, from, i, q);
            lemma_no_text_across_marker(s.subrange(from, i), marker, without_bearer(s, e), q);
            assert(without_bearer(s, from) =~= s.subrange(from, i) + marker + without_bearer(s, e));
        },
        None => {},
    }
}

/// No key of a well-known kind survives: what is stored holds none of the
/// beginnings by which such keys are recognized.
pub proof fn law_no_known_key_survives(s: Seq<char>)
    ensures
        !contains_text(without_secrets(s), "sk-"@),
        !contains_text(without_secrets(s), "AKIA"@),
        !contains_text(without_secrets(s), "ASIA"@),
{
    lemma_known_prefixes();
    lemma_known_prefixes_are_unmarked();
    let a = without_prefixed(s, "sk-"@);
    let b = without_prefixed(a, "sk-ant-"@);
    let c = without_prefixed(b, "AKIA"@);
    let d = without_prefixed(c, "ASIA"@);
    lemma_prefixed_is_gone(s, "sk-"@);
    lemma_prefixed_brings_nothing(a, "sk-ant-"@, "sk-"@);
    lemma_prefixed_brings_nothing(b, "AKIA"@, "sk-"@);
    lemma_prefixed_brings_nothing(c, "ASIA"@, "sk-"@);
    lemma_prefixed_is_gone(b, "AKIA"@);
    lemma_prefixed_brings_nothing(c, "ASIA"@, "AKIA"@);
    lemma_prefixed_is_gone(c, "ASIA"@);
    lemma_bearer_brings_nothing(d, 0, "sk-"@);
    lemma_bearer_brings_nothing(d, 0, "AKIA"@);
    lemma_bearer_brings_nothing(d, 0, "ASIA"@);
}

/// Behind the word `bearer` that stands at `i` there is no token: blanks, and then the
/// marker, the end of the text, or a character that ends a token.
pub open spec fn token_is_gone(s: Seq<char>, i: int) -> bool {
    let t = blanks_end(s, i + 6);
    t >= s.len() || ends_token(s[t]) || occurs_at(s, "[redacted]"@, t)
}

/// The word `bearer` stands at `k` of a text before which `before` stands.
spec fn bearer_behind(before: Option<char>, s: Seq<char>, k: int) -> bool {
    &&& occurs_at(lower_text(s), "bearer"@, k)
    &&& k == 0 ==> before is None || !ascii_alphanumeric(before->0)
    &&& k > 0 ==> !ascii_alphanumeric(s[k - 1])
}

spec fn char_before(s: Seq<char>, from: int) -> Option<char> {
    if from == 0 {
        None
    } else {
        Some(s[from - 1])
    }
}

proof fn lemma_lower_words()
    ensures
        "bearer"@ == seq!['b', 'e', 'a', 'r', 'e', 'r'],
        "Bearer"@ == seq!['B', 'e', 'a', 'r', 'e', 'r'],
        "[redacted]"@ == seq!['[', 'r', 'e', 'd', 'a', 'c', 't', 'e', 'd', ']'],
{
    reveal_strlit("bearer");
    reveal_strlit("Bearer");
    reveal_strlit("[redacted]");
    assert("bearer"@ =~= seq!['b', 'e', 'a', 'r', 'e', 'r']);
    assert("Bearer"@ =~= seq!['B', 'e', 'a', 'r', 'e', 'r']);
    assert("[redacted]"@ =~= seq!['[', 'r', 'e', 'd', 'a', 'c', 't', 'e', 'd', ']']);
}

/// The blanks from `from` on end where a character that is no blank comes.
proof fn lemma_blanks_end_at(s: Seq<char>, from: int, to: int)
    requires
        0 <= from <= to <= s.len(),
        forall|j: int| from <= j < to ==> s[j] == ' ',
        to < s.len() ==> s[to] != ' ',
    ensures
        blanks_end(s, from) == to,
    decreases to - from,
{
    if from < to {
        lemma_blanks_end_at(s, from + 1, to);
    }
}

/// No word begins with a character that ends a token.
proof fn lemma_delimiter_stays(s: Seq<char>, e: int)
    requires
        0 <= e < s.len(),
        ends_token(s[e]),
    ensures
        without_bearer(s, e).len() > 0,
        without_bearer(s, e)[0] == s[e],
{
    lemma_lower_words();
    lemma_next_bearer(s, e);
    assert(!bearer_at(s, e)) by {
        if bearer_at(s, e) {
            assert(lower_text(s).subrange(e, e + 6)[0] == 'b');
            assert(lower_text(s)[e] == 'b');
        }
    }
    match next_bearer(s, e) {
        Some(i) => {
            lemma_blanks_end(s, i + 6);
            let t = blanks_end(s, i + 6);
            lemma_token_end(s, t);
            assert(i > e);
            assert(without_bearer(s, e)[0] == s.subrange(e, i)[0]);
        },
        None => {},
    }
}

/// What is gone behind a word is gone where the text stands behind another.
proof fn lemma_gone_behind(a: Seq<char>, s: Seq<char>, k: int)
    requires
        0 <= k,
        k + 6 <= s.len(),
        token_is_gone(s, k),
    ensures
        token_is_gone(a + s, a.len() + k),
{
    let w = a + s;
    let n = a.len() as int;
    lemma_blanks_end(s, k + 6);
    let t = blanks_end(s, k + 6);
    lemma_not_blank(s, k + 6);
    assert forall|j: int| n + k + 6 <= j < n + t implies w[j] == ' ' by {
        assert(s[j - n] == ' ');
    }
    lemma_blanks_end_at(w, n + k + 6, n + t);
    if t < s.len() && !ends_token(s[t]) {
        let m = "[redacted]"@;
        assert(w.subrange(n + t, n + t + m.len()) =~= s.subrange(t, t + m.len()));
    }
}

proof fn lemma_not_blank(s: Seq<char>, from: int)
    requires
        0 <= from <= s.len(),
    ensures
        blanks_end(s, from) < s.len() ==> s[blanks_end(s, from)] != ' ',
    decreases s.len() - from,
{
    if from < s.len() && s[from] == ' ' {
        lemma_not_blank(s, from + 1);
    }
}

/// What comes of a text from `from` to behind the token of the word `bearer` at `i`.
spec fn redacted_head(s: Seq<char>, from: int, i: int) -> Seq<char> {
    let t = blanks_end(s, i + 6);
    s.subrange(from, i) + "Bearer"@ + s.subrange(i + 6, t) + token_marker(s, t)
}

proof fn lemma_redacted_head(s: Seq<char>, from: int, i: int)
    requires
        0 <= from <= s.len(),
        next_bearer(s, from) == Some(i),
    ensures
        from <= i,
        i + 6 <= blanks_end(s, i + 6) <= token_end(s, blanks_end(s, i + 6)) <= s.len(),
        without_bearer(s, from) == redacted_head(s, from, i) + without_bearer(
            s,
            token_end(s, blanks_end(s, i + 6)),
        ),
        redacted_head(s, from, i).len() == (i - from) + (blanks_end(s, i + 6) - i) + token_marker(
            s,
            blanks_end(s, i + 6),
        ).len(),
{
    lemma_lower_words();
    lemma_next_bearer(s, from);
    lemma_blanks_end(s, i + 6);
    lemma_token_end(s, blanks_end(s, i + 6));
}

/// Before the first word, what is made of a text holds no word.
proof fn lemma_no_bearer_before(s: Seq<char>, from: int, i: int, w: Seq<char>, k: int)
    requires
        0 <= from <= s.len(),
        next_bearer(s, from) == Some(i),
        w.len() >= i - from + 6,
        w.subrange(0, i - from) == s.subrange(from, i),
        w.subrange(i - from, i - from + 6) == "Bearer"@,
        0 <= k < i - from,
    ensures
        !bearer_behind(char_before(s, from), w, k),
{
    lemma_lower_words();
    lemma_next_bearer(s, from);
    let n = i - from;
    if bearer_behind(char_before(s, from), w, k) {
        let found = lower_text(w).subrange(k, k + 6);
        assert forall|j: int| 0 <= j < 6 implies lower_text(s)[from + k + j]
            == "bearer"@[j] by {
            assert(found[j] == lower_text(w)[k + j]);
            if k + j < n {
                assert(w.subrange(0, n)[k + j] == s.subrange(from, i)[k + j]);
            } else {
                assert(w.subrange(n, n + 6)[k + j - n] == "Bearer"@[k + j - n]);
                assert(lower_text(s).subrange(i, i + 6)[k + j - n] == lower_text(s)[from + k + j]);
            }
        }
        assert(lower_text(s).subrange(from + k, from + k + 6) =~= "bearer"@);
        if k > 0 {
            assert(w.subrange(0, n)[k - 1] == s.subrange(from, i)[k - 1]);
        }
        assert(bearer_at(s, from + k));
    }
}

/// Behind the first word there is no token.
proof fn lemma_first_bearer_is_gone(s: Seq<char>, from: int, i: int)
    requires
        0 <= from <= s.len(),
        next_bearer(s, from) == Some(i),
    ensures
        token_is_gone(without_bearer(s, from), i - from),
{
    lemma_lower_words();
    lemma_redacted_head(s, from, i);
    lemma_blanks_end(s, i + 6);
    lemma_not_blank(s, i + 6);
    let t = blanks_end(s, i + 6);
    lemma_token_end(s, t);
    let e = token_end(s, t);
    let w = without_bearer(s, from);
    let h = redacted_head(s, from, i);
    let rest = without_bearer(s, e);
    let n = i - from;
    let b = t - from;
    assert forall|j: int| n + 6 <= j < b implies w[j] == ' ' by {
        assert(w[j] == h[j]);
        assert(h[j] == s.subrange(i + 6, t)[j - n - 6]);
    }
    if e > t {
        assert(w[b] == h[b]);
        assert(h[b] == "[redacted]"@[0]);
        lemma_blanks_end_at(w, n + 6, b);
        assert(w.subrange(b, b + 10) =~= "[redacted]"@);
    } else {
        if e < s.len() {
            lemma_delimiter_stays(s, e);
            assert(w[b] == rest[0]);
        } else {
            assert(rest.len() == 0);
        }
        lemma_blanks_end_at(w, n + 6, b);
    }
}

/// Between the first word and the end of its token no word begins.
proof fn lemma_no_bearer_within(s: Seq<char>, from: int, i: int, k: int)
    requires
        0 <= from <= s.len(),
        next_bearer(s, from) == Some(i),
        i - from < k < redacted_head(s, from, i).len(),
    ensures
        ascii_lower(redacted_head(s, from, i)[k]) != 'b',
{
    lemma_lower_words();
    lemma_redacted_head(s, from, i);
    lemma_blanks_end(s, i + 6);
    let t = blanks_end(s, i + 6);
    let h = redacted_head(s, from, i);
    let n = i - from;
    let b = t - from;
    if k < n + 6 {
        assert(h[k] == "Bearer"@[k - n]);
    } else if k < b {
        assert(h[k] == s.subrange(i + 6, t)[k - n - 6]);
    } else {
        assert(h[k] == "[redacted]"@[k - b]);
    }
}

proof fn lemma_bearer_is_gone(s: Seq<char>, from: int, k: int)
    requires
        0 <= from <= s.len(),
        bearer_behind(char_before(s, from), without_bearer(s, from), k),
    ensures
        token_is_gone(without_bearer(s, from), k),
    decreases s.len() - from,
{
    lemma_lower_words();
    lemma_next_bearer(s, from);
    let w = without_bearer(s, from);
    let found = lower_text(w).subrange(k, k + 6);
    assert(found[0] == 'b');
    assert(ascii_lower(w[k]) == 'b');
    match next_bearer(s, from) {
        Some(i) => {
            lemma_redacted_head(s, from, i);
            let e = token_end(s, blanks_end(s, i + 6));
            let h = redacted_head(s, from, i);
            let rest = without_bearer(s, e);
            let n = i - from;
            if k < n {
                assert(w.subrange(0, n) =~= s.subrange(from, i));
                assert(w.subrange(n, n + 6) =~= "Bearer"@);
                lemma_no_bearer_before(s, from, i, w, k);
            } else if k == n {
                lemma_first_bearer_is_gone(s, from, i);
            } else if k < h.len() {
                assert(w[k] == h[k]);
                lemma_no_bearer_within(s, from, i, k);
            } else {
                let m = k - h.len();
                lemma_token_end(s, blanks_end(s, i + 6));
                lemma_bearer_in_rest(s, e, h, k);
                lemma_bearer_is_gone(s, e, m);
                lemma_gone_behind(h, rest, m);
            }
        },
        None => {
            assert(w =~= s.skip(from));
            assert(lower_text(s).subrange(from + k, from + k + 6) =~= found);
            assert(k > 0 ==> w[k - 1] == s[from + k - 1]);
            assert(bearer_at(s, from + k));
        },
    }
}

/// A word behind the end of a token stands in what is made of the rest.
proof fn lemma_bearer_in_rest(s: Seq<char>, e: int, h: Seq<char>, k: int)
    requires
        0 <= e <= s.len(),
        e < s.len() ==> ends_token(s[e]),
        k >= h.len(),
        occurs_at(lower_text(h + without_bearer(s, e)), "bearer"@, k),
        k > 0 ==> !ascii_alphanumeric((h + without_bearer(s, e))[k - 1]),
    ensures
        bearer_behind(char_before(s, e), without_bearer(s, e), k - h.len()),
{
    lemma_lower_words();
    let rest = without_bearer(s, e);
    let w = h + rest;
    let m = k - h.len();
    let found = lower_text(w).subrange(k, k + 6);
    assert(lower_text(rest).subrange(m, m + 6) =~= found);
    assert(occurs_at(lower_text(rest), "bearer"@, m));
    if m == 0 {
        if e < s.len() {
            lemma_delimiter_stays(s, e);
            assert(found[0] == ascii_lower(rest[0]));
        } else {
            assert(rest.len() == 0);
        }
    } else {
        assert(rest[m - 1] == w[k - 1]);
    }
}

/// No bearer token survives: wherever the word stands in what is stored, no token
/// stands behind it.
pub proof fn law_no_bearer_token_survives(s: Seq<char>, i: int)
    requires
        bearer_at(without_secrets(s), i),
    ensures
        token_is_gone(without_secrets(s), i),
{
    let d = without_prefixed(
        without_prefixed(
            without_prefixed(without_prefixed(s, "sk-"@), "sk-ant-"@),
            "AKIA"@,
        ),
        "ASIA"@,
    );
    lemma_bearer_is_gone(d, 0, i);
}

/// Redacting changes texts only: the shape of a value and the names in it stay.
pub proof fn law_redaction_keeps_the_shape(v: JsonView)
    ensures
        match v {
            JsonView::String(_) => redacted_payload(v) is String,
            JsonView::Array(items) => redacted_payload(v) is Array
                && redacted_payload(v)->Array_0.len() == items.len(),
            JsonView::Object(members) => redacted_payload(v) is Object
                && redacted_payload(v)->Object_0.len() == members.len() && forall|i: int|
                0 <= i < members.len() ==> (#[trigger] redacted_payload(v)->Object_0[i]).0
                    == members[i].0,
            other => redacted_payload(v) == other,
        },
{
}

/// A text in which nothing looks like a secret: no beginning of a known key, and no word
/// `bearer`, in whatever letters.
pub open spec fn harmless(s: Seq<char>) -> bool {
    &&& !contains_text(s, "sk-"@)
    &&& !contains_text(s, "AKIA"@)
    &&& !contains_text(s, "ASIA"@)
    &&& !contains_text(lower_text(s), "bearer"@)
}

/// No text in the value looks like a secret.
pub open spec fn harmless_value(v: JsonView) -> bool
    decreases v,
{
    match v {
        JsonView::String(s) => harmless(s),
        JsonView::Array(items) => forall|i: int|
            0 <= i < items.len() ==> harmless_value(#[trigger] items[i]),
        JsonView::Object(members) => forall|i: int|
            0 <= i < members.len() ==> harmless_value((#[trigger] members[i]).1),
        _ => true,
    }
}

proof fn lemma_no_occurrence(s: Seq<char>, p: Seq<char>)
    requires
        !contains_text(s, p),
    ensures
        first_occurrence(s, p, 0) is None,
        without_prefixed(s, p) == s,
{
    crate::text::lemma_first_occurrence(s, p, 0);
    if first_occurrence(s, p, 0) is Some {
        assert(occurs_at(s, p, first_occurrence(s, p, 0)->0));
    }
}

/// What looks like no secret is kept as it is.
pub proof fn law_harmless_texts_are_kept(s: Seq<char>)
    requires
        harmless(s),
    ensures
        without_secrets(s) == s,
{
    reveal_strlit("sk-");
    reveal_strlit("sk-ant-");
    lemma_no_occurrence(s, "sk-"@);
    if contains_text(s, "sk-ant-"@) {
        let i = choose|i: int| occurs_at(s, "sk-ant-"@, i);
        assert(s.subrange(i, i + 7) == "sk-ant-"@);
        assert(s.subrange(i, i + 3) =~= s.subrange(i, i + 7).take(3));
        assert("sk-ant-"@.take(3) =~= "sk-"@);
        assert(occurs_at(s, "sk-"@, i));
    }
    lemma_no_occurrence(s, "sk-ant-"@);
    lemma_no_occurrence(s, "AKIA"@);
    lemma_no_occurrence(s, "ASIA"@);
    lemma_next_bearer(s, 0);
    if next_bearer(s, 0) is Some {
        assert(occurs_at(lower_text(s), "bearer"@, next_bearer(s, 0)->0));
    }
    assert(s.skip(0) =~= s);
}

/// A value keeps everything that looks like no secret: whole parts of it, numbers, and the
/// names of all members; and each part is redacted by itself.
pub proof fn law_harmless_values_are_kept(v: JsonView)
    ensures
        harmless_value(v) ==> redacted_payload(v) == v,
        match v {
            JsonView::String(s) => redacted_payload(v) == JsonView::String(without_secrets(s)),
            JsonView::Array(items) => forall|i: int|
                0 <= i < items.len() ==> #[trigger] redacted_payload(v)->Array_0[i]
                    == redacted_payload(items[i]),
            JsonView::Object(members) => forall|i: int|
                0 <= i < members.len() ==> (#[trigger] redacted_payload(v)->Object_0[i]).1
                    == redacted_payload(members[i].1),
            _ => redacted_payload(v) == v,
        },
    decreases v,
{
    if harmless_value(v) {
        match v {
            JsonView::String(s) => {
                law_harmless_texts_are_kept(s);
            },
            JsonView::Array(items) => {
                assert forall|i: int| 0 <= i < items.len() implies redacted_payload(
                    #[trigger] items[i],
                ) == items[i] by {
                    law_harmless_values_are_kept(items[i]);
                }
                assert(redacted_items(items) =~= items);
            },
            JsonView::Object(members) => {
                assert forall|i: int| 0 <= i < members.len() implies redacted_payload(
                    (#[trigger] members[i]).1,
                ) == members[i].1 by {
                    law_harmless_values_are_kept(members[i].1);
                }
                assert(redacted_members(members) =~= members);
            },
            _ => {},
        }
    }
}

/// A token ends at white space, at a quote, at punctuation that closes or separates, and
/// nowhere else.
pub proof fn law_where_tokens_end(c: char)
    ensures
        ends_token(c) <==> white_space(c) || c == '"' || c == '\'' || c == ',' || c == ';' || c
            == ')' || c == ']' || c == '}' || c == '<' || c == '>',
{
}

/// A key gives way to the marker, from its beginning to the end of its token; what stands
/// before it stays, and what stands behind it is looked at in the same way.
pub proof fn law_a_key_gives_way_to_the_marker(
    before: Seq<char>,
    key: Seq<char>,
    behind: Seq<char>,
    prefix: Seq<char>,
)
    requires
        token_prefix(prefix),
        prefix.is_prefix_of(key),
        forall|i: int| 0 <= i < key.len() ==> !ends_token(#[trigger] key[i]),
        behind.len() > 0 ==> ends_token(behind[0]),
        forall|i: int| 0 <= i < before.len() ==> !occurs_at(before + key + behind, prefix, i),
    ensures
        without_prefixed(before + key + behind, prefix) == before + "[redacted]"@
            + without_prefixed(behind, prefix),
{
    let s = before + key + behind;
    let i = before.len() as int;
    let e = i + key.len();
    assert(s.subrange(i, i + prefix.len()) =~= prefix) by {
        assert(key.subrange(0, prefix.len() as int) == prefix);
        assert(s.subrange(i, i + prefix.len()) =~= key.subrange(0, prefix.len() as int));
    }
    assert(occurs_at(s, prefix, i));
    crate::text::lemma_first_occurrence(s, prefix, 0);
    assert(first_occurrence(s, prefix, 0) == Some(i));
    assert forall|j: int| i <= j < e implies !ends_token(#[trigger] s[j]) by {
        assert(s[j] == key[j - i]);
    }
    if e < s.len() {
        assert(s[e] == behind[0]);
    }
    lemma_token_ends_at(s, i, e);
    assert(s.take(i) =~= before);
    assert(s.skip(e) =~= behind);
}

proof fn lemma_token_ends_at(s: Seq<char>, from: int, e: int)
    requires
        0 <= from <= e <= s.len(),
        forall|j: int| from <= j < e ==> !ends_token(#[trigger] s[j]),
        e == s.len() || ends_token(s[e]),
    ensures
        token_end(s, from) == e,
    decreases e - from,
{
    if from < e {
        assert(!ends_token(s[from]));
        lemma_token_ends_at(s, from + 1, e);
    }
}

/// The token behind a word `bearer` gives way to the marker; the blanks between them stay,
/// and so does everything before; what stands behind is looked at in the same way.
pub proof fn law_a_bearer_token_gives_way_to_the_marker(
    s: Seq<char>,
    from: int,
    i: int,
    t: int,
    e: int,
)
    requires
        0 <= from <= i,
        bearer_at(s, i),
        forall|j: int| from <= j < i ==> !bearer_at(s, j),
        i + 6 <= t < e <= s.len(),
        forall|j: int| i + 6 <= j < t ==> s[j] == ' ',
        s[t] != ' ',
        forall|j: int| t <= j < e ==> !ends_token(#[trigger] s[j]),
        e == s.len() || ends_token(s[e]),
    ensures
        without_bearer(s, from) == s.subrange(from, i) + "Bearer"@ + s.subrange(i + 6, t)
            + "[redacted]"@ + without_bearer(s, e),
{
    lemma_bearer_found(s, from, i);
    lemma_blanks_to(s, i + 6, t);
    lemma_token_ends_at(s, t, e);
}

proof fn lemma_bearer_found(s: Seq<char>, from: int, i: int)
    requires
        0 <= from <= i < s.len(),
        bearer_at(s, i),
        forall|j: int| from <= j < i ==> !bearer_at(s, j),
    ensures
        next_bearer(s, from) == Some(i),
    decreases i - from,
{
    if from < i {
        lemma_bearer_found(s, from + 1, i);
    }
}

proof fn lemma_blanks_to(s: Seq<char>, from: int, t: int)
    requires
        0 <= from <= t < s.len(),
        forall|j: int| from <= j < t ==> s[j] == ' ',
        s[t] != ' ',
    ensures
        blanks_end(s, from) == t,
    decreases t - from,
{
    if from < t {
        assert(s[from] == ' ');
        lemma_blanks_to(s, from + 1, t);
    }
}

} // verus!
