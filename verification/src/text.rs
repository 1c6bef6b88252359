//! Text as sequences of characters: the operations that parsers, redaction and
//! message building share, each with a mathematical description on `Seq<char>`.
use vstd::prelude::*;

verus! {

/// `String::push` appends its character behind the characters already there.
pub assume_specification[ std::string::String::push ](s: &mut std::string::String, c: char)
    ensures
        final(s)@ == old(s)@.push(c),
;

/// The characters with the Unicode property `White_Space`.
pub open spec fn white_space(c: char) -> bool {
    ||| '\u{9}' <= c <= '\u{d}'
    ||| c == '\u{20}'
    ||| c == '\u{85}'
    ||| c == '\u{a0}'
    ||| c == '\u{1680}'
    ||| '\u{2000}' <= c <= '\u{200a}'
    ||| c == '\u{2028}'
    ||| c == '\u{2029}'
    ||| c == '\u{202f}'
    ||| c == '\u{205f}'
    ||| c == '\u{3000}'
}

pub fn is_white_space(c: char) -> (b: bool)
    ensures
        b == white_space(c),
{
    ('\u{9}' <= c && c <= '\u{d}') || c == '\u{20}' || c == '\u{85}' || c == '\u{a0}' || c
        == '\u{1680}' || ('\u{2000}' <= c && c <= '\u{200a}') || c == '\u{2028}' || c == '\u{2029}'
        || c == '\u{202f}' || c == '\u{205f}' || c == '\u{3000}'
}

/// ASCII capitals become small letters; every other character stays.
pub open spec fn ascii_lower(c: char) -> char {
    if 'A' <= c <= 'Z' {
        (c as u8 + 32) as char
    } else {
        c
    }
}

pub fn ascii_lower_char(c: char) -> (r: char)
    ensures
        r == ascii_lower(c),
{
    if 'A' <= c && c <= 'Z' {
        (c as u8 + 32u8) as char
    } else {
        c
    }
}

pub open spec fn lower_text(s: Seq<char>) -> Seq<char> {
    Seq::new(s.len(), |i: int| ascii_lower(s[i]))
}

/// The characters of `s`, in order.
pub fn chars_of(s: &str) -> (v: Vec<char>)
    ensures
        v@ == s@,
{
    let mut v: Vec<char> = Vec::new();
    for c in iter: s.chars()
        invariant
            iter.seq() == s@,
            v@ == s@.take(iter.index() as int),
    {
        v.push(c);
        assert(s@.take(iter.index() as int + 1) =~= s@.take(iter.index() as int).push(c));
    }
    assert(s@.take(s@.len() as int) =~= s@);
    v
}

/// The string made of the characters `from..to` of `v`.
pub fn string_of_range(v: &[char], from: usize, to: usize) -> (s: String)
    requires
        from <= to <= v@.len(),
    ensures
        s@ == v@.subrange(from as int, to as int),
{
    let mut s = String::new();
    let mut i: usize = from;
    while i < to
        invariant
            from <= i <= to <= v@.len(),
            s@ == v@.subrange(from as int, i as int),
        decreases to - i,
    {
        s.push(v[i]);
        i += 1;
        assert(v@.subrange(from as int, i as int) =~= v@.subrange(from as int, i - 1).push(
            v@[i - 1],
        ));
    }
    s
}

pub fn lower_string(s: &str) -> (r: String)
    ensures
        r@ == lower_text(s@),
{
    let v = chars_of(s);
    let mut r = String::new();
    let mut i: usize = 0;
    while i < v.len()
        invariant
            i <= v@.len(),
            v@ == s@,
            r@ == lower_text(v@).take(i as int),
        decreases v@.len() - i,
    {
        r.push(ascii_lower_char(v[i]));
        i += 1;
        assert(lower_text(v@).take(i as int) =~= lower_text(v@).take(i - 1).push(
            ascii_lower(v@[i - 1]),
        ));
    }
    assert(lower_text(v@).take(i as int) =~= lower_text(v@));
    r
}

/// `s` without the white space at its beginning.
pub open spec fn trim_start(s: Seq<char>) -> Seq<char>
    decreases s.len(),
{
    if s.len() > 0 && white_space(s[0]) {
        trim_start(s.drop_first())
    } else {
        s
    }
}

/// `s` without the white space at its end.
pub open spec fn trim_end(s: Seq<char>) -> Seq<char>
    decreases s.len(),
{
    if s.len() > 0 && white_space(s.last()) {
        trim_end(s.drop_last())
    } else {
        s
    }
}

/// `s` without the white space at its beginning and at its end.
pub open spec fn trimmed(s: Seq<char>) -> Seq<char> {
    trim_end(trim_start(s))
}

/// The range of `v` that is left when white space is taken off both ends.
pub fn trim_range(v: &[char]) -> (r: (usize, usize))
    ensures
        r.0 <= r.1 <= v@.len(),
        v@.subrange(r.0 as int, r.1 as int) == trimmed(v@),
{
    let mut from: usize = 0;
    assert(v@.skip(0) =~= v@);
    while from < v.len() && is_white_space(v[from])
        invariant
            from <= v@.len(),
            trim_start(v@) == trim_start(v@.skip(from as int)),
        decreases v@.len() - from,
    {
        assert(v@.skip(from as int).drop_first() =~= v@.skip(from + 1));
        from += 1;
    }
    let ghost rest = v@.skip(from as int);
    assert(trim_start(v@) == rest);
    let mut to: usize = v.len();
    assert(v@.subrange(from as int, to as int) =~= rest);
    while to > from && is_white_space(v[to - 1])
        invariant
            from <= to <= v@.len(),
            trim_end(rest) == trim_end(v@.subrange(from as int, to as int)),
        decreases to,
    {
        assert(v@.subrange(from as int, to as int).drop_last() =~= v@.subrange(
            from as int,
            to - 1,
        ));
        to -= 1;
    }
    (from, to)
}

pub fn trim_string(s: &str) -> (r: String)
    ensures
        r@ == trimmed(s@),
{
    let v = chars_of(s);
    let (from, to) = trim_range(&v);
    string_of_range(&v, from, to)
}

/// `p` stands in `s` at position `i`.
pub open spec fn occurs_at(s: Seq<char>, p: Seq<char>, i: int) -> bool {
    0 <= i && i + p.len() <= s.len() && s.subrange(i, i + p.len()) == p
}

/// `p` stands somewhere in `s`.
pub open spec fn contains_text(s: Seq<char>, p: Seq<char>) -> bool {
    exists|i: int| occurs_at(s, p, i)
}

/// The first position not before `from` at which `p` stands in `s`.
pub open spec fn first_occurrence(s: Seq<char>, p: Seq<char>, from: int) -> Option<int>
    decreases s.len() + 1 - from,
{
    if from > s.len() {
        None
    } else if occurs_at(s, p, from) {
        Some(from)
    } else {
        first_occurrence(s, p, from + 1)
    }
}

pub proof fn lemma_first_occurrence(s: Seq<char>, p: Seq<char>, from: int)
    requires
        0 <= from,
    ensures
        match first_occurrence(s, p, from) {
            Some(i) => from <= i && occurs_at(s, p, i) && (forall|j: int|
                from <= j < i ==> !occurs_at(s, p, j)),
            None => forall|j: int| from <= j ==> !occurs_at(s, p, j),
        },
    decreases s.len() + 1 - from,
{
    if from > s.len() {
    } else if occurs_at(s, p, from) {
    } else {
        lemma_first_occurrence(s, p, from + 1);
    }
}

pub fn text_occurs_at(s: &[char], p: &[char], i: usize) -> (b: bool)
    ensures
        b == occurs_at(s@, p@, i as int),
{
    if i > s.len() || p.len() > s.len() - i {
        return false;
    }
    let n: usize = s.len();
    let mut k: usize = 0;
    while k < p.len()
        invariant
            k <= p@.len(),
            n == s@.len(),
            i + p@.len() <= n,
            forall|j: int| 0 <= j < k ==> s@[i + j] == p@[j],
        decreases p@.len() - k,
    {
        if s[i + k] != p[k] {
            assert(s@.subrange(i as int, i + p@.len())[k as int] != p@[k as int]);
            return false;
        }
        k += 1;
    }
    assert(s@.subrange(i as int, i + p@.len()) =~= p@);
    true
}

pub fn find_text(s: &[char], p: &[char], from: usize) -> (r: Option<usize>)
    requires
        from <= s@.len(),
    ensures
        match r {
            Some(i) => first_occurrence(s@, p@, from as int) == Some(i as int) && i + p@.len()
                <= s@.len() && from <= i,
            None => first_occurrence(s@, p@, from as int) is None,
        },
{
    let mut i: usize = from;
    while i < s.len()
        invariant
            from <= i <= s@.len(),
            first_occurrence(s@, p@, from as int) == first_occurrence(s@, p@, i as int),
        decreases s@.len() - i,
    {
        if text_occurs_at(s, p, i) {
            return Some(i);
        }
        i += 1;
    }
    if text_occurs_at(s, p, i) {
        Some(i)
    } else {
        assert(first_occurrence(s@, p@, i + 1) is None);
        None
    }
}

pub fn text_contains(s: &[char], p: &[char]) -> (b: bool)
    ensures
        b == contains_text(s@, p@),
{
    proof {
        lemma_first_occurrence(s@, p@, 0);
    }
    find_text(s, p, 0).is_some()
}

/// The first position not before `from` at which the character `c` stands in `s`.
pub open spec fn char_position(s: Seq<char>, c: char, from: int) -> Option<int>
    decreases s.len() - from,
{
    if from >= s.len() {
        None
    } else if s[from] == c {
        Some(from)
    } else {
        char_position(s, c, from + 1)
    }
}

pub fn find_char(s: &[char], c: char) -> (r: Option<usize>)
    ensures
        match r {
            Some(i) => i < s@.len() && char_position(s@, c, 0) == Some(i as int),
            None => char_position(s@, c, 0) is None,
        },
{
    let mut i: usize = 0;
    while i < s.len()
        invariant
            i <= s@.len(),
            char_position(s@, c, 0) == char_position(s@, c, i as int),
        decreases s@.len() - i,
    {
        if s[i] == c {
            return Some(i);
        }
        i += 1;
    }
    None
}

/// The decimal digit of value `d`.
pub open spec fn digit_char(d: nat) -> char {
    (48 + d) as u8 as char
}

/// `n` in decimal, without leading zeros.
pub open spec fn decimal(n: nat) -> Seq<char>
    decreases n,
{
    if n < 10 {
        seq![digit_char(n)]
    } else {
        decimal(n / 10).push(digit_char(n % 10))
    }
}

/// Appends `n` in decimal to `s`.
pub fn push_decimal(s: &mut String, n: u64)
    ensures
        final(s)@ == old(s)@ + decimal(n as nat),
    decreases n,
{
    if n < 10 {
        s.push((48 + n as u8) as char);
        assert(s@ =~= old(s)@ + decimal(n as nat));
    } else {
        push_decimal(s, n / 10);
        s.push((48 + (n % 10) as u8) as char);
        assert(s@ =~= old(s)@ + decimal(n as nat));
    }
}

/// `n` in decimal, as `to_string` writes it.
pub fn decimal_string(n: u64) -> (s: String)
    ensures
        s@ == decimal(n as nat),
{
    let mut s = String::new();
    push_decimal(&mut s, n);
    assert(s@ =~= decimal(n as nat));
    s
}

pub open spec fn is_digit(c: char) -> bool {
    '0' <= c <= '9'
}

/// The value of a sequence of digits.
pub open spec fn digits_value(s: Seq<char>) -> nat
    decreases s.len(),
{
    if s.len() == 0 {
        0
    } else {
        digits_value(s.drop_last()) * 10 + (s.last() as nat - 48) as nat
    }
}

/// `s` without the sign `+` that may stand before its digits.
pub open spec fn digits_part(s: Seq<char>) -> Seq<char> {
    if s.len() > 0 && s[0] == '+' {
        s.drop_first()
    } else {
        s
    }
}

pub open spec fn all_digits(s: Seq<char>) -> bool {
    s.len() > 0 && forall|i: int| 0 <= i < s.len() ==> is_digit(s[i])
}

/// The number that a text of digits, with an optional `+` before them, stands
/// for; nothing for any other text or for a number above `max`.
pub open spec fn parsed_number(s: Seq<char>, max: nat) -> Option<nat> {
    if all_digits(digits_part(s)) && digits_value(digits_part(s)) <= max {
        Some(digits_value(digits_part(s)))
    } else {
        None
    }
}

proof fn lemma_digits_value_monotone(s: Seq<char>, k: int)
    requires
        0 <= k <= s.len(),
        forall|i: int| 0 <= i < s.len() ==> is_digit(s[i]),
    ensures
        digits_value(s.take(k)) <= digits_value(s),
    decreases s.len() - k,
{
    if k < s.len() {
        lemma_digits_value_monotone(s, k + 1);
        assert(s.take(k + 1).drop_last() =~= s.take(k));
    } else {
        assert(s.take(k) =~= s);
    }
}

/// Reads `v[from..to]` as a number that is at most `max`.
pub fn parse_number(v: &[char], from: usize, to: usize, max: u64) -> (r: Option<u64>)
    requires
        from <= to <= v@.len(),
    ensures
        match r {
            Some(n) => parsed_number(v@.subrange(from as int, to as int), max as nat) == Some(
                n as nat,
            ),
            None => parsed_number(v@.subrange(from as int, to as int), max as nat) is None,
        },
{
    let ghost whole = v@.subrange(from as int, to as int);
    let mut start: usize = from;
    if from < to && v[from] == '+' {
        start = from + 1;
    }
    let ghost digits = v@.subrange(start as int, to as int);
    assert(digits == digits_part(whole)) by {
        if whole.len() > 0 && whole[0] == '+' {
            assert(digits =~= whole.drop_first());
        } else {
            assert(digits =~= whole);
        }
    }
    if start == to {
        return None;
    }
    let mut n: u64 = 0;
    let mut i: usize = start;
    while i < to
        invariant
            from <= start <= i <= to <= v@.len(),
            digits == v@.subrange(start as int, to as int),
            forall|j: int| 0 <= j < i - start ==> is_digit(digits[j]),
            n == digits_value(digits.take(i - start)),
            n <= max,
            digits == digits_part(whole),
            whole == v@.subrange(from as int, to as int),
        decreases to - i,
    {
        let c = v[i];
        assert(digits[i - start] == c);
        if !('0' <= c && c <= '9') {
            assert(!is_digit(digits[i - start]));
            return None;
        }
        let d: u64 = (c as u32 - 48) as u64;
        assert(digits.take(i + 1 - start).drop_last() =~= digits.take(i - start));
        assert(digits_value(digits.take(i + 1 - start)) == n * 10 + d);
        if n > max / 10 || d > max - n * 10 {
            proof {
                if all_digits(digits) {
                    lemma_digits_value_monotone(digits, i + 1 - start);
                    assert(n * 10 + d > max);
                }
            }
            return None;
        }
        n = n * 10 + d;
        i += 1;
    }
    assert(digits.take(i - start) =~= digits);
    Some(n)
}

/// The character sequences of a sequence of strings.
pub open spec fn texts(v: Seq<String>) -> Seq<Seq<char>> {
    Seq::new(v.len(), |i: int| v[i]@)
}

/// The pieces of `s` between the separators `c`: each separator opens a new
/// piece, any other character extends the last one.
pub open spec fn split_on(s: Seq<char>, c: char) -> Seq<Seq<char>>
    decreases s.len(),
{
    if s.len() == 0 {
        seq![Seq::<char>::empty()]
    } else {
        let before = split_on(s.drop_last(), c);
        if s.last() == c {
            before.push(Seq::<char>::empty())
        } else {
            before.drop_last().push(before.last().push(s.last()))
        }
    }
}

pub proof fn lemma_split_on_nonempty(s: Seq<char>, c: char)
    ensures
        split_on(s, c).len() > 0,
    decreases s.len(),
{
    if s.len() > 0 {
        lemma_split_on_nonempty(s.drop_last(), c);
    }
}

pub fn split_text(v: &[char], c: char) -> (r: Vec<String>)
    ensures
        texts(r@) == split_on(v@, c),
        r@.len() > 0,
{
    let mut r: Vec<String> = Vec::new();
    r.push(String::new());
    let mut i: usize = 0;
    assert(v@.take(0) =~= Seq::<char>::empty());
    assert(texts(r@) =~= split_on(v@.take(0), c));
    while i < v.len()
        invariant
            i <= v@.len(),
            r@.len() > 0,
            texts(r@) == split_on(v@.take(i as int), c),
        decreases v@.len() - i,
    {
        let ghost before = texts(r@);
        assert(v@.take(i + 1).drop_last() =~= v@.take(i as int));
        if v[i] == c {
            r.push(String::new());
            assert(texts(r@) =~= before.push(Seq::<char>::empty()));
        } else {
            let ghost strings = r@;
            let mut last = r.pop().unwrap();
            last.push(v[i]);
            r.push(last);
            assert(before.last() == strings.last()@);
            assert(texts(r@) =~= before.drop_last().push(before.last().push(v@[i as int])));
        }
        i += 1;
    }
    assert(v@.take(i as int) =~= v@);
    r
}

/// The maximal runs of characters of `s` that are no white space.
pub open spec fn words(s: Seq<char>) -> Seq<Seq<char>>
    decreases s.len(),
{
    if s.len() == 0 {
        Seq::empty()
    } else {
        let before = words(s.drop_last());
        if white_space(s.last()) {
            before
        } else if s.len() == 1 || white_space(s[s.len() - 2]) {
            before.push(seq![s.last()])
        } else {
            before.drop_last().push(before.last().push(s.last()))
        }
    }
}

pub fn split_words(v: &[char]) -> (r: Vec<String>)
    ensures
        texts(r@) == words(v@),
{
    let mut r: Vec<String> = Vec::new();
    let mut i: usize = 0;
    assert(v@.take(0) =~= Seq::<char>::empty());
    assert(texts(r@) =~= words(v@.take(0)));
    while i < v.len()
        invariant
            i <= v@.len(),
            i > 0 && !white_space(v@[i - 1]) ==> r@.len() > 0,
            texts(r@) == words(v@.take(i as int)),
        decreases v@.len() - i,
    {
        let ghost before = texts(r@);
        assert(v@.take(i + 1).drop_last() =~= v@.take(i as int));
        if is_white_space(v[i]) {
        } else if i == 0 || is_white_space(v[i - 1]) {
            let mut word = String::new();
            word.push(v[i]);
            assert(word@ =~= seq![v@[i as int]]);
            r.push(word);
            assert(texts(r@) =~= before.push(seq![v@[i as int]]));
        } else {
            let ghost strings = r@;
            let mut last = r.pop().unwrap();
            last.push(v[i]);
            r.push(last);
            assert(before.last() == strings.last()@);
            assert(texts(r@) =~= before.drop_last().push(before.last().push(v@[i as int])));
        }
        i += 1;
    }
    assert(v@.take(i as int) =~= v@);
    r
}

/// `parts` in order, with `sep` between each two neighbours.
pub open spec fn joined(parts: Seq<Seq<char>>, sep: Seq<char>) -> Seq<char>
    decreases parts.len(),
{
    if parts.len() == 0 {
        Seq::empty()
    } else if parts.len() == 1 {
        parts[0]
    } else {
        joined(parts.drop_last(), sep) + sep + parts.last()
    }
}

pub fn join_strings(parts: &[String], sep: &str) -> (r: String)
    ensures
        r@ == joined(texts(parts@), sep@),
{
    let mut r = String::new();
    let mut i: usize = 0;
    assert(texts(parts@).take(0) =~= Seq::<Seq<char>>::empty());
    while i < parts.len()
        invariant
            i <= parts@.len(),
            r@ == joined(texts(parts@).take(i as int), sep@),
        decreases parts@.len() - i,
    {
        let ghost t = texts(parts@);
        assert(t.take(i + 1).drop_last() =~= t.take(i as int));
        if i > 0 {
            r.append(sep);
        }
        r.append(parts[i].as_str());
        assert(t.take(i + 1).last() == parts@[i as int]@);
        assert(i == 0 ==> r@ =~= parts@[0]@);
        i += 1;
    }
    assert(texts(parts@).take(i as int) =~= texts(parts@));
    r
}

/// The lines of `s`: a line ends at a line feed, with the carriage return
/// before it where there is one, and nothing follows the last line end.
pub open spec fn line_list(s: Seq<char>) -> Seq<Seq<char>> {
    let pieces = split_on(s, '\n');
    let ended = Seq::new(
        (pieces.len() - 1) as nat,
        |i: int|
            if pieces[i].len() > 0 && pieces[i].last() == '\r' {
                pieces[i].drop_last()
            } else {
                pieces[i]
            },
    );
    if pieces.last().len() == 0 {
        ended
    } else {
        ended.push(pieces.last())
    }
}

/// `str::lines`, as a vector.
pub fn split_lines(v: &[char]) -> (r: Vec<String>)
    ensures
        texts(r@) == line_list(v@),
{
    let pieces = split_text(v, '\n');
    let ghost spec_pieces = split_on(v@, '\n');
    let mut r: Vec<String> = Vec::new();
    let n: usize = pieces.len();
    let mut i: usize = 0;
    while i < n - 1
        invariant
            n == pieces@.len(),
            n > 0,
            i < n,
            spec_pieces == texts(pieces@),
            r@.len() == i,
            forall|j: int|
                0 <= j < i ==> #[trigger] r@[j]@ == if spec_pieces[j].len() > 0
                    && spec_pieces[j].last() == '\r' {
                    spec_pieces[j].drop_last()
                } else {
                    spec_pieces[j]
                },
        decreases pieces@.len() - i,
    {
        let chars = chars_of(pieces[i].as_str());
        assert(spec_pieces[i as int] == chars@);
        if chars.len() > 0 && chars[chars.len() - 1] == '\r' {
            let line = string_of_range(&chars, 0, chars.len() - 1);
            assert(line@ =~= chars@.drop_last());
            r.push(line);
        } else {
            r.push(pieces[i].clone());
        }
        i += 1;
    }
    assert(spec_pieces.last() == pieces@.last()@);
    if !pieces[i].as_str().is_empty() {
        r.push(pieces[i].clone());
    }
    assert(texts(r@) =~= line_list(v@));
    r
}

/// The part of `s` before the first place at which `p` stands, or all of `s`.
pub open spec fn text_before(s: Seq<char>, p: Seq<char>) -> Seq<char> {
    match first_occurrence(s, p, 0) {
        Some(i) => s.take(i),
        None => s,
    }
}

pub fn part_before(s: &str, p: &str) -> (r: String)
    ensures
        r@ == text_before(s@, p@),
{
    let v = chars_of(s);
    let w = chars_of(p);
    match find_text(&v, &w, 0) {
        Some(i) => {
            let r = string_of_range(&v, 0, i);
            assert(r@ =~= s@.take(i as int));
            r
        },
        None => s.to_owned(),
    }
}

/// The text that may be there.
pub open spec fn opt_text(o: Option<String>) -> Option<Seq<char>> {
    match o {
        Some(s) => Some(s@),
        None => None,
    }
}

pub(crate) fn clone_texts(v: &Vec<String>) -> (r: Vec<String>)
    ensures
        texts(r@) == texts(v@),
{
    let mut r: Vec<String> = Vec::new();
    let mut i: usize = 0;
    while i < v.len()
        invariant
            i <= v@.len(),
            r@.len() == i,
            forall|j: int| 0 <= j < i ==> #[trigger] r@[j]@ == v@[j]@,
        decreases v@.len() - i,
    {
        r.push(v[i].clone());
        i += 1;
    }
    assert(texts(r@) =~= texts(v@));
    r
}

pub fn clone_opt(o: &Option<String>) -> (r: Option<String>)
    ensures
        opt_text(r) == opt_text(*o),
{
    match o {
        Some(s) => Some(s.clone()),
        None => None,
    }
}

/// Whether two strings hold the same text.
pub fn same_text(a: &str, b: &str) -> (r: bool)
    ensures
        r == (a@ == b@),
{
    a.to_owned() == b.to_owned()
}

/// A text that stands in a part of `s` stands in `s`.
pub proof fn lemma_contains_transitive(s: Seq<char>, part: Seq<char>, inner: Seq<char>)
    requires
        contains_text(s, part),
        contains_text(part, inner),
    ensures
        contains_text(s, inner),
{
    let i = choose|i: int| occurs_at(s, part, i);
    let j = choose|j: int| occurs_at(part, inner, j);
    assert(s.subrange(i + j, i + j + inner.len()) =~= inner) by {
        assert forall|k: int| 0 <= k < inner.len() implies s[i + j + k] == inner[k] by {
            assert(s.subrange(i, i + part.len())[j + k] == part[j + k]);
            assert(part.subrange(j, j + inner.len())[k] == inner[k]);
        }
    }
    assert(occurs_at(s, inner, i + j));
}

/// The middle of a concatenation stands in it.
pub proof fn lemma_contains_middle(a: Seq<char>, b: Seq<char>, c: Seq<char>)
    ensures
        contains_text(a + b + c, b),
{
    assert((a + b + c).subrange(a.len() as int, (a.len() + b.len()) as int) =~= b);
    assert(occurs_at(a + b + c, b, a.len() as int));
}

/// Each part of a joined text stands in it.
pub proof fn lemma_joined_contains(parts: Seq<Seq<char>>, sep: Seq<char>, i: int)
    requires
        0 <= i < parts.len(),
    ensures
        contains_text(joined(parts, sep), parts[i]),
    decreases parts.len(),
{
    if parts.len() == 1 {
        assert(parts[0].subrange(0, parts[0].len() as int) =~= parts[0]);
        assert(occurs_at(parts[0], parts[0], 0));
    } else {
        let before = joined(parts.drop_last(), sep);
        if i == parts.len() - 1 {
            lemma_contains_middle(before + sep, parts.last(), Seq::empty());
            assert(before + sep + parts.last() + Seq::<char>::empty() =~= joined(parts, sep));
        } else {
            lemma_joined_contains(parts.drop_last(), sep, i);
            lemma_contains_middle(Seq::empty(), before, sep + parts.last());
            assert(Seq::<char>::empty() + before + (sep + parts.last()) =~= joined(parts, sep));
            lemma_contains_transitive(joined(parts, sep), before, parts[i]);
        }
    }
}

/// `s` with each place at which `p` stands, from left to right and without
/// overlap, replaced by `r`.
pub open spec fn replaced(s: Seq<char>, p: Seq<char>, r: Seq<char>) -> Seq<char>
    decreases s.len(),
{
    match first_occurrence(s, p, 0) {
        Some(i) => if p.len() > 0 && 0 <= i <= s.len() - p.len() {
            s.take(i) + r + replaced(s.skip(i + p.len()), p, r)
        } else {
            s
        },
        None => s,
    }
}

/// `str::replace` for a text that is not empty.
pub fn replace_text(s: &str, p: &str, r: &str) -> (t: String)
    requires
        p@.len() > 0,
    ensures
        t@ == replaced(s@, p@, r@),
{
    let v = chars_of(s);
    let w = chars_of(p);
    let n: usize = v.len();
    let mut t = String::new();
    let mut from: usize = 0;
    assert(v@.skip(0) =~= v@);
    loop
        invariant
            n == v@.len(),
            w@.len() > 0,
            w@ == p@,
            v@ == s@,
            from <= v@.len(),
            replaced(s@, p@, r@) == t@ + replaced(v@.skip(from as int), p@, r@),
        decreases v@.len() - from,
    {
        let ghost rest = v@.skip(from as int);
        match find_text(&v, &w, from) {
            Some(i) => {
                proof {
                    lemma_first_occurrence_skip(v@, w@, from as int, 0);
                    lemma_first_occurrence(v@, w@, from as int);
                    let k = i - from;
                    assert(first_occurrence(rest, w@, 0) == Some(k));
                    assert(rest.take(k) =~= v@.subrange(from as int, i as int));
                    assert(rest.skip(k + w@.len()) =~= v@.skip(i + w@.len()));
                }
                let gap = string_of_range(&v, from, i);
                let ghost before = t@;
                t.append(gap.as_str());
                t.append(r);
                from = i + w.len();
                assert(t@ + replaced(v@.skip(from as int), p@, r@) =~= before + replaced(
                    rest,
                    p@,
                    r@,
                ));
            },
            None => {
                proof {
                    lemma_first_occurrence_skip(v@, w@, from as int, 0);
                    assert(first_occurrence(rest, w@, 0) is None);
                    assert(v@.subrange(from as int, v@.len() as int) =~= rest);
                }
                let gap = string_of_range(&v, from, n);
                t.append(gap.as_str());
                return t;
            },
        }
    }
}

/// Searching a suffix is searching from where it begins.
pub proof fn lemma_first_occurrence_skip(s: Seq<char>, p: Seq<char>, from: int, k: int)
    requires
        0 <= from <= s.len(),
        0 <= k,
    ensures
        match first_occurrence(s.skip(from), p, k) {
            Some(i) => first_occurrence(s, p, from + k) == Some(from + i),
            None => first_occurrence(s, p, from + k) is None,
        },
    decreases s.len() + 1 - from - k,
{
    let t = s.skip(from);
    if k <= t.len() {
        assert(occurs_at(t, p, k) == occurs_at(s, p, from + k)) by {
            if k + p.len() <= t.len() {
                assert(t.subrange(k, k + p.len()) =~= s.subrange(from + k, from + k + p.len()));
            }
        }
        if !occurs_at(t, p, k) {
            lemma_first_occurrence_skip(s, p, from, k + 1);
        }
    }
}

/// A text that cannot be part of a marker: it is not empty, it has neither end of the
/// marker in it, and it does not stand in the marker.
pub open spec fn foreign_to(p: Seq<char>, marker: Seq<char>) -> bool {
    &&& p.len() > 0
    &&& marker.len() > 0
    &&& !p.contains(marker[0])
    &&& !p.contains(marker.last())
    &&& !contains_text(marker, p)
}

/// Where `p` stands neither before nor after a marker that it is foreign to, it
/// does not stand in the whole.
pub proof fn lemma_no_text_across_marker(
    a: Seq<char>,
    marker: Seq<char>,
    b: Seq<char>,
    p: Seq<char>,
)
    requires
        foreign_to(p, marker),
        !contains_text(a, p),
        !contains_text(b, p),
    ensures
        !contains_text(a + marker + b, p),
{
    let s = a + marker + b;
    if contains_text(s, p) {
        let i = choose|i: int| occurs_at(s, p, i);
        let n = a.len() as int;
        let m = marker.len() as int;
        assert(s.subrange(i, i + p.len()) == p);
        if i + p.len() <= n {
            assert(a.subrange(i, i + p.len()) =~= p);
            assert(occurs_at(a, p, i));
        } else if i >= n + m {
            assert(b.subrange(i - n - m, i - n - m + p.len()) =~= p);
            assert(occurs_at(b, p, i - n - m));
        } else if i <= n {
            assert(s.subrange(i, i + p.len())[n - i] == marker[0]);
            assert(p.contains(marker[0]));
        } else if i + p.len() >= n + m {
            assert(s.subrange(i, i + p.len())[n + m - 1 - i] == marker.last());
            assert(p.contains(marker.last()));
        } else {
            assert(marker.subrange(i - n, i - n + p.len()) =~= p);
            assert(occurs_at(marker, p, i - n));
        }
    }
}

/// What does not stand in a text does not stand in a part of it.
pub proof fn lemma_part_contains_no_more(s: Seq<char>, from: int, to: int, p: Seq<char>)
    requires
        0 <= from <= to <= s.len(),
        !contains_text(s, p),
    ensures
        !contains_text(s.subrange(from, to), p),
{
    let t = s.subrange(from, to);
    if contains_text(t, p) {
        let i = choose|i: int| occurs_at(t, p, i);
        assert(s.subrange(from + i, from + i + p.len()) =~= t.subrange(i, i + p.len()));
        assert(occurs_at(s, p, from + i));
    }
}

/// Replacing a text by a marker leaves no place at which the text stands.
pub proof fn lemma_replaced_is_gone(s: Seq<char>, p: Seq<char>, marker: Seq<char>)
    requires
        foreign_to(p, marker),
    ensures
        !contains_text(replaced(s, p, marker), p),
    decreases s.len(),
{
    lemma_first_occurrence(s, p, 0);
    match first_occurrence(s, p, 0) {
        Some(i) => {
            lemma_replaced_is_gone(s.skip(i + p.len()), p, marker);
            if contains_text(s.take(i), p) {
                let j = choose|j: int| occurs_at(s.take(i), p, j);
                assert(s.subrange(j, j + p.len()) =~= s.take(i).subrange(j, j + p.len()));
                assert(occurs_at(s, p, j));
            }
            lemma_no_text_across_marker(
                s.take(i),
                marker,
                replaced(s.skip(i + p.len()), p, marker),
                p,
            );
        },
        None => {
            if contains_text(s, p) {
                let j = choose|j: int| occurs_at(s, p, j);
            }
        },
    }
}

/// Replacing one text by a marker brings back no other that is foreign to the marker.
pub proof fn lemma_replaced_brings_nothing(
    s: Seq<char>,
    p: Seq<char>,
    marker: Seq<char>,
    q: Seq<char>,
)
    requires
        foreign_to(q, marker),
        !contains_text(s, q),
    ensures
        !contains_text(replaced(s, p, marker), q),
    decreases s.len(),
{
    lemma_first_occurrence(s, p, 0);
    match first_occurrence(s, p, 0) {
        Some(i) => {
            if p.len() > 0 {
                lemma_part_contains_no_more(s, 0, i, q);
                lemma_part_contains_no_more(s, i + p.len(), s.len() as int, q);
                assert(s.take(i) =~= s.subrange(0, i));
                assert(s.skip(i + p.len()) =~= s.subrange(i + p.len(), s.len() as int));
                lemma_replaced_brings_nothing(s.skip(i + p.len()), p, marker, q);
                lemma_no_text_across_marker(
                    s.take(i),
                    marker,
                    replaced(s.skip(i + p.len()), p, marker),
                    q,
                );
            }
        },
        None => {},
    }
}

/// The text that `String::from_utf8_lossy` reads from bytes.
pub uninterp spec fn lossy_text(bytes: Seq<u8>) -> Seq<char>;

/// `String::from_utf8_lossy`: the text of the bytes, a function of the bytes alone.
/// Bytes that are valid UTF-8 are read as the text that they encode.
#[verifier::external_body]
pub(crate) fn lossy_string(bytes: &[u8]) -> (s: String)
    ensures
        s@ == lossy_text(bytes@),
        vstd::utf8::valid_utf8(bytes@) ==> vstd::utf8::encode_utf8(s@) == bytes@,
{
    String::from_utf8_lossy(bytes).to_string()
}

/// The message with which `String::from_utf8` refuses bytes that are not UTF-8.
pub uninterp spec fn utf8_fault(bytes: Seq<u8>) -> Seq<char>;

/// `String::from_utf8`: bytes that are valid UTF-8 are read as the text that they
/// encode. Others are refused with a message that is a function of the bytes alone.
#[verifier::external_body]
pub(crate) fn utf8_string(bytes: Vec<u8>) -> (r: Result<String, String>)
    ensures
        match r {
            Ok(s) => vstd::utf8::valid_utf8(bytes@) && s@ == vstd::utf8::decode_utf8(bytes@),
            Err(m) => !vstd::utf8::valid_utf8(bytes@) && m@ == utf8_fault(bytes@),
        },
{
    String::from_utf8(bytes).map_err(|e| e.to_string())
}

} // verus!
