//! What holds of texts: how they are written, read, cut and put together.
use vstd::prelude::*;

use crate::text::{
    all_digits, char_position, contains_text, decimal, digits_part, digits_value, first_occurrence,
    is_digit, joined, lemma_first_occurrence, lemma_split_on_nonempty, line_list, lower_text,
    occurs_at, parsed_number, replaced, split_on, text_before, trim_end, trim_start, trimmed,
    white_space, words,
};

verus! {

/// A number is written with digits alone, and read as the number that it is: with or
/// without a sign before it, and if it is not above the limit.
pub proof fn law_numbers_are_read_as_written(n: nat, max: nat)
    ensures
        decimal(n).len() > 0,
        forall|i: int|
            0 <= i < decimal(n).len() ==> 48 <= (#[trigger] decimal(n)[i]) as u32 <= 57,
        n > 0 ==> decimal(n)[0] != '0',
        n <= max ==> parsed_number(decimal(n), max) == Some(n),
        n <= max ==> parsed_number(seq!['+'] + decimal(n), max) == Some(n),
        n > max ==> parsed_number(decimal(n), max) is None,
{
    lemma_decimal(n);
    let d = decimal(n);
    let p = seq!['+'] + d;
    assert(digits_part(p) =~= d);
    assert(d[0] != '+');
}

proof fn lemma_decimal(n: nat)
    ensures
        all_digits(decimal(n)),
        digits_value(decimal(n)) == n,
        n > 0 ==> decimal(n)[0] != '0',
    decreases n,
{
    reveal_with_fuel(digits_value, 2);
    if n < 10 {
        assert(decimal(n).drop_last() =~= Seq::<char>::empty());
    } else {
        lemma_decimal(n / 10);
        assert(decimal(n).drop_last() =~= decimal(n / 10));
        assert forall|i: int| 0 <= i < decimal(n).len() implies is_digit(decimal(n)[i]) by {
            if i < decimal(n / 10).len() {
                assert(decimal(n)[i] == decimal(n / 10)[i]);
            }
        }
        assert(decimal(n)[0] == decimal(n / 10)[0]);
    }
}

/// A text that holds anything but digits, or nothing, is no number.
pub proof fn law_other_texts_are_no_numbers(s: Seq<char>, max: nat, i: int)
    requires
        s.len() == 0 || (0 <= i < s.len() && !('0' <= s[i] <= '9') && (i > 0 || s[0] != '+')),
    ensures
        parsed_number(s, max) is None,
{
    if s.len() > 0 {
        if s[0] == '+' {
            assert(digits_part(s)[i - 1] == s[i]);
        } else {
            assert(digits_part(s)[i] == s[i]);
        }
    }
}

/// Cutting a text at a character and putting the pieces together again gives the text; no
/// piece holds the character; and what stands before and behind one is cut by itself.
pub proof fn law_pieces_make_up_the_text(s: Seq<char>, c: char, a: Seq<char>, b: Seq<char>)
    ensures
        joined(split_on(s, c), seq![c]) == s,
        forall|i: int|
            0 <= i < split_on(s, c).len() ==> !(#[trigger] split_on(s, c)[i]).contains(c),
        !s.contains(c) ==> split_on(s, c) == seq![s],
        split_on(a + seq![c] + b, c) == split_on(a, c) + split_on(b, c),
{
    lemma_split_joined(s, c);
    lemma_split_clean(s, c);
    lemma_split_append(a, b, c);
    if !s.contains(c) {
        lemma_split_uncut(s, c);
    }
}

proof fn lemma_split_uncut(s: Seq<char>, c: char)
    requires
        !s.contains(c),
    ensures
        split_on(s, c) == seq![s],
    decreases s.len(),
{
    if s.len() > 0 {
        assert forall|i: int| 0 <= i < s.drop_last().len() implies s.drop_last()[i] != c by {
            assert(s.contains(s[i]));
        }
        assert(s.contains(s[s.len() - 1]));
        lemma_split_uncut(s.drop_last(), c);
        assert(s.drop_last().push(s.last()) =~= s);
        assert(split_on(s, c) =~= seq![s]);
    } else {
        assert(s =~= Seq::<char>::empty());
        assert(split_on(s, c) =~= seq![s]);
    }
}

proof fn lemma_split_joined(s: Seq<char>, c: char)
    ensures
        joined(split_on(s, c), seq![c]) == s,
    decreases s.len(),
{
    reveal_with_fuel(joined, 2);
    if s.len() == 0 {
        assert(joined(split_on(s, c), seq![c]) =~= s);
    } else {
        let before = split_on(s.drop_last(), c);
        lemma_split_on_nonempty(s.drop_last(), c);
        lemma_split_joined(s.drop_last(), c);
        assert(s =~= s.drop_last().push(s.last()));
        if s.last() == c {
            let parts = before.push(Seq::<char>::empty());
            assert(parts.drop_last() =~= before);
            assert(joined(parts, seq![c]) =~= s);
        } else {
            let parts = before.drop_last().push(before.last().push(s.last()));
            assert(parts.drop_last() =~= before.drop_last());
            assert(joined(parts, seq![c]) =~= joined(before, seq![c]).push(s.last()));
        }
    }
}

proof fn lemma_split_clean(s: Seq<char>, c: char)
    ensures
        forall|i: int|
            0 <= i < split_on(s, c).len() ==> !(#[trigger] split_on(s, c)[i]).contains(c),
    decreases s.len(),
{
    if s.len() > 0 {
        let before = split_on(s.drop_last(), c);
        lemma_split_on_nonempty(s.drop_last(), c);
        lemma_split_clean(s.drop_last(), c);
        let parts = split_on(s, c);
        assert forall|i: int| 0 <= i < parts.len() implies !(#[trigger] parts[i]).contains(c) by {
            if i < before.len() - 1 || (s.last() == c && i < before.len()) {
                assert(parts[i] == before[i]);
            } else if s.last() != c {
                assert(!before[before.len() - 1].contains(c));
                let longer = before.last().push(s.last());
                assert(parts[i] == longer);
                if longer.contains(c) {
                    let j = choose|j: int| 0 <= j < longer.len() && longer[j] == c;
                    assert(before.last()[j] == c);
                    assert(before.last().contains(c));
                }
            }
        }
    }
}

proof fn lemma_split_append(a: Seq<char>, b: Seq<char>, c: char)
    ensures
        split_on(a + seq![c] + b, c) == split_on(a, c) + split_on(b, c),
    decreases b.len(),
{
    let s = a + seq![c] + b;
    if b.len() == 0 {
        assert(s =~= a.push(c));
        assert(s.drop_last() =~= a);
        assert(split_on(s, c) =~= split_on(a, c) + split_on(b, c));
    } else {
        lemma_split_append(a, b.drop_last(), c);
        lemma_split_on_nonempty(b.drop_last(), c);
        assert(s.drop_last() =~= a + seq![c] + b.drop_last());
        assert(s.last() == b.last());
        assert(split_on(s, c) =~= split_on(a, c) + split_on(b, c));
    }
}

/// Trimming takes white space off both ends and nothing else: the rest stands in the
/// text, neither begins nor ends with white space, and white space is all that stands
/// around it.
pub proof fn law_trimming_takes_white_space_alone(s: Seq<char>)
    ensures
        exists|a: Seq<char>, b: Seq<char>|
            #![trigger a + trimmed(s) + b]
            s == a + trimmed(s) + b && (forall|i: int| 0 <= i < a.len() ==> white_space(a[i])) && (
            forall|i: int| 0 <= i < b.len() ==> white_space(b[i])),
        trimmed(s).len() > 0 ==> !white_space(trimmed(s)[0]) && !white_space(trimmed(s).last()),
{
    lemma_trim_start(s);
    let t = trim_start(s);
    lemma_trim_end(t);
    let a = s.take(s.len() - t.len());
    let b = t.skip(trimmed(s).len() as int);
    assert(s =~= a + trimmed(s) + b);
    if trimmed(s).len() > 0 {
        assert(trimmed(s)[0] == t[0]);
    }
}

proof fn lemma_trim_start(s: Seq<char>)
    ensures
        trim_start(s).len() <= s.len(),
        s.skip(s.len() - trim_start(s).len()) == trim_start(s),
        forall|i: int| 0 <= i < s.len() - trim_start(s).len() ==> white_space(s[i]),
        trim_start(s).len() > 0 ==> !white_space(trim_start(s)[0]),
    decreases s.len(),
{
    if s.len() > 0 && white_space(s[0]) {
        lemma_trim_start(s.drop_first());
        let k = s.len() - trim_start(s).len();
        assert(s.skip(k) =~= s.drop_first().skip(k - 1));
        assert forall|i: int| 0 <= i < k implies white_space(s[i]) by {
            if i > 0 {
                assert(s[i] == s.drop_first()[i - 1]);
            }
        }
    } else {
        assert(s.skip(0) =~= s);
    }
}

proof fn lemma_trim_end(s: Seq<char>)
    ensures
        trim_end(s).len() <= s.len(),
        s.take(trim_end(s).len() as int) == trim_end(s),
        forall|i: int| trim_end(s).len() <= i < s.len() ==> white_space(s[i]),
        trim_end(s).len() > 0 ==> !white_space(trim_end(s).last()),
    decreases s.len(),
{
    if s.len() > 0 && white_space(s.last()) {
        lemma_trim_end(s.drop_last());
        let k = trim_end(s).len() as int;
        assert(s.take(k) =~= s.drop_last().take(k));
        assert forall|i: int| k <= i < s.len() implies white_space(s[i]) by {
            if i < s.len() - 1 {
                assert(s[i] == s.drop_last()[i]);
            }
        }
    } else {
        assert(s.take(s.len() as int) =~= s);
    }
}

/// Capitals become the small letters that they are, every other character stays, and so
/// does the length.
pub proof fn law_lower_case_changes_capitals_alone(s: Seq<char>, i: int)
    ensures
        lower_text(s).len() == s.len(),
        0 <= i < s.len() && 65 <= s[i] as u32 <= 90 ==> lower_text(s)[i] as u32 == s[i] as u32 + 32,
        0 <= i < s.len() && !(65 <= s[i] as u32 <= 90) ==> lower_text(s)[i] == s[i],
{
}

/// Words are what stands between white space: a text without white space is one word, and
/// what stands before and behind white space has its words for itself.
pub proof fn law_words_stand_between_white_space(a: Seq<char>, b: Seq<char>, c: char)
    requires
        white_space(c),
    ensures
        words(a + seq![c] + b) == words(a) + words(b),
        words(Seq::empty()) == Seq::<Seq<char>>::empty(),
        a.len() > 0 && (forall|i: int| 0 <= i < a.len() ==> !white_space(a[i])) ==> words(a)
            == seq![a],
{
    lemma_words_append(a, b, c);
    if a.len() > 0 && (forall|i: int| 0 <= i < a.len() ==> !white_space(a[i])) {
        lemma_one_word(a);
    }
}

proof fn lemma_one_word(a: Seq<char>)
    requires
        a.len() > 0,
        forall|i: int| 0 <= i < a.len() ==> !white_space(a[i]),
    ensures
        words(a) == seq![a],
    decreases a.len(),
{
    if a.len() == 1 {
        assert(a =~= seq![a.last()]);
        assert(words(a.drop_last()) =~= Seq::<Seq<char>>::empty());
        assert(words(a) =~= seq![a]);
    } else {
        let f = a.drop_last();
        assert forall|i: int| 0 <= i < f.len() implies !white_space(f[i]) by {
            assert(f[i] == a[i]);
        }
        lemma_one_word(f);
        assert(f.push(a.last()) =~= a);
        assert(words(a) =~= seq![a]);
    }
}

proof fn lemma_words_append(a: Seq<char>, b: Seq<char>, c: char)
    requires
        white_space(c),
    ensures
        words(a + seq![c] + b) == words(a) + words(b),
        b.len() > 0 && !white_space(b.last()) ==> words(b).len() > 0,
    decreases b.len(),
{
    let s = a + seq![c] + b;
    if b.len() == 0 {
        assert(s.drop_last() =~= a);
        assert(words(s) =~= words(a) + words(b));
    } else {
        lemma_words_append(a, b.drop_last(), c);
        assert(s.drop_last() =~= a + seq![c] + b.drop_last());
        assert(s.last() == b.last());
        if b.len() == 1 {
            assert(s[s.len() - 2] == c);
        } else {
            assert(s[s.len() - 2] == b[b.len() - 2]);
            assert(b.drop_last().last() == b[b.len() - 2]);
        }
        assert(words(s) =~= words(a) + words(b));
    }
}

/// The lines of a text: a line ends behind its line feed, which does not belong to it, nor
/// does a carriage return before it; what is left at the end is a line if it is not empty.
pub proof fn law_lines_end_at_line_feeds(line: Seq<char>, rest: Seq<char>)
    requires
        !line.contains('\n'),
    ensures
        line_list(line + seq!['\n'] + rest) == seq![
            if line.len() > 0 && line.last() == '\r' {
                line.drop_last()
            } else {
                line
            },
        ] + line_list(rest),
        line.len() > 0 ==> line_list(line) == seq![line],
        line_list(Seq::empty()) == Seq::<Seq<char>>::empty(),
{
    let s = line + seq!['\n'] + rest;
    lemma_split_append(line, rest, '\n');
    lemma_split_uncut(line, '\n');
    lemma_split_on_nonempty(rest, '\n');
    let pieces = split_on(s, '\n');
    let behind = split_on(rest, '\n');
    assert(pieces =~= seq![line] + behind);
    assert(pieces.last() == behind.last());
    assert(line_list(s) =~= seq![
        if line.len() > 0 && line.last() == '\r' {
            line.drop_last()
        } else {
            line
        },
    ] + line_list(rest)) by {
        assert forall|i: int| 0 <= i < behind.len() implies pieces[i + 1] == behind[i] by {}
    }
    if line.len() > 0 {
        assert(line_list(line) =~= seq![line]);
    }
    assert(line_list(Seq::empty()) =~= Seq::<Seq<char>>::empty());
}

/// Pieces are put together with the separator between them.
pub proof fn law_joining_puts_the_separator_between(
    parts: Seq<Seq<char>>,
    part: Seq<char>,
    sep: Seq<char>,
)
    ensures
        joined(Seq::empty(), sep) == Seq::<char>::empty(),
        joined(seq![part], sep) == part,
        parts.len() > 0 ==> joined(parts.push(part), sep) == joined(parts, sep) + sep + part,
{
    assert(parts.push(part).drop_last() =~= parts);
}

/// A text stands in another exactly if that one can be written with it in the middle.
pub proof fn law_a_text_that_stands_in_another(s: Seq<char>, p: Seq<char>)
    ensures
        contains_text(s, p) <==> exists|a: Seq<char>, b: Seq<char>|
            #![trigger a + p + b]
            s == a + p + b,
{
    if contains_text(s, p) {
        let i = choose|i: int| occurs_at(s, p, i);
        let a = s.take(i);
        let b = s.skip(i + p.len());
        assert(s =~= a + p + b);
    }
    if exists|a: Seq<char>, b: Seq<char>| #![trigger a + p + b] s == a + p + b {
        let (a, b) = choose|a: Seq<char>, b: Seq<char>| #![trigger a + p + b] s == a + p + b;
        assert(s.subrange(a.len() as int, (a.len() + p.len()) as int) =~= p);
        assert(occurs_at(s, p, a.len() as int));
    }
}

/// What stands before a text is the beginning up to its first occurrence; everything,
/// where there is none.
pub proof fn law_what_stands_before_a_text(s: Seq<char>, p: Seq<char>)
    ensures
        text_before(s, p).is_prefix_of(s),
        !contains_text(s, p) ==> text_before(s, p) == s,
        contains_text(s, p) ==> occurs_at(s, p, text_before(s, p).len() as int) && forall|j: int|
            0 <= j < text_before(s, p).len() ==> !occurs_at(s, p, j),
{
    lemma_first_occurrence(s, p, 0);
    match first_occurrence(s, p, 0) {
        Some(i) => {
            assert(s.take(i).len() == i);
            assert(s.subrange(0, i) =~= s.take(i));
            assert(occurs_at(s, p, i));
        },
        None => {
            assert(s.subrange(0, s.len() as int) =~= s);
            if contains_text(s, p) {
                let i = choose|i: int| occurs_at(s, p, i);
                assert(0 <= i);
            }
        },
    }
}

/// Replacing changes nothing where there is nothing to replace; else it replaces the first
/// occurrence and then what stands behind it.
pub proof fn law_replacing_goes_from_left_to_right(s: Seq<char>, p: Seq<char>, r: Seq<char>, i: int)
    requires
        p.len() > 0,
    ensures
        !contains_text(s, p) ==> replaced(s, p, r) == s,
        occurs_at(s, p, i) && (forall|j: int| 0 <= j < i ==> !occurs_at(s, p, j)) ==> replaced(
            s,
            p,
            r,
        ) == s.take(i) + r + replaced(s.skip(i + p.len()), p, r),
{
    lemma_first_occurrence(s, p, 0);
    if first_occurrence(s, p, 0) is Some {
        assert(occurs_at(s, p, first_occurrence(s, p, 0)->0));
    }
}

/// A character is found at its first place.
pub proof fn law_a_character_is_found_at_its_first_place(s: Seq<char>, c: char, from: int)
    requires
        0 <= from <= s.len(),
    ensures
        match char_position(s, c, from) {
            Some(i) => from <= i < s.len() && s[i] == c && forall|j: int|
                from <= j < i ==> s[j] != c,
            None => forall|j: int| from <= j < s.len() ==> s[j] != c,
        },
    decreases s.len() - from,
{
    if from < s.len() && s[from] != c {
        law_a_character_is_found_at_its_first_place(s, c, from + 1);
    }
}

} // verus!
