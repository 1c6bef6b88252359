//! What schedules mean: which minutes the texts of cron lines name, and how intervals are
//! counted.
use vstd::prelude::*;

use crate::calendar::minute_fields;
use crate::schedule::{
    capped, cron_bounds, cron_field, cron_line, cron_next, cron_part, cron_ranges, duration_ms, field_allows,
    fires_at, first_firing, interval_ms, next_run, range_covers, CronLine, CronRange,
};
use crate::text::{
    char_position, decimal, lower_text, split_on, trim_end, trim_start, trimmed, white_space, words,
};
use crate::text_laws::{
    law_a_character_is_found_at_its_first_place, law_numbers_are_read_as_written,
    law_pieces_make_up_the_text, law_words_stand_between_white_space,
};

verus! {

/// The text of a part of a cron field that goes from `a` to `b`.
pub open spec fn range_text(a: nat, b: nat) -> Seq<char> {
    decimal(a) + seq!['-'] + decimal(b)
}

/// The value that stands for `w` in a field: the weekday 7 is Sunday, the weekday 0.
pub open spec fn weekday_or(w: nat, max: nat) -> nat {
    if w == 7 && max == 7 {
        0
    } else {
        w
    }
}

/// The field names exactly the values from `a` to `b` in steps of `step`, both ends
/// included, and is refused exactly if they do not lie within `min` and `max`.
pub open spec fn names_range(
    field: Seq<char>,
    min: nat,
    max: nat,
    a: nat,
    b: nat,
    step: nat,
) -> bool {
    let ranges = cron_field(field, min, max);
    &&& ranges is Some <==> min <= a && a <= b && b <= max && step > 0
    &&& ranges is Some ==> forall|v: nat|
        #![trigger field_allows(ranges->0, max, v)]
        field_allows(ranges->0, max, v) <==> exists|w: nat|
            #![trigger weekday_or(w, max)]
            a <= w && w <= b && (w - a) % (step as int) == 0 && weekday_or(w, max) == v
}

/// A part `a-b` names every value from `a` to `b`, both included; with `/s` behind it,
/// every `s`-th of them from `a` on. A part `a` names that value, and `*` every value that
/// the field can have.
pub proof fn law_a_part_names_its_values(a: nat, b: nat, step: nat, min: nat, max: nat)
    requires
        max <= u32::MAX,
        min <= max,
        step <= u32::MAX,
    ensures
        names_range(range_text(a, b), min, max, a, b, 1),
        names_range(range_text(a, b) + seq!['/'] + decimal(step), min, max, a, b, step),
        names_range(decimal(a), min, max, a, a, 1),
        names_range(decimal(a) + seq!['/'] + decimal(step), min, max, a, a, step),
        names_range(seq!['*'], min, max, min, max, 1),
        names_range(seq!['*', '/'] + decimal(step), min, max, min, max, step),
{
    let limit = u32::MAX as nat;
    law_numbers_are_read_as_written(a, limit);
    law_numbers_are_read_as_written(b, limit);
    law_numbers_are_read_as_written(step, limit);
    let r = range_text(a, b);
    lemma_range_bounds(a, b, min, max);
    lemma_single_bounds(a, min, max);
    assert(cron_bounds(seq!['*'], min, max) == Some((min, max)));
    assert forall|i: int| 0 <= i < r.len() implies r[i] != ',' && r[i] != '/' by {
        if i < decimal(a).len() {
            assert(r[i] == decimal(a)[i]);
        } else if i > decimal(a).len() {
            assert(r[i] == decimal(b)[i - decimal(a).len() - 1]);
        }
    }
    lemma_field_of_part(r, a, b, min, max);
    lemma_field_of_stepped_part(r, step, a, b, min, max);
    lemma_field_of_part(decimal(a), a, a, min, max);
    lemma_field_of_stepped_part(decimal(a), step, a, a, min, max);
    lemma_field_of_part(seq!['*'], min, max, min, max);
    lemma_field_of_stepped_part(seq!['*'], step, min, max, min, max);
    assert(seq!['*'] + seq!['/'] + decimal(step) =~= seq!['*', '/'] + decimal(step));
}

/// The text before a step names this range, or one that no field can have.
spec fn bounds_are(range: Seq<char>, min: nat, max: nat, a: nat, b: nat) -> bool {
    match cron_bounds(range, min, max) {
        Some((x, y)) => x == a && y == b,
        None => a > u32::MAX || b > u32::MAX,
    }
}

proof fn lemma_range_bounds(a: nat, b: nat, min: nat, max: nat)
    ensures
        bounds_are(range_text(a, b), min, max, a, b),
{
    let limit = u32::MAX as nat;
    law_numbers_are_read_as_written(a, limit);
    law_numbers_are_read_as_written(b, limit);
    let r = range_text(a, b);
    let n = decimal(a).len() as int;
    law_a_character_is_found_at_its_first_place(r, '-', 0);
    assert(r[n] == '-');
    assert forall|i: int| 0 <= i < n implies r[i] != '-' by {
        assert(r[i] == decimal(a)[i]);
    }
    assert(char_position(r, '-', 0) == Some(n));
    assert(r.take(n) =~= decimal(a));
    assert(r.skip(n + 1) =~= decimal(b));
    assert(r[0] == decimal(a)[0]);
}

proof fn lemma_single_bounds(a: nat, min: nat, max: nat)
    ensures
        bounds_are(decimal(a), min, max, a, a),
{
    law_numbers_are_read_as_written(a, u32::MAX as nat);
    law_a_character_is_found_at_its_first_place(decimal(a), '-', 0);
    assert(decimal(a)[0] != '*');
}

proof fn lemma_field_of_part(range: Seq<char>, a: nat, b: nat, min: nat, max: nat)
    requires
        max <= u32::MAX,
        bounds_are(range, min, max, a, b),
        forall|i: int| 0 <= i < range.len() ==> range[i] != ',' && range[i] != '/',
    ensures
        names_range(range, min, max, a, b, 1),
{
    law_a_character_is_found_at_its_first_place(range, '/', 0);
    lemma_field_of_one_part(range, a, b, 1, min, max);
}

proof fn lemma_field_of_stepped_part(
    range: Seq<char>,
    step: nat,
    a: nat,
    b: nat,
    min: nat,
    max: nat,
)
    requires
        max <= u32::MAX,
        step <= u32::MAX,
        bounds_are(range, min, max, a, b),
        forall|i: int| 0 <= i < range.len() ==> range[i] != ',' && range[i] != '/',
    ensures
        names_range(range + seq!['/'] + decimal(step), min, max, a, b, step),
{
    let part = range + seq!['/'] + decimal(step);
    let n = range.len() as int;
    law_numbers_are_read_as_written(step, u32::MAX as nat);
    law_a_character_is_found_at_its_first_place(part, '/', 0);
    assert(part[n] == '/');
    assert forall|i: int| 0 <= i < n implies part[i] != '/' by {
        assert(part[i] == range[i]);
    }
    assert(char_position(part, '/', 0) == Some(n));
    assert(part.take(n) =~= range);
    assert(part.skip(n + 1) =~= decimal(step));
    assert forall|i: int| 0 <= i < part.len() implies part[i] != ',' by {
        if i < n {
            assert(part[i] == range[i]);
        } else if i > n {
            assert(part[i] == decimal(step)[i - n - 1]);
        }
    }
    lemma_field_of_one_part(part, a, b, step, min, max);
}

proof fn lemma_field_of_one_part(
    part: Seq<char>,
    a: nat,
    b: nat,
    step: nat,
    min: nat,
    max: nat,
)
    requires
        forall|i: int| 0 <= i < part.len() ==> part[i] != ',',
        cron_part(part, min, max) == (if min <= a && a <= b && b <= max && step > 0 {
            Some(CronRange { start: a, end: b, step })
        } else {
            None
        }),
    ensures
        names_range(part, min, max, a, b, step),
{
    reveal_with_fuel(cron_ranges, 2);
    law_pieces_make_up_the_text(part, ',', part, part);
    assert(split_on(part, ',') == seq![part]);
    assert(seq![part].drop_last() =~= Seq::<Seq<char>>::empty());
    if cron_part(part, min, max) is Some {
        let range = CronRange { start: a, end: b, step };
        let ranges = cron_field(part, min, max)->0;
        assert(ranges =~= seq![range]);
        assert forall|v: nat|
            #![trigger field_allows(ranges, max, v)]
            field_allows(ranges, max, v) <==> exists|w: nat|
                #![trigger weekday_or(w, max)]
                a <= w && w <= b && (w - a) % (step as int) == 0 && weekday_or(w, max) == v by {
            if field_allows(ranges, max, v) {
                let (i, w) = choose|i: int, w: nat|
                    0 <= i < ranges.len() && #[trigger] range_covers(ranges[i], w)
                        && crate::schedule::normalized(w, max) == v;
                assert(weekday_or(w, max) == v);
            }
            if exists|w: nat|
                #![trigger weekday_or(w, max)]
                a <= w && w <= b && (w - a) % (step as int) == 0 && weekday_or(w, max) == v {
                let w = choose|w: nat|
                    #![trigger weekday_or(w, max)]
                    a <= w && w <= b && (w - a) % (step as int) == 0 && weekday_or(w, max) == v;
                assert(range_covers(ranges[0], w));
            }
        }
    }
}

/// Parts that commas separate name the values of each of them, and each of them has to be
/// well formed.
pub proof fn law_a_list_names_the_values_of_its_parts(
    x: Seq<char>,
    y: Seq<char>,
    min: nat,
    max: nat,
    v: nat,
)
    ensures
        ({
            let both = cron_field(x + seq![','] + y, min, max);
            let first = cron_field(x, min, max);
            let second = cron_field(y, min, max);
            &&& both is Some <==> first is Some && second is Some
            &&& both is Some ==> (field_allows(both->0, max, v) <==> field_allows(
                first->0,
                max,
                v,
            ) || field_allows(second->0, max, v))
        }),
{
    law_pieces_make_up_the_text(x, ',', x, y);
    let p = split_on(x, ',');
    let q = split_on(y, ',');
    lemma_ranges_append(p, q, min, max);
    let both = cron_field(x + seq![','] + y, min, max);
    if both is Some {
        let r = cron_ranges(p, min, max)->0;
        let t = cron_ranges(q, min, max)->0;
        assert(both->0 == r + t);
        if field_allows(r + t, max, v) {
            let (i, w) = choose|i: int, w: nat|
                0 <= i < (r + t).len() && #[trigger] range_covers((r + t)[i], w)
                    && crate::schedule::normalized(w, max) == v;
            if i < r.len() {
                assert(range_covers(r[i], w));
            } else {
                assert(range_covers(t[i - r.len()], w));
            }
        }
        if field_allows(r, max, v) {
            let (i, w) = choose|i: int, w: nat|
                0 <= i < r.len() && #[trigger] range_covers(r[i], w)
                    && crate::schedule::normalized(w, max) == v;
            assert(range_covers((r + t)[i], w));
        }
        if field_allows(t, max, v) {
            let (i, w) = choose|i: int, w: nat|
                0 <= i < t.len() && #[trigger] range_covers(t[i], w)
                    && crate::schedule::normalized(w, max) == v;
            assert(range_covers((r + t)[i + r.len()], w));
        }
    }
}

proof fn lemma_ranges_append(p: Seq<Seq<char>>, q: Seq<Seq<char>>, min: nat, max: nat)
    ensures
        match (cron_ranges(p, min, max), cron_ranges(q, min, max)) {
            (Some(r), Some(t)) => cron_ranges(p + q, min, max) == Some(r + t),
            _ => cron_ranges(p + q, min, max) is None,
        },
    decreases q.len(),
{
    if q.len() == 0 {
        assert(p + q =~= p);
        if cron_ranges(p, min, max) is Some {
            assert(cron_ranges(p, min, max)->0 + Seq::<CronRange>::empty() =~= cron_ranges(
                p,
                min,
                max,
            )->0);
        }
    } else {
        lemma_ranges_append(p, q.drop_last(), min, max);
        assert((p + q).drop_last() =~= p + q.drop_last());
        assert((p + q).last() == q.last());
        match (
            cron_ranges(p, min, max),
            cron_ranges(q.drop_last(), min, max),
            cron_part(q.last(), min, max),
        ) {
            (Some(r), Some(t), Some(x)) => {
                assert((r + t).push(x) =~= r + t.push(x));
            },
            _ => {},
        }
    }
}

/// A field of a cron line: neither empty nor with white space in it.
pub open spec fn one_word(s: Seq<char>) -> bool {
    s.len() > 0 && forall|i: int| 0 <= i < s.len() ==> !white_space(s[i])
}

/// The text of a cron line with these fields.
pub open spec fn line_text(f: Seq<Seq<char>>) -> Seq<char> {
    f[0] + seq![' '] + (f[1] + seq![' '] + (f[2] + seq![' '] + (f[3] + seq![' '] + f[4])))
}

/// A cron line has the fields minute, hour, day of the month, month and weekday, each
/// within its bounds, and fires in the minutes at which all of them allow the time.
pub proof fn law_what_the_fields_of_a_line_mean(f: Seq<Seq<char>>, m: nat)
    requires
        f.len() == 5,
        forall|i: int| 0 <= i < 5 ==> one_word(#[trigger] f[i]),
    ensures
        ({
            let line = cron_line(line_text(f));
            let t = minute_fields(m as int);
            &&& line is Some <==> cron_field(f[0], 0, 59) is Some && cron_field(f[1], 0, 23) is Some
                && cron_field(f[2], 1, 31) is Some && cron_field(f[3], 1, 12) is Some
                && cron_field(f[4], 0, 7) is Some
            &&& line is Some ==> (fires_at(line->0, m) <==> field_allows(
                cron_field(f[0], 0, 59)->0,
                59,
                m % 60,
            ) && field_allows(cron_field(f[1], 0, 23)->0, 23, m / 60 % 24) && field_allows(
                cron_field(f[2], 1, 31)->0,
                31,
                t.day as nat,
            ) && field_allows(cron_field(f[3], 1, 12)->0, 12, t.month as nat) && field_allows(
                cron_field(f[4], 0, 7)->0,
                7,
                (m / 1440 + 4) % 7,
            ))
        }),
{
    assert(white_space(' '));
    assert(one_word(f[0]) && one_word(f[1]) && one_word(f[2]) && one_word(f[3]) && one_word(f[4]));
    let d = f[3] + seq![' '] + f[4];
    let c = f[2] + seq![' '] + d;
    let b = f[1] + seq![' '] + c;
    law_words_stand_between_white_space(f[4], f[4], ' ');
    law_words_stand_between_white_space(f[3], f[4], ' ');
    law_words_stand_between_white_space(f[2], d, ' ');
    law_words_stand_between_white_space(f[1], c, ' ');
    law_words_stand_between_white_space(f[0], b, ' ');
    assert(words(line_text(f)) =~= f);
}

/// A cron line fires in the first minute behind the time asked about that it allows, if
/// there is one within about five years, and at the beginning of that minute.
pub proof fn law_a_line_fires_as_soon_as_it_may(spec: Seq<char>, after_ms: u64, m: nat)
    requires
        cron_line(spec) is Some,
        after_ms < m * 60_000,
        m <= after_ms / 60_000 + 2_635_201,
        m * 60_000 <= u64::MAX,
        fires_at(cron_line(spec)->0, m),
        forall|j: nat| after_ms < j * 60_000 && j < m ==> !fires_at(cron_line(spec)->0, j),
    ensures
        cron_next(spec, after_ms) == Some((m * 60_000) as u64),
        next_run(spec, after_ms) == Some((m * 60_000) as u64),
{
    let from = (after_ms / 60_000 + 1) as nat;
    let line = cron_line(spec)->0;
    assert(m >= from);
    assert forall|j: nat| from <= j < m implies !fires_at(line, j) by {
        assert(after_ms < j * 60_000);
    }
    lemma_first_is(line, from, m, from + crate::schedule::SEARCH_MINUTES as nat);
}

proof fn lemma_first_is(line: CronLine, from: nat, m: nat, last: nat)
    requires
        from <= m <= last,
        fires_at(line, m),
        forall|j: nat| from <= j < m ==> !fires_at(line, j),
    ensures
        first_firing(line, from, last) == Some(m),
    decreases m - from,
{
    if from < m {
        lemma_first_is(line, from + 1, m, last);
    }
}

/// A line that allows none of the minutes of the next five years has no time, and a text
/// that is no cron line and no interval has none either.
pub proof fn law_what_never_fires_has_no_time(spec: Seq<char>, after_ms: u64)
    requires
        cron_line(spec) is Some ==> forall|j: nat| after_ms < j * 60_000 ==> !fires_at(
            cron_line(spec)->0,
            j,
        ),
        interval_ms(spec) is None,
    ensures
        next_run(spec, after_ms) is None,
{
    if cron_line(spec) is Some {
        let from = (after_ms / 60_000 + 1) as nat;
        lemma_none_fires(
            cron_line(spec)->0,
            from,
            from + crate::schedule::SEARCH_MINUTES as nat,
            after_ms,
        );
    }
}

proof fn lemma_none_fires(line: CronLine, from: nat, last: nat, after_ms: u64)
    requires
        after_ms < from * 60_000,
        forall|j: nat| after_ms < j * 60_000 ==> !fires_at(line, j),
    ensures
        first_firing(line, from, last) is None,
    decreases last + 1 - from,
{
    if from <= last {
        lemma_none_fires(line, from + 1, last, after_ms);
    }
}

/// Days of the week follow each other from Thursday, 1970-01-01, on; Sunday is 0. Minutes
/// and hours are those of the day.
pub proof fn law_days_follow_each_other(m: int)
    requires
        m >= 0,
    ensures
        minute_fields(0).day_of_week == 4,
        minute_fields(m + 1440).day_of_week == (minute_fields(m).day_of_week + 1) % 7,
        minute_fields(m + 1440).minute == minute_fields(m).minute,
        minute_fields(m + 1440).hour == minute_fields(m).hour,
        minute_fields(m + 60).hour == (minute_fields(m).hour + 1) % 24,
        minute_fields(m + 1).minute == (minute_fields(m).minute + 1) % 60,
{
    let q = m / 1440;
    let h = m / 60;
    assert((m + 1440) / 1440 == q + 1 && (m + 1440) / 60 == h + 24 && (m + 60) / 60 == h + 1);
    assert((m + 1440) % 60 == m % 60);
    assert((q + 5) % 7 == ((q + 4) % 7 + 1) % 7);
    assert((h + 24) % 24 == h % 24);
    assert((h + 1) % 24 == (h % 24 + 1) % 24);
    assert((m + 1) % 60 == (m % 60 + 1) % 60);
}

spec fn no_capital(c: char) -> bool {
    !('A' <= c <= 'Z')
}

/// A text whose characters are small and that white space does not surround is compared as
/// it is.
proof fn lemma_compared_as_it_is(s: Seq<char>)
    requires
        s.len() > 0,
        !white_space(s[0]),
        !white_space(s.last()),
        forall|i: int| 0 <= i < s.len() ==> no_capital(#[trigger] s[i]),
    ensures
        lower_text(trimmed(s)) == s,
        trimmed(s) == s,
{
    assert(trim_start(s) == s);
    assert(trim_end(s) == s);
    assert(lower_text(s) =~= s);
}

/// The characters of a duration: a number and the unit behind it.
pub open spec fn duration_text(n: nat, unit: char) -> Seq<char> {
    decimal(n) + seq![unit]
}

/// An interval is added to the time asked about, whatever that time is: seconds, minutes,
/// hours or days, as many as are named, up to the largest time that there is.
pub proof fn law_intervals_are_added(n: nat, unit: char, unit_ms: nat, after_ms: u64)
    requires
        n <= u64::MAX,
        (unit == 's' && unit_ms == 1_000) || (unit == 'm' && unit_ms == 60_000) || (unit == 'h'
            && unit_ms == 3_600_000) || (unit == 'd' && unit_ms == 86_400_000),
    ensures
        ({
            let t = after_ms + n * unit_ms;
            let expected: Option<u64> = Some(
                if t <= u64::MAX {
                    t as u64
                } else {
                    u64::MAX
                },
            );
            &&& next_run("every "@ + duration_text(n, unit), after_ms) == expected
            &&& next_run("every:"@ + duration_text(n, unit), after_ms) == expected
        }),
{
    lemma_duration(n, unit, unit_ms);
    lemma_every_blank(duration_text(n, unit), (n * unit_ms) as int, after_ms);
    lemma_every_colon(duration_text(n, unit), (n * unit_ms) as int, after_ms);
    assert(n * unit_ms >= 0) by (nonlinear_arith);
}

/// A text of one word without capitals that a duration can be read from.
spec fn plain_duration(d: Seq<char>, ms: int) -> bool {
    &&& one_word(d)
    &&& forall|i: int| 0 <= i < d.len() ==> no_capital(#[trigger] d[i])
    &&& duration_ms(d) == Some(capped(ms))
}

proof fn lemma_duration(n: nat, unit: char, unit_ms: nat)
    requires
        n <= u64::MAX,
        (unit == 's' && unit_ms == 1_000) || (unit == 'm' && unit_ms == 60_000) || (unit == 'h'
            && unit_ms == 3_600_000) || (unit == 'd' && unit_ms == 86_400_000),
    ensures
        plain_duration(duration_text(n, unit), (n * unit_ms) as int),
{
    law_numbers_are_read_as_written(n, u64::MAX as nat);
    let d = duration_text(n, unit);
    assert(d.last() == unit);
    assert forall|i: int| 0 <= i < d.len() implies no_capital(#[trigger] d[i]) && !white_space(
        d[i],
    ) by {
        if i < decimal(n).len() {
            assert(d[i] == decimal(n)[i]);
        }
    }
    lemma_compared_as_it_is(d);
    assert(d.drop_last() =~= decimal(n));
    assert forall|i: int| 0 <= i < decimal(n).len() implies no_capital(#[trigger] decimal(n)[i])
        && !white_space(decimal(n)[i]) by {
        assert(d[i] == decimal(n)[i]);
    }
    lemma_compared_as_it_is(decimal(n));
}

proof fn lemma_every_blank(d: Seq<char>, ms: int, after_ms: u64)
    requires
        plain_duration(d, ms),
        ms >= 0,
    ensures
        next_run("every "@ + d, after_ms) == Some(capped(after_ms + capped(ms))),
{
    reveal_strlit("every ");
    reveal_strlit("every");
    let a = "every "@ + d;
    let every = "every"@;
    assert(white_space(' '));
    assert(a =~= every + seq![' '] + d);
    law_words_stand_between_white_space(every, d, ' ');
    law_words_stand_between_white_space(d, d, ' ');
    assert(words(a).len() == 2);
    assert(a.last() == d.last());
    assert forall|i: int| 0 <= i < a.len() implies no_capital(#[trigger] a[i]) by {
        if i >= 6 {
            assert(a[i] == d[i - 6]);
        }
    }
    lemma_compared_as_it_is(a);
    assert(a.skip(6) =~= d);
    assert(a.subrange(0, 6) =~= "every "@);
    lemma_no_name(a);
}

proof fn lemma_every_colon(d: Seq<char>, ms: int, after_ms: u64)
    requires
        plain_duration(d, ms),
        ms >= 0,
    ensures
        next_run("every:"@ + d, after_ms) == Some(capped(after_ms + capped(ms))),
{
    reveal_strlit("every:");
    let b = "every:"@ + d;
    assert forall|i: int| 0 <= i < b.len() implies no_capital(#[trigger] b[i]) && !white_space(
        b[i],
    ) by {
        if i >= 6 {
            assert(b[i] == d[i - 6]);
        }
    }
    lemma_one_word_interval(b, after_ms);
    assert(b.skip(6) =~= d);
    assert(b.subrange(0, 6) =~= "every:"@);
    lemma_no_name(b);
}

/// A text that begins with an `e` is none of the named schedules.
proof fn lemma_no_name(s: Seq<char>)
    requires
        s.len() > 1,
        s[0] == 'e',
    ensures
        s != "@once"@,
        s != "once"@,
        s != "@hourly"@,
        s != "@daily"@,
        s != "@weekly"@,
{
    reveal_strlit("@once");
    reveal_strlit("once");
    reveal_strlit("@hourly");
    reveal_strlit("@daily");
    reveal_strlit("@weekly");
}

/// The named intervals are an hour, a day and a week long, and what happens once does not
/// happen again.
pub proof fn law_named_intervals(after_ms: u64)
    requires
        after_ms <= u64::MAX - 604_800_000,
    ensures
        next_run("@hourly"@, after_ms) == Some((after_ms + 3_600_000) as u64),
        next_run("@daily"@, after_ms) == Some((after_ms + 24 * 3_600_000) as u64),
        next_run("@weekly"@, after_ms) == Some((after_ms + 7 * 24 * 3_600_000) as u64),
        next_run("@once"@, after_ms) is None,
        next_run("once"@, after_ms) is None,
{
    lemma_hourly(after_ms);
    lemma_daily(after_ms);
    lemma_weekly(after_ms);
    lemma_once(after_ms);
}

proof fn lemma_one_word_interval(s: Seq<char>, after_ms: u64)
    requires
        one_word(s),
        forall|i: int| 0 <= i < s.len() ==> no_capital(#[trigger] s[i]),
    ensures
        lower_text(trimmed(s)) == s,
        next_run(s, after_ms) == match interval_ms(s) {
            Some(ms) => Some(capped(after_ms + ms)),
            None => None,
        },
{
    lemma_compared_as_it_is(s);
    law_words_stand_between_white_space(s, s, ' ');
    assert(words(s).len() == 1);
}

proof fn lemma_hourly(after_ms: u64)
    requires
        after_ms <= u64::MAX - 604_800_000,
    ensures
        next_run("@hourly"@, after_ms) == Some((after_ms + 3_600_000) as u64),
{
    reveal_strlit("@once");
    reveal_strlit("once");
    reveal_strlit("@hourly");
    lemma_one_word_interval("@hourly"@, after_ms);
    assert("@hourly"@.len() != "@once"@.len() && "@hourly"@.len() != "once"@.len());
}

proof fn lemma_daily(after_ms: u64)
    requires
        after_ms <= u64::MAX - 604_800_000,
    ensures
        next_run("@daily"@, after_ms) == Some((after_ms + 24 * 3_600_000) as u64),
{
    reveal_strlit("@once");
    reveal_strlit("once");
    reveal_strlit("@hourly");
    reveal_strlit("@daily");
    lemma_one_word_interval("@daily"@, after_ms);
    assert("@daily"@.len() != "@once"@.len() && "@daily"@.len() != "once"@.len() && "@daily"@.len()
        != "@hourly"@.len());
}

proof fn lemma_weekly(after_ms: u64)
    requires
        after_ms <= u64::MAX - 604_800_000,
    ensures
        next_run("@weekly"@, after_ms) == Some((after_ms + 7 * 24 * 3_600_000) as u64),
{
    reveal_strlit("@once");
    reveal_strlit("once");
    reveal_strlit("@hourly");
    reveal_strlit("@daily");
    reveal_strlit("@weekly");
    lemma_one_word_interval("@weekly"@, after_ms);
    assert("@weekly"@.len() != "@once"@.len() && "@weekly"@.len() != "once"@.len()
        && "@weekly"@.len() != "@daily"@.len());
    assert("@weekly"@[1] != "@hourly"@[1]);
}

proof fn lemma_once(after_ms: u64)
    ensures
        next_run("@once"@, after_ms) is None,
        next_run("once"@, after_ms) is None,
{
    reveal_strlit("@once");
    reveal_strlit("once");
    lemma_one_word_interval("@once"@, after_ms);
    lemma_one_word_interval("once"@, after_ms);
}

} // verus!
