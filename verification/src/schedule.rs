//! When a schedule fires next: five-field cron lines in UTC and plain intervals.
use vstd::prelude::*;

use crate::calendar::{minute_fields, UtcMinute};
use crate::text::{
    char_position, chars_of, find_char, lower_string, lower_text, parse_number, parsed_number,
    split_on, split_text, split_words, string_of_range, texts, trim_range, trimmed, words,
};

verus! {

/// One part of a cron field: every `step`-th value from `start` to `end`.
pub struct CronRange {
    pub start: nat,
    pub end: nat,
    pub step: nat,
}

pub open spec fn range_covers(r: CronRange, v: nat) -> bool {
    r.start <= v <= r.end && (v - r.start) % (r.step as int) == 0
}

/// The range that the text before the step names: `*`, `a-b` or `a`.
pub open spec fn cron_bounds(range: Seq<char>, min: nat, max: nat) -> Option<(nat, nat)> {
    let number_max = u32::MAX as nat;
    if range == seq!['*'] {
        Some((min, max))
    } else {
        match char_position(range, '-', 0) {
            Some(i) => match (
                parsed_number(range.take(i), number_max),
                parsed_number(range.skip(i + 1), number_max),
            ) {
                (Some(a), Some(b)) => Some((a, b)),
                _ => None,
            },
            None => match parsed_number(range, number_max) {
                Some(a) => Some((a, a)),
                None => None,
            },
        }
    }
}

/// One part of a cron field, where it is well formed: a range within `min..=max`
/// and, behind a slash, a step that is not 0.
pub open spec fn cron_part(part: Seq<char>, min: nat, max: nat) -> Option<CronRange> {
    let (range, step) = match char_position(part, '/', 0) {
        Some(i) => (part.take(i), parsed_number(part.skip(i + 1), u32::MAX as nat)),
        None => (part, Some(1nat)),
    };
    match (step, cron_bounds(range, min, max)) {
        (Some(step), Some((start, end))) => if step > 0 && min <= start && start <= end && end
            <= max {
            Some(CronRange { start, end, step })
        } else {
            None
        },
        _ => None,
    }
}

/// All parts, where each of them is well formed.
pub open spec fn cron_ranges(parts: Seq<Seq<char>>, min: nat, max: nat) -> Option<Seq<CronRange>>
    decreases parts.len(),
{
    if parts.len() == 0 {
        Some(Seq::empty())
    } else {
        match (
            cron_ranges(parts.drop_last(), min, max),
            cron_part(parts.last(), min, max),
        ) {
            (Some(before), Some(last)) => Some(before.push(last)),
            _ => None,
        }
    }
}

/// The ranges of a cron field: parts separated by commas.
pub open spec fn cron_field(field: Seq<char>, min: nat, max: nat) -> Option<Seq<CronRange>> {
    cron_ranges(split_on(field, ','), min, max)
}

/// In the field of the weekdays 7 means the same as 0.
pub open spec fn normalized(v: nat, max: nat) -> nat {
    if max == 7 && v == 7 {
        0
    } else {
        v
    }
}

/// `value` is one of those that the ranges of a field with maximum `max` name.
pub open spec fn field_allows(ranges: Seq<CronRange>, max: nat, value: nat) -> bool {
    exists|i: int, v: nat|
        0 <= i < ranges.len() && #[trigger] range_covers(ranges[i], v) && normalized(v, max)
            == value
}

/// The five fields of a cron line.
pub struct CronLine {
    pub minute: Seq<CronRange>,
    pub hour: Seq<CronRange>,
    pub day_of_month: Seq<CronRange>,
    pub month: Seq<CronRange>,
    pub day_of_week: Seq<CronRange>,
}

/// The cron line that a text stands for, where it is one.
pub open spec fn cron_line(spec: Seq<char>) -> Option<CronLine> {
    let fields = words(spec);
    if fields.len() != 5 {
        None
    } else {
        match (
            cron_field(fields[0], 0, 59),
            cron_field(fields[1], 0, 23),
            cron_field(fields[2], 1, 31),
            cron_field(fields[3], 1, 12),
            cron_field(fields[4], 0, 7),
        ) {
            (
                Some(minute),
                Some(hour),
                Some(day_of_month),
                Some(month),
                Some(day_of_week),
            ) => Some(CronLine { minute, hour, day_of_month, month, day_of_week }),
            _ => None,
        }
    }
}

/// The cron line fires in the minute `m` after 1970-01-01T00:00.
pub open spec fn fires_at(line: CronLine, m: nat) -> bool {
    let t = minute_fields(m as int);
    &&& field_allows(line.minute, 59, t.minute as nat)
    &&& field_allows(line.hour, 23, t.hour as nat)
    &&& field_allows(line.day_of_month, 31, t.day as nat)
    &&& field_allows(line.month, 12, t.month as nat)
    &&& field_allows(line.day_of_week, 7, t.day_of_week as nat)
}

/// The first minute from `from` up to `last` in which the line fires.
pub open spec fn first_firing(line: CronLine, from: nat, last: nat) -> Option<nat>
    decreases last + 1 - from,
{
    if from > last {
        None
    } else if fires_at(line, from) {
        Some(from)
    } else {
        first_firing(line, from + 1, last)
    }
}

/// Five years of minutes.
pub const SEARCH_MINUTES: u64 = 2_635_200;

/// `n`, or the largest `u64` where `n` is larger.
pub open spec fn capped(n: int) -> u64 {
    if n > u64::MAX {
        u64::MAX
    } else {
        n as u64
    }
}

/// The time, in milliseconds, at which a cron text fires next after `after_ms`:
/// the first firing minute among those of the next five years.
pub open spec fn cron_next(spec: Seq<char>, after_ms: u64) -> Option<u64> {
    match cron_line(spec) {
        None => None,
        Some(line) => {
            let from = (after_ms / 60_000 + 1) as nat;
            match first_firing(line, from, from + SEARCH_MINUTES as nat) {
                None => None,
                Some(m) => Some(capped((m * 60_000) as int)),
            }
        },
    }
}

/// The length of one unit of a duration, in milliseconds.
pub open spec fn unit_ms(unit: char) -> Option<nat> {
    if unit == 's' {
        Some(1_000)
    } else if unit == 'm' {
        Some(60_000)
    } else if unit == 'h' {
        Some(3_600_000)
    } else if unit == 'd' {
        Some(86_400_000)
    } else {
        None
    }
}

/// A duration: a number and a unit.
pub open spec fn duration_ms(text: Seq<char>) -> Option<u64> {
    let value = trimmed(text);
    if value.len() == 0 {
        None
    } else {
        match (
            parsed_number(trimmed(value.drop_last()), u64::MAX as nat),
            unit_ms(value.last()),
        ) {
            (Some(n), Some(ms)) => Some(capped((n * ms) as int)),
            _ => None,
        }
    }
}

/// The interval that a text names: `@hourly`, `@daily`, `@weekly`, `every <duration>`
/// or `every:<duration>`. `@once` names none.
pub open spec fn interval_ms(spec: Seq<char>) -> Option<u64> {
    let s = lower_text(trimmed(spec));
    if s == "@once"@ || s == "once"@ {
        None
    } else if s == "@hourly"@ {
        Some(3_600_000)
    } else if s == "@daily"@ {
        Some(86_400_000)
    } else if s == "@weekly"@ {
        Some(604_800_000)
    } else if "every "@.is_prefix_of(s) || "every:"@.is_prefix_of(s) {
        duration_ms(s.skip(6))
    } else {
        None
    }
}

/// When a schedule fires next after `after_ms`: by its cron line, else by its
/// interval.
pub open spec fn next_run(spec: Seq<char>, after_ms: u64) -> Option<u64> {
    match cron_next(spec, after_ms) {
        Some(t) => Some(t),
        None => match interval_ms(spec) {
            Some(ms) => Some(capped(after_ms + ms)),
            None => None,
        },
    }
}

struct CronField {
    allowed: Vec<u32>,
}

/// `allowed` holds the values that `ranges` name.
spec fn lists(allowed: Seq<u32>, ranges: Seq<CronRange>, max: nat) -> bool {
    forall|value: u32| allowed.contains(value) <==> field_allows(ranges, max, value as nat)
}

impl CronField {
    spec fn stands_for(self, ranges: Seq<CronRange>, max: nat) -> bool {
        lists(self.allowed@, ranges, max)
    }

    fn parse(spec: &str, min: u32, max: u32) -> (r: Option<Self>)
        requires
            max < u32::MAX,
        ensures
            match r {
                Some(f) => cron_field(spec@, min as nat, max as nat) is Some && f.stands_for(
                    cron_field(spec@, min as nat, max as nat)->0,
                    max as nat,
                ),
                None => cron_field(spec@, min as nat, max as nat) is None,
            },
    {
        let chars = chars_of(spec);
        let parts = split_text(&chars, ',');
        let ghost all = split_on(spec@, ',');
        let mut allowed: Vec<u32> = Vec::new();
        let mut i: usize = 0;
        assert(all.take(0) =~= Seq::<Seq<char>>::empty());
        assert(lists(allowed@, Seq::<CronRange>::empty(), max as nat));
        while i < parts.len()
            invariant
                i <= parts@.len(),
                max < u32::MAX,
                all == texts(parts@),
                all == split_on(spec@, ','),
                cron_ranges(all.take(i as int), min as nat, max as nat) is Some,
                lists(
                    allowed@,
                    cron_ranges(all.take(i as int), min as nat, max as nat)->0,
                    max as nat,
                ),
            decreases parts@.len() - i,
        {
            proof {
                assert(all.take(i + 1).drop_last() =~= all.take(i as int));
                assert(all.take(i + 1).last() == parts@[i as int]@);
            }
            match parse_part(parts[i].as_str(), min, max) {
                None => {
                    proof {
                        lemma_ranges_prefix(all, i + 1, min as nat, max as nat);
                    }
                    return None;
                },
                Some((start, end, step)) => {
                    let ghost before = cron_ranges(all.take(i as int), min as nat, max as nat)->0;
                    let ghost range = CronRange {
                        start: start as nat,
                        end: end as nat,
                        step: step as nat,
                    };
                    add_range(
                        &mut allowed,
                        start,
                        end,
                        step,
                        max,
                        Ghost(before),
                        Ghost(range),
                    );
                },
            }
            i += 1;
        }
        assert(all.take(i as int) =~= all);
        Some(CronField { allowed })
    }

    fn matches(&self, value: u32, Ghost(ranges): Ghost<Seq<CronRange>>, Ghost(max): Ghost<nat>) -> (b:
        bool)
        requires
            self.stands_for(ranges, max),
        ensures
            b == field_allows(ranges, max, value as nat),
    {
        let mut i: usize = 0;
        while i < self.allowed.len()
            invariant
                i <= self.allowed@.len(),
                self.stands_for(ranges, max),
                forall|j: int| 0 <= j < i ==> self.allowed@[j] != value,
            decreases self.allowed@.len() - i,
        {
            if self.allowed[i] == value {
                assert(self.allowed@.contains(value));
                return true;
            }
            i += 1;
        }
        assert(!self.allowed@.contains(value));
        false
    }
}

proof fn lemma_ranges_prefix(parts: Seq<Seq<char>>, k: int, min: nat, max: nat)
    requires
        0 <= k <= parts.len(),
        cron_ranges(parts.take(k), min, max) is None,
    ensures
        cron_ranges(parts, min, max) is None,
    decreases parts.len() - k,
{
    if k < parts.len() {
        assert(parts.take(k + 1).drop_last() =~= parts.take(k));
        lemma_ranges_prefix(parts, k + 1, min, max);
    } else {
        assert(parts.take(k) =~= parts);
    }
}

/// Reads one part of a cron field as start, end and step.
fn parse_part(part: &str, min: u32, max: u32) -> (r: Option<(u32, u32, u32)>)
    ensures
        match r {
            Some((start, end, step)) => cron_part(part@, min as nat, max as nat) == Some(
                CronRange { start: start as nat, end: end as nat, step: step as nat },
            ),
            None => cron_part(part@, min as nat, max as nat) is None,
        },
        match r {
            Some((start, end, step)) => step > 0 && start <= end && end <= max,
            None => true,
        },
{
    let v = chars_of(part);
    let n: usize = v.len();
    let mut range_end: usize = n;
    let mut step: u32 = 1;
    match find_char(&v, '/') {
        Some(i) => {
            assert(v@.subrange(i + 1, n as int) =~= v@.skip(i + 1));
            range_end = i;
            match parse_number(&v, i + 1, n, u32::MAX as u64) {
                Some(k) => {
                    step = k as u32;
                },
                None => {
                    return None;
                },
            }
        },
        None => {},
    }
    let range_text = string_of_range(&v, 0, range_end);
    assert(range_text@ =~= match char_position(part@, '/', 0) {
        Some(i) => part@.take(i),
        None => part@,
    });
    if step == 0 {
        return None;
    }
    match parse_bounds(range_text.as_str(), min, max) {
        None => None,
        Some((start, end)) => {
            if start < min || end > max || start > end {
                None
            } else {
                Some((start, end, step))
            }
        },
    }
}

fn parse_bounds(range: &str, min: u32, max: u32) -> (r: Option<(u32, u32)>)
    ensures
        match r {
            Some((a, b)) => cron_bounds(range@, min as nat, max as nat) == Some(
                (a as nat, b as nat),
            ),
            None => cron_bounds(range@, min as nat, max as nat) is None,
        },
{
    let v = chars_of(range);
    let n: usize = v.len();
    if n == 1 && v[0] == '*' {
        assert(range@ =~= seq!['*']);
        return Some((min, max));
    }
    assert(range@ != seq!['*']);
    match find_char(&v, '-') {
        Some(i) => {
            assert(v@.subrange(0, i as int) =~= v@.take(i as int));
            assert(v@.subrange(i + 1, n as int) =~= v@.skip(i + 1));
            match (
                parse_number(&v, 0, i, u32::MAX as u64),
                parse_number(&v, i + 1, n, u32::MAX as u64),
            ) {
                (Some(a), Some(b)) => Some((a as u32, b as u32)),
                _ => None,
            }
        },
        None => {
            assert(v@.subrange(0, n as int) =~= v@);
            match parse_number(&v, 0, n, u32::MAX as u64) {
                Some(a) => Some((a as u32, a as u32)),
                None => None,
            }
        },
    }
}

/// `range` covers a value below `bound` that stands for `w`.
spec fn covers_below(range: CronRange, max: nat, bound: int, w: nat) -> bool {
    exists|v: nat| v < bound && #[trigger] range_covers(range, v) && normalized(v, max) == w
}

/// Adds the values of one range, each once.
fn add_range(
    allowed: &mut Vec<u32>,
    start: u32,
    end: u32,
    step: u32,
    max: u32,
    Ghost(before): Ghost<Seq<CronRange>>,
    Ghost(range): Ghost<CronRange>,
)
    requires
        step > 0,
        start <= end <= max < u32::MAX,
        range == (CronRange { start: start as nat, end: end as nat, step: step as nat }),
        lists(old(allowed)@, before, max as nat),
    ensures
        lists(final(allowed)@, before.push(range), max as nat),
{
    let mut value: u32 = start;
    let ghost initial = allowed@;
    proof {
        vstd::arithmetic::div_mod::lemma_small_mod(0, step as nat);
    }
    while value <= end
        invariant
            step > 0,
            start <= end <= max < u32::MAX,
            start <= value,
            range == (CronRange { start: start as nat, end: end as nat, step: step as nat }),
            value <= end ==> (value - start) % (step as int) == 0,
            forall|w: u32|
                #[trigger] allowed@.contains(w) <==> (initial.contains(w) || covers_below(
                    range,
                    max as nat,
                    value as int,
                    w as nat,
                )),
        decreases u32::MAX - value,
    {
        let normal: u32 = if max == 7 && value == 7 {
            0
        } else {
            value
        };
        let ghost here = allowed@;
        if !contains_value(allowed, normal) {
            allowed.push(normal);
        }
        let ghost next = if value + step > u32::MAX {
            u32::MAX as int
        } else {
            value + step
        };
        proof {
            lemma_no_value_between(range, value as nat, next);
            assert(range_covers(range, value as nat));
            assert forall|w: u32|
                #[trigger] allowed@.contains(w) <==> (initial.contains(w) || covers_below(
                    range,
                    max as nat,
                    next,
                    w as nat,
                )) by {
                if allowed@.contains(w) {
                    if here.contains(w) {
                        if !initial.contains(w) {
                            let v = choose|v: nat|
                                v < value && #[trigger] range_covers(range, v) && normalized(
                                    v,
                                    max as nat,
                                ) == w;
                            assert(v < next);
                        }
                    } else {
                        assert(w == normal);
                        assert(normalized(value as nat, max as nat) == w);
                    }
                }
                if initial.contains(w) {
                    assert(here.contains(w));
                    let k = choose|k: int| 0 <= k < here.len() && here[k] == w;
                    assert(allowed@[k] == w);
                }
                if covers_below(range, max as nat, next, w as nat) {
                    let v = choose|v: nat|
                        v < next && #[trigger] range_covers(range, v) && normalized(v, max as nat)
                            == w;
                    if v < value {
                        assert(here.contains(w));
                        let k = choose|k: int| 0 <= k < here.len() && here[k] == w;
                        assert(allowed@[k] == w);
                    } else {
                        assert(v == value);
                        if here.contains(normal) {
                            let k = choose|k: int| 0 <= k < here.len() && here[k] == normal;
                            assert(allowed@[k] == w);
                        } else {
                            assert(allowed@[here.len() as int] == w);
                        }
                    }
                }
            }
            if value + step <= u32::MAX {
                assert((value + step - start) % (step as int) == 0) by (nonlinear_arith)
                    requires
                        (value - start) % (step as int) == 0,
                        step > 0,
                ;
            }
        }
        value = value.saturating_add(step);
        assert(value == next);
    }
    proof {
        assert forall|w: u32|
            allowed@.contains(w) <==> field_allows(before.push(range), max as nat, w as nat) by {
            let after = before.push(range);
            if allowed@.contains(w) {
                if initial.contains(w) {
                    let (i, v) = choose|i: int, v: nat|
                        0 <= i < before.len() && #[trigger] range_covers(before[i], v)
                            && normalized(v, max as nat) == w;
                    assert(range_covers(after[i], v));
                } else {
                    let v = choose|v: nat|
                        v < value && #[trigger] range_covers(range, v) && normalized(
                            v,
                            max as nat,
                        ) == w;
                    assert(range_covers(after[before.len() as int], v));
                }
            }
            if field_allows(after, max as nat, w as nat) {
                let (i, v) = choose|i: int, v: nat|
                    0 <= i < after.len() && #[trigger] range_covers(after[i], v) && normalized(
                        v,
                        max as nat,
                    ) == w;
                if i < before.len() {
                    assert(range_covers(before[i], v));
                    assert(initial.contains(w));
                } else {
                    assert(range_covers(range, v) && v < value);
                    assert(covers_below(range, max as nat, value as int, w as nat));
                }
            }
        }
    }
}

/// A range covers no value strictly between one of its values and the next.
proof fn lemma_no_value_between(range: CronRange, value: nat, next: int)
    requires
        range.step > 0,
        range_covers(range, value),
        next == value + range.step || (next < value + range.step && range.end < next),
    ensures
        forall|v: nat| value < v < next ==> !#[trigger] range_covers(range, v),
        value < next,
{
    assert forall|v: nat| value < v < next implies !#[trigger] range_covers(range, v) by {
        if range_covers(range, v) {
            let a = v - range.start;
            let b = value - range.start;
            let s = range.step as int;
            vstd::arithmetic::div_mod::lemma_sub_mod_noop(a, b, s);
            vstd::arithmetic::div_mod::lemma_small_mod((a - b) as nat, s as nat);
            vstd::arithmetic::div_mod::lemma_small_mod(0, s as nat);
        }
    }
}

fn contains_value(v: &Vec<u32>, x: u32) -> (b: bool)
    ensures
        b == v@.contains(x),
{
    let mut i: usize = 0;
    while i < v.len()
        invariant
            i <= v@.len(),
            forall|j: int| 0 <= j < i ==> v@[j] != x,
        decreases v@.len() - i,
    {
        if v[i] == x {
            assert(v@.contains(x));
            return true;
        }
        i += 1;
    }
    false
}

/// The cron half of [`next_run`].
fn next_cron_run_after(spec: &str, after_ms: u64) -> (r: Option<u64>)
    ensures
        r == cron_next(spec@, after_ms),
{
    let chars = chars_of(spec);
    let fields = split_words(&chars);
    let ghost field_texts = words(spec@);
    if fields.len() != 5 {
        return None;
    }
    proof {
        assert(field_texts.len() == 5);
        assert(field_texts[0] == fields@[0]@);
        assert(field_texts[1] == fields@[1]@);
        assert(field_texts[2] == fields@[2]@);
        assert(field_texts[3] == fields@[3]@);
        assert(field_texts[4] == fields@[4]@);
    }
    let minute = match CronField::parse(fields[0].as_str(), 0, 59) {
        Some(f) => f,
        None => {
            return None;
        },
    };
    let hour = match CronField::parse(fields[1].as_str(), 0, 23) {
        Some(f) => f,
        None => {
            return None;
        },
    };
    let day_of_month = match CronField::parse(fields[2].as_str(), 1, 31) {
        Some(f) => f,
        None => {
            return None;
        },
    };
    let month = match CronField::parse(fields[3].as_str(), 1, 12) {
        Some(f) => f,
        None => {
            return None;
        },
    };
    let day_of_week = match CronField::parse(fields[4].as_str(), 0, 7) {
        Some(f) => f,
        None => {
            return None;
        },
    };
    let ghost line = cron_line(spec@)->0;
    let first: u64 = after_ms / 60_000 + 1;
    let last: u64 = first + SEARCH_MINUTES;
    let mut candidate: u64 = first;
    while candidate <= last
        invariant
            first <= candidate <= last + 1,
            first == after_ms / 60_000 + 1,
            last == first + SEARCH_MINUTES,
            cron_line(spec@) == Some(line),
            minute.stands_for(line.minute, 59),
            hour.stands_for(line.hour, 23),
            day_of_month.stands_for(line.day_of_month, 31),
            month.stands_for(line.month, 12),
            day_of_week.stands_for(line.day_of_week, 7),
            first_firing(line, first as nat, last as nat) == first_firing(
                line,
                candidate as nat,
                last as nat,
            ),
        decreases last + 1 - candidate,
    {
        let date = UtcMinute::from_unix_minute(candidate as i64);
        if minute.matches(date.minute, Ghost(line.minute), Ghost(59)) && hour.matches(
            date.hour,
            Ghost(line.hour),
            Ghost(23),
        ) && day_of_month.matches(date.day, Ghost(line.day_of_month), Ghost(31)) && month.matches(
            date.month,
            Ghost(line.month),
            Ghost(12),
        ) && day_of_week.matches(date.day_of_week, Ghost(line.day_of_week), Ghost(7)) {
            return Some(capped_product(candidate, 60_000));
        }
        candidate += 1;
    }
    None
}

/// `a * b`, or the largest `u64` where the product is larger.
fn capped_product(a: u64, b: u64) -> (r: u64)
    ensures
        r == capped(a * b),
{
    match a.checked_mul(b) {
        Some(p) => p,
        None => u64::MAX,
    }
}

/// The interval half of [`next_run`].
fn schedule_interval_ms(spec: &str) -> (r: Option<u64>)
    ensures
        r == interval_ms(spec@),
{
    let v = chars_of(spec);
    let (from, to) = trim_range(&v);
    let inner = string_of_range(&v, from, to);
    let s = lower_string(inner.as_str());
    if s == "@once".to_owned() || s == "once".to_owned() {
        return None;
    }
    if s == "@hourly".to_owned() {
        return Some(3_600_000);
    }
    if s == "@daily".to_owned() {
        return Some(86_400_000);
    }
    if s == "@weekly".to_owned() {
        return Some(604_800_000);
    }
    let c = chars_of(s.as_str());
    proof {
        reveal_strlit("every ");
        reveal_strlit("every:");
    }
    if starts_with(&c, "every ") || starts_with(&c, "every:") {
        let rest = string_of_range(&c, 6, c.len());
        assert(rest@ =~= c@.skip(6));
        parse_duration_ms(rest.as_str())
    } else {
        None
    }
}

fn starts_with(v: &[char], prefix: &str) -> (b: bool)
    ensures
        b == prefix@.is_prefix_of(v@),
{
    let p = chars_of(prefix);
    if p.len() > v.len() {
        return false;
    }
    let mut i: usize = 0;
    while i < p.len()
        invariant
            i <= p@.len() <= v@.len(),
            p@ == prefix@,
            forall|j: int| 0 <= j < i ==> p@[j] == v@[j],
        decreases p@.len() - i,
    {
        if p[i] != v[i] {
            assert(v@.subrange(0, p@.len() as int)[i as int] != p@[i as int]);
            return false;
        }
        i += 1;
    }
    assert(v@.subrange(0, p@.len() as int) =~= p@);
    true
}

fn parse_duration_ms(value: &str) -> (r: Option<u64>)
    ensures
        r == duration_ms(value@),
{
    let v = chars_of(value);
    let (from, to) = trim_range(&v);
    let inner = string_of_range(&v, from, to);
    let w = chars_of(inner.as_str());
    if w.len() == 0 {
        return None;
    }
    let unit = w[w.len() - 1];
    let head = string_of_range(&w, 0, w.len() - 1);
    assert(head@ =~= w@.drop_last());
    let h = chars_of(head.as_str());
    let (a, b) = trim_range(&h);
    let number: u64 = match parse_number(&h, a, b, u64::MAX) {
        Some(n) => n,
        None => {
            return None;
        },
    };
    if unit == 's' {
        Some(capped_product(number, 1_000))
    } else if unit == 'm' {
        Some(capped_product(number, 60_000))
    } else if unit == 'h' {
        Some(capped_product(number, 3_600_000))
    } else if unit == 'd' {
        Some(capped_product(number, 86_400_000))
    } else {
        None
    }
}

pub struct Scheduler;

impl Scheduler {
    pub fn new() -> (s: Self)
        ensures
            s == Scheduler,
    {
        Scheduler
    }

    /// When the schedule `cron` fires next after `after_ms`, in milliseconds since
    /// the epoch.
    pub fn next_run_after(cron: &str, after_ms: u64) -> (r: Option<u64>)
        ensures
            r == next_run(cron@, after_ms),
    {
        match next_cron_run_after(cron, after_ms) {
            Some(t) => Some(t),
            None => match schedule_interval_ms(cron) {
                Some(ms) => Some(after_ms.saturating_add(ms)),
                None => None,
            },
        }
    }
}

impl Default for Scheduler {
    fn default() -> (s: Self)
        ensures
            s == Scheduler,
    {
        Scheduler
    }
}

proof fn lemma_first_firing(line: CronLine, from: nat, last: nat)
    ensures
        match first_firing(line, from, last) {
            Some(m) => from <= m <= last && fires_at(line, m) && (forall|j: nat|
                from <= j < m ==> !fires_at(line, j)),
            None => forall|j: nat| from <= j <= last ==> !fires_at(line, j),
        },
    decreases last + 1 - from,
{
    if from <= last && !fires_at(line, from) {
        lemma_first_firing(line, from + 1, last);
    }
}

/// A cron line fires strictly later than the time asked about, in a minute that
/// its fields allow, and in none of the minutes before it.
pub proof fn law_cron_fires_in_the_first_allowed_minute(spec: Seq<char>, after_ms: u64)
    requires
        cron_next(spec, after_ms) is Some,
    ensures
        exists|m: nat|
            {
                &&& #[trigger] fires_at(cron_line(spec)->0, m)
                &&& cron_next(spec, after_ms) == Some(capped((m * 60_000) as int))
                &&& m * 60_000 > after_ms
                &&& forall|j: nat|
                    after_ms / 60_000 < j < m ==> !fires_at(cron_line(spec)->0, j)
            },
{
    let from = (after_ms / 60_000 + 1) as nat;
    let line = cron_line(spec)->0;
    lemma_first_firing(line, from, from + SEARCH_MINUTES as nat);
    let m = first_firing(line, from, from + SEARCH_MINUTES as nat)->0;
    assert(fires_at(line, m));
}

/// A schedule never fires before the time asked about.
pub proof fn law_next_run_is_not_in_the_past(spec: Seq<char>, after_ms: u64)
    ensures
        match next_run(spec, after_ms) {
            Some(t) => t >= after_ms,
            None => true,
        },
{
    if cron_next(spec, after_ms) is Some {
        law_cron_fires_in_the_first_allowed_minute(spec, after_ms);
    }
}

} // verus!
