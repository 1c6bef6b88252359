//! When two JSON values are the same: objects are compared by their members, whatever
//! the order in which those stand.
use vstd::prelude::*;

use crate::json::{
    find_member, json_get, json_to_string, json_views, json_written, lemma_json_view, lemma_member_index,
    lemma_parts_are_smaller, member_index, member_views, Json, JsonNumber, JsonView,
};
use crate::text::same_text;

verus! {

/// The text is that of one of the two zeros that are no integers.
pub open spec fn zero_text(s: Seq<char>) -> bool {
    s == "0.0"@ || s == "-0.0"@
}

/// Two texts stand for the same number: they are equal, or both stand for a zero.
pub open spec fn same_number_text(s: Seq<char>, t: Seq<char>) -> bool {
    s == t || (zero_text(s) && zero_text(t))
}

/// Two numbers are the same: equal integers, or other numbers whose texts stand for the
/// same number.
pub open spec fn same_number(a: JsonNumber, b: JsonNumber) -> bool {
    match (a, b) {
        (JsonNumber::Unsigned(m), JsonNumber::Unsigned(n)) => m == n,
        (JsonNumber::Negative(m), JsonNumber::Negative(n)) => m == n,
        (JsonNumber::Other(_), JsonNumber::Other(_)) => same_number_text(
            json_written(JsonView::Number(a)),
            json_written(JsonView::Number(b)),
        ),
        _ => false,
    }
}

fn is_zero_text(s: &str) -> (b: bool)
    ensures
        b == zero_text(s@),
{
    same_text(s, "0.0") || same_text(s, "-0.0")
}

/// Whether the texts of two numbers that are no integers stand for the same number.
pub fn same_number_texts(s: &str, t: &str) -> (b: bool)
    ensures
        b == same_number_text(s@, t@),
{
    same_text(s, t) || (is_zero_text(s) && is_zero_text(t))
}

/// Two values are the same. Objects are, if the members that count have the same names
/// and, name by name, the same values.
pub open spec fn same_value(a: JsonView, b: JsonView) -> bool
    decreases a,
{
    match (a, b) {
        (JsonView::Number(m), JsonView::Number(n)) => same_number(m, n),
        (JsonView::Array(x), JsonView::Array(y)) => x.len() == y.len() && forall|i: int|
            0 <= i < x.len() ==> same_value(#[trigger] x[i], y[i]),
        (JsonView::Object(x), JsonView::Object(y)) => {
            &&& names_within(x, y)
            &&& names_within(y, x)
            &&& forall|i: int|
                0 <= i < x.len() && counts(x, i) ==> same_value(
                    (#[trigger] x[i]).1,
                    y[member_index(y, x[i].0)->0].1,
                )
        },
        _ => a == b,
    }
}

/// The member at `i` is the one that counts for its name.
pub open spec fn counts(members: Seq<(Seq<char>, JsonView)>, i: int) -> bool {
    member_index(members, members[i].0) == Some(i)
}

/// Each name of `x` is a name of `y`.
pub open spec fn names_within(
    x: Seq<(Seq<char>, JsonView)>,
    y: Seq<(Seq<char>, JsonView)>,
) -> bool {
    forall|i: int| 0 <= i < x.len() ==> member_index(y, (#[trigger] x[i]).0) is Some
}

fn same_names(x: &Vec<(String, Json)>, y: &Vec<(String, Json)>) -> (b: bool)
    ensures
        b == names_within(member_views(x@), member_views(y@)),
{
    let ghost views = member_views(x@);
    let mut i: usize = 0;
    while i < x.len()
        invariant
            i <= x@.len(),
            views == member_views(x@),
            forall|j: int|
                0 <= j < i ==> member_index(member_views(y@), (#[trigger] views[j]).0) is Some,
        decreases x@.len() - i,
    {
        if find_member(y, x[i].0.as_str()).is_none() {
            assert(member_index(member_views(y@), views[i as int].0) is None);
            return false;
        }
        assert(views[i as int].0 == x@[i as int].0@);
        i += 1;
    }
    true
}

fn same_json(a: &Json, b: &Json) -> (r: bool)
    ensures
        r == same_value(a@, b@),
    decreases a,
{
    proof {
        lemma_json_view(*a);
        lemma_json_view(*b);
    }
    match (a, b) {
        (Json::Null, Json::Null) => true,
        (Json::Bool(x), Json::Bool(y)) => *x == *y,
        (Json::String(x), Json::String(y)) => same_text(x.as_str(), y.as_str()),
        (Json::Number(x), Json::Number(y)) => match (x, y) {
            (JsonNumber::Unsigned(m), JsonNumber::Unsigned(n)) => *m == *n,
            (JsonNumber::Negative(m), JsonNumber::Negative(n)) => *m == *n,
            (JsonNumber::Other(_), JsonNumber::Other(_)) => {
                let s = json_to_string(a);
                let t = json_to_string(b);
                same_number_texts(s.as_str(), t.as_str())
            },
            _ => false,
        },
        (Json::Array(x), Json::Array(y)) => {
            let ghost left = json_views(x@);
            let ghost right = json_views(y@);
            if x.len() != y.len() {
                return false;
            }
            let mut i: usize = 0;
            while i < x.len()
                invariant
                    i <= x@.len(),
                    x@.len() == y@.len(),
                    *a == Json::Array(*x),
                    left == json_views(x@),
                    right == json_views(y@),
                    a@ == JsonView::Array(left),
                    b@ == JsonView::Array(right),
                    forall|j: int| 0 <= j < i ==> same_value(#[trigger] left[j], right[j]),
                decreases x@.len() - i,
            {
                proof {
                    lemma_parts_are_smaller(*a, i as int);
                }
                if !same_json(&x[i], &y[i]) {
                    assert(!same_value(left[i as int], right[i as int]));
                    return false;
                }
                i += 1;
            }
            true
        },
        (Json::Object(x), Json::Object(y)) => {
            let ghost left = member_views(x@);
            let ghost right = member_views(y@);
            if !same_names(x, y) || !same_names(y, x) {
                return false;
            }
            let mut i: usize = 0;
            while i < x.len()
                invariant
                    i <= x@.len(),
                    *a == Json::Object(*x),
                    left == member_views(x@),
                    right == member_views(y@),
                    a@ == JsonView::Object(left),
                    b@ == JsonView::Object(right),
                    names_within(left, right),
                    forall|j: int|
                        0 <= j < i && counts(left, j) ==> same_value(
                            (#[trigger] left[j]).1,
                            right[member_index(right, left[j].0)->0].1,
                        ),
                decreases x@.len() - i,
            {
                proof {
                    lemma_parts_are_smaller(*a, i as int);
                    assert(left[i as int] == (x@[i as int].0@, x@[i as int].1@));
                }
                match (find_member(x, x[i].0.as_str()), find_member(y, x[i].0.as_str())) {
                    (Some(k), Some(m)) => {
                        if k == i && !same_json(&x[i].1, &y[m].1) {
                            assert(counts(left, i as int));
                            return false;
                        }
                    },
                    _ => {
                        proof {
                            lemma_member_index(left, left[i as int].0);
                        }
                    },
                }
                i += 1;
            }
            true
        },
        _ => false,
    }
}

impl PartialEq for Json {
    fn eq(&self, other: &Self) -> (b: bool) {
        same_json(self, other)
    }
}

impl vstd::std_specs::cmp::PartialEqSpecImpl for Json {
    open spec fn obeys_eq_spec() -> bool {
        true
    }

    open spec fn eq_spec(&self, other: &Self) -> bool {
        same_value(self@, other@)
    }
}

/// A value is the same as itself.
pub proof fn law_equality_is_reflexive(v: JsonView)
    ensures
        same_value(v, v),
    decreases v,
{
    match v {
        JsonView::Array(items) => {
            assert forall|i: int| 0 <= i < items.len() implies same_value(
                #[trigger] items[i],
                items[i],
            ) by {
                law_equality_is_reflexive(items[i]);
            }
        },
        JsonView::Object(members) => {
            assert forall|i: int| 0 <= i < members.len() implies member_index(
                members,
                (#[trigger] members[i]).0,
            ) is Some && same_value(members[i].1, members[i].1) by {
                lemma_member_index(members, members[i].0);
                law_equality_is_reflexive(members[i].1);
            }
        },
        _ => {},
    }
}

/// Whether two values are the same does not depend on which comes first.
pub proof fn law_equality_is_symmetric(a: JsonView, b: JsonView)
    requires
        same_value(a, b),
    ensures
        same_value(b, a),
    decreases a,
{
    match (a, b) {
        (JsonView::Array(x), JsonView::Array(y)) => {
            assert forall|i: int| 0 <= i < y.len() implies same_value(#[trigger] y[i], x[i]) by {
                law_equality_is_symmetric(x[i], y[i]);
            }
        },
        (JsonView::Object(x), JsonView::Object(y)) => {
            assert forall|j: int| 0 <= j < y.len() && counts(y, j) implies same_value(
                (#[trigger] y[j]).1,
                x[member_index(x, y[j].0)->0].1,
            ) by {
                lemma_member_index(x, y[j].0);
                let i = member_index(x, y[j].0)->0;
                assert(counts(x, i));
                law_equality_is_symmetric(x[i].1, y[j].1);
            }
        },
        _ => {},
    }
}

/// Values that are the same as a third one are the same.
pub proof fn law_equality_is_transitive(a: JsonView, b: JsonView, c: JsonView)
    requires
        same_value(a, b),
        same_value(b, c),
    ensures
        same_value(a, c),
    decreases a,
{
    match (a, b, c) {
        (JsonView::Array(x), JsonView::Array(y), JsonView::Array(z)) => {
            assert forall|i: int| 0 <= i < x.len() implies same_value(#[trigger] x[i], z[i]) by {
                assert(same_value(y[i], z[i]));
                law_equality_is_transitive(x[i], y[i], z[i]);
            }
        },
        (JsonView::Object(x), JsonView::Object(y), JsonView::Object(z)) => {
            lemma_names_within(x, y, z);
            lemma_names_within(z, y, x);
            assert forall|i: int| 0 <= i < x.len() && counts(x, i) implies same_value(
                (#[trigger] x[i]).1,
                z[member_index(z, x[i].0)->0].1,
            ) by {
                lemma_member_index(y, x[i].0);
                let j = member_index(y, x[i].0)->0;
                assert(counts(y, j));
                assert(same_value(y[j].1, z[member_index(z, y[j].0)->0].1));
                law_equality_is_transitive(x[i].1, y[j].1, z[member_index(z, x[i].0)->0].1);
            }
        },
        _ => {},
    }
}

proof fn lemma_names_within(
    x: Seq<(Seq<char>, JsonView)>,
    y: Seq<(Seq<char>, JsonView)>,
    z: Seq<(Seq<char>, JsonView)>,
)
    requires
        names_within(x, y),
        names_within(y, z),
    ensures
        names_within(x, z),
{
    assert forall|i: int| 0 <= i < x.len() implies member_index(z, (#[trigger] x[i]).0) is Some by {
        lemma_member_index(y, x[i].0);
        let j = member_index(y, x[i].0)->0;
        assert(y[j].0 == x[i].0);
    }
}

/// Values that are the same are of the same sort and have the same parts: texts are equal,
/// arrays have the same items in the same order, and objects the same members, name by name.
pub proof fn law_same_values_have_the_same_parts(a: JsonView, b: JsonView, key: Seq<char>, i: int)
    requires
        same_value(a, b),
    ensures
        a is Null <==> b is Null,
        a is Bool ==> a == b,
        a is String ==> a == b,
        a is Number ==> b is Number,
        a is Array ==> b is Array && a->Array_0.len() == b->Array_0.len() && (0 <= i
            < a->Array_0.len() ==> same_value(a->Array_0[i], b->Array_0[i])),
        a is Object ==> b is Object && (json_get(a, key) is Some <==> json_get(b, key) is Some) && (
        json_get(a, key) is Some ==> same_value(json_get(a, key)->0, json_get(b, key)->0)),
        match (a, b) {
            (
                JsonView::Number(JsonNumber::Unsigned(m)),
                JsonView::Number(JsonNumber::Unsigned(n)),
            ) => m == n,
            (
                JsonView::Number(JsonNumber::Negative(m)),
                JsonView::Number(JsonNumber::Negative(n)),
            ) => m == n,
            _ => true,
        },
{
    match (a, b) {
        (JsonView::Object(x), JsonView::Object(y)) => {
            lemma_member_index(x, key);
            lemma_member_index(y, key);
            if member_index(x, key) is Some {
                let k = member_index(x, key)->0;
                assert(x[k].0 == key);
                assert(counts(x, k));
                assert(same_value(x[k].1, y[member_index(y, x[k].0)->0].1));
            }
            if member_index(y, key) is Some {
                assert(y[member_index(y, key)->0].0 == key);
            }
        },
        _ => {},
    }
}

} // verus!
