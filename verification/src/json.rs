//! JSON values. Objects are lists of members in which the last member of a name
//! counts; text is written and read by `serde_json`.
use vstd::prelude::*;

use crate::text::same_text;
use crate::text_order::not_after;

verus! {

/// A number: an integer, or any other number as `serde_json` holds it.
#[derive(Debug, PartialEq)]
pub enum JsonNumber {
    Unsigned(u64),
    Negative(i64),
    Other(serde_json::Number),
}

#[derive(Debug)]
pub enum Json {
    Null,
    Bool(bool),
    Number(JsonNumber),
    String(String),
    Array(Vec<Json>),
    Object(Vec<(String, Json)>),
}

/// `serde_json::Number`, carried through unread.
#[verifier::external_type_specification]
#[verifier::external_body]
pub struct ExNumber(serde_json::Number);

/// `serde_json::Value`, carried through unread.
#[verifier::external_type_specification]
#[verifier::external_body]
pub struct ExValue(serde_json::Value);

/// A JSON value in which texts and lists are mathematical sequences.
pub enum JsonView {
    Null,
    Bool(bool),
    Number(JsonNumber),
    String(Seq<char>),
    Array(Seq<JsonView>),
    Object(Seq<(Seq<char>, JsonView)>),
}

impl View for Json {
    type V = JsonView;

    open spec fn view(&self) -> JsonView
        decreases self,
    {
        match self {
            Json::Null => JsonView::Null,
            Json::Bool(b) => JsonView::Bool(*b),
            Json::Number(n) => JsonView::Number(*n),
            Json::String(s) => JsonView::String(s@),
            Json::Array(items) => JsonView::Array(
                Seq::new(
                    items@.len(),
                    |i: int|
                        if 0 <= i < items@.len() {
                            items@[i].view()
                        } else {
                            JsonView::Null
                        },
                ),
            ),
            Json::Object(members) => JsonView::Object(
                Seq::new(
                    members@.len(),
                    |i: int|
                        if 0 <= i < members@.len() {
                            (members@[i].0@, members@[i].1.view())
                        } else {
                            (Seq::empty(), JsonView::Null)
                        },
                ),
            ),
        }
    }
}

pub open spec fn json_views(items: Seq<Json>) -> Seq<JsonView> {
    Seq::new(items.len(), |i: int| items[i]@)
}

pub open spec fn member_views(members: Seq<(String, Json)>) -> Seq<(Seq<char>, JsonView)> {
    Seq::new(members.len(), |i: int| (members[i].0@, members[i].1@))
}

pub proof fn lemma_json_view(v: Json)
    ensures
        match v {
            Json::Array(items) => v@ == JsonView::Array(json_views(items@)),
            Json::Object(members) => v@ == JsonView::Object(member_views(members@)),
            _ => true,
        },
{
    reveal_with_fuel(<Json as View>::view, 2);
    match v {
        Json::Array(items) => {
            assert(v@->Array_0 =~= json_views(items@));
        },
        Json::Object(members) => {
            assert(v@->Object_0 =~= member_views(members@));
        },
        _ => {},
    }
}

/// The place of the last member called `key`: the one that counts.
pub open spec fn member_index(members: Seq<(Seq<char>, JsonView)>, key: Seq<char>) -> Option<int>
    decreases members.len(),
{
    if members.len() == 0 {
        None
    } else if members.last().0 == key {
        Some(members.len() - 1)
    } else {
        member_index(members.drop_last(), key)
    }
}

pub proof fn lemma_member_index(members: Seq<(Seq<char>, JsonView)>, key: Seq<char>)
    ensures
        match member_index(members, key) {
            Some(i) => 0 <= i < members.len() && members[i].0 == key && (forall|j: int|
                i < j < members.len() ==> (#[trigger] members[j]).0 != key),
            None => forall|j: int| 0 <= j < members.len() ==> (#[trigger] members[j]).0 != key,
        },
    decreases members.len(),
{
    if members.len() > 0 && members.last().0 != key {
        lemma_member_index(members.drop_last(), key);
        assert forall|j: int| 0 <= j < members.len() - 1 implies members.drop_last()[j]
            == members[j] by {}
    }
}

/// The place of the member of an object that counts for `key`.
pub(crate) fn find_member(members: &Vec<(String, Json)>, key: &str) -> (r: Option<usize>)
    ensures
        match r {
            Some(i) => i < members@.len() && member_index(member_views(members@), key@) == Some(
                i as int,
            ),
            None => member_index(member_views(members@), key@) is None,
        },
{
    let ghost views = member_views(members@);
    let mut n: usize = members.len();
    assert(views.take(n as int) =~= views);
    while n > 0
        invariant
            n <= members@.len(),
            views == member_views(members@),
            member_index(views, key@) == member_index(views.take(n as int), key@),
        decreases n,
    {
        if same_text(members[n - 1].0.as_str(), key) {
            return Some(n - 1);
        }
        assert(views.take(n as int).drop_last() =~= views.take(n - 1));
        n -= 1;
    }
    None
}

/// The member `key` of an object.
pub open spec fn json_get(v: JsonView, key: Seq<char>) -> Option<JsonView> {
    match v {
        JsonView::Object(members) => match member_index(members, key) {
            Some(i) => Some(members[i].1),
            None => None,
        },
        _ => None,
    }
}

/// The text of a string value.
pub open spec fn json_text_of(v: Option<JsonView>) -> Option<Seq<char>> {
    match v {
        Some(JsonView::String(s)) => Some(s),
        _ => None,
    }
}

/// How deep arrays and objects are nested.
pub open spec fn json_depth(v: JsonView) -> nat
    decreases v,
{
    match v {
        JsonView::Array(items) => 1 + list_depth(items),
        JsonView::Object(members) => 1 + members_depth(members),
        _ => 0,
    }
}

pub open spec fn list_depth(items: Seq<JsonView>) -> nat
    decreases items,
{
    if items.len() == 0 {
        0
    } else {
        let before = list_depth(items.drop_last());
        let last = json_depth(items.last());
        if before >= last {
            before
        } else {
            last
        }
    }
}

pub open spec fn members_depth(members: Seq<(Seq<char>, JsonView)>) -> nat
    decreases members,
{
    if members.len() == 0 {
        0
    } else {
        let before = members_depth(members.drop_last());
        let last = json_depth(members.last().1);
        if before >= last {
            before
        } else {
            last
        }
    }
}

/// A value whose text gives back the same value: its numbers are integers,
/// negative ones marked as such, and the names of each object ascend.
pub open spec fn json_canonical(v: JsonView) -> bool
    decreases v,
{
    match v {
        JsonView::Number(JsonNumber::Unsigned(_)) => true,
        JsonView::Number(JsonNumber::Negative(n)) => n < 0,
        JsonView::Number(JsonNumber::Other(_)) => false,
        JsonView::Array(items) => forall|i: int|
            0 <= i < items.len() ==> json_canonical(#[trigger] items[i]),
        JsonView::Object(members) => {
            &&& forall|i: int|
                0 <= i < members.len() ==> json_canonical((#[trigger] members[i]).1)
            &&& forall|i: int, j: int|
                0 <= i < j < members.len() ==> not_after(
                    (#[trigger] members[i]).0,
                    (#[trigger] members[j]).0,
                ) && members[i].0 != members[j].0
        },
        _ => true,
    }
}

impl Json {
    pub fn get(&self, key: &str) -> (r: Option<&Json>)
        ensures
            match r {
                Some(v) => json_get(self@, key@) == Some(v@),
                None => json_get(self@, key@) is None,
            },
    {
        proof {
            lemma_json_view(*self);
        }
        match self {
            Json::Object(members) => match find_member(members, key) {
                Some(i) => Some(&members[i].1),
                None => None,
            },
            _ => None,
        }
    }

    pub fn as_str(&self) -> (r: Option<&str>)
        ensures
            match r {
                Some(s) => self@ == JsonView::String(s@),
                None => !(self@ is String),
            },
    {
        match self {
            Json::String(s) => Some(s.as_str()),
            _ => None,
        }
    }
}

/// `serde_json::Number::clone` gives back the same number.
pub assume_specification[ <serde_json::Number as Clone>::clone ](n: &serde_json::Number) -> (r:
    serde_json::Number)
    ensures
        r == *n,
;

/// Items and member values are parts of the value.
pub proof fn lemma_parts_are_smaller(v: Json, i: int)
    ensures
        v is Array && 0 <= i < v->Array_0@.len() ==> decreases_to!(v => v->Array_0@[i]),
        v is Object && 0 <= i < v->Object_0@.len() ==> decreases_to!(v => v->Object_0@[i].1),
{
    if v is Array && 0 <= i < v->Array_0@.len() {
        assert(decreases_to!(v => v->Array_0@[i]));
    }
    if v is Object && 0 <= i < v->Object_0@.len() {
        assert(decreases_to!(v => v->Object_0@[i].1));
    }
}

fn clone_json(v: &Json) -> (r: Json)
    ensures
        r@ == v@,
    decreases v,
{
    proof {
        lemma_json_view(*v);
    }
    match v {
        Json::Null => Json::Null,
        Json::Bool(b) => Json::Bool(*b),
        Json::Number(JsonNumber::Unsigned(n)) => Json::Number(JsonNumber::Unsigned(*n)),
        Json::Number(JsonNumber::Negative(n)) => Json::Number(JsonNumber::Negative(*n)),
        Json::Number(JsonNumber::Other(n)) => Json::Number(JsonNumber::Other(n.clone())),
        Json::String(s) => Json::String(s.clone()),
        Json::Array(items) => {
            let mut copy: Vec<Json> = Vec::new();
            let mut i: usize = 0;
            while i < items.len()
                invariant
                    i <= items@.len(),
                    *v == Json::Array(*items),
                    copy@.len() == i,
                    forall|j: int| 0 <= j < i ==> #[trigger] copy@[j]@ == items@[j]@,
                decreases items@.len() - i,
            {
                proof {
                    lemma_parts_are_smaller(*v, i as int);
                }
                copy.push(clone_json(&items[i]));
                i += 1;
            }
            let r = Json::Array(copy);
            proof {
                lemma_json_view(r);
                assert(json_views(copy@) =~= json_views(items@));
            }
            r
        },
        Json::Object(members) => {
            let mut copy: Vec<(String, Json)> = Vec::new();
            let mut i: usize = 0;
            while i < members.len()
                invariant
                    i <= members@.len(),
                    *v == Json::Object(*members),
                    copy@.len() == i,
                    forall|j: int|
                        0 <= j < i ==> (#[trigger] copy@[j]).0@ == members@[j].0@ && copy@[j].1@
                            == members@[j].1@,
                decreases members@.len() - i,
            {
                proof {
                    lemma_parts_are_smaller(*v, i as int);
                }
                copy.push((members[i].0.clone(), clone_json(&members[i].1)));
                i += 1;
            }
            let r = Json::Object(copy);
            proof {
                lemma_json_view(r);
                assert(member_views(copy@) =~= member_views(members@));
            }
            r
        },
    }
}

impl Clone for Json {
    fn clone(&self) -> (r: Self)
        ensures
            r@ == self@,
    {
        clone_json(self)
    }
}

pub open spec fn opt_json(o: Option<Json>) -> Option<JsonView> {
    match o {
        Some(v) => Some(v@),
        None => None,
    }
}

pub(crate) fn clone_opt_json(o: &Option<Json>) -> (r: Option<Json>)
    ensures
        opt_json(r) == opt_json(*o),
{
    match o {
        Some(v) => Some(v.clone()),
        None => None,
    }
}

/// What `serde_json::Value::to_string` writes for a value.
pub uninterp spec fn json_written(v: JsonView) -> Seq<char>;

/// What `serde_json::from_str` reads from a text: a value, or the message of the
/// error.
pub uninterp spec fn json_read(text: Seq<char>) -> Result<JsonView, Seq<char>>;

/// The text is read as the value `v`.
pub open spec fn reads_as(text: Seq<char>, v: JsonView) -> bool {
    json_read(text) == Ok::<JsonView, Seq<char>>(v)
}

/// The value as `serde_json` holds it; of several members of one name the last
/// one stays. Used by [`json_to_string`] alone, which says what becomes of it.
#[verifier::external_body]
fn to_value(v: &Json) -> serde_json::Value {
    match v {
        Json::Null => serde_json::Value::Null,
        Json::Bool(b) => serde_json::Value::Bool(*b),
        Json::Number(JsonNumber::Unsigned(n)) => serde_json::Value::from(*n),
        Json::Number(JsonNumber::Negative(n)) => serde_json::Value::from(*n),
        Json::Number(JsonNumber::Other(n)) => serde_json::Value::Number(n.clone()),
        Json::String(s) => serde_json::Value::String(s.clone()),
        Json::Array(items) => serde_json::Value::Array(items.iter().map(to_value).collect()),
        Json::Object(members) => serde_json::Value::Object(
            members.iter().map(|m| (m.0.clone(), to_value(&m.1))).collect(),
        ),
    }
}

/// A value that `serde_json` holds, as one of this library. Used by
/// [`json_from_str`] alone, which says what becomes of it.
#[verifier::external_body]
fn from_value(v: serde_json::Value) -> Json {
    match v {
        serde_json::Value::Null => Json::Null,
        serde_json::Value::Bool(b) => Json::Bool(b),
        serde_json::Value::Number(n) => Json::Number(from_number(n)),
        serde_json::Value::String(s) => Json::String(s),
        serde_json::Value::Array(items) => Json::Array(items.into_iter().map(from_value).collect()),
        serde_json::Value::Object(members) => Json::Object(
            members.into_iter().map(|m| (m.0, from_value(m.1))).collect(),
        ),
    }
}

/// A number that `serde_json` holds, by its kind. Used by [`from_value`] alone.
#[verifier::external_body]
fn from_number(n: serde_json::Number) -> JsonNumber {
    match (n.as_u64(), n.as_i64()) {
        (Some(u), _) => JsonNumber::Unsigned(u),
        (None, Some(i)) => JsonNumber::Negative(i),
        (None, None) => JsonNumber::Other(n),
    }
}

/// `serde_json::Value::to_string`: the compact text of a value, a function of the value
/// alone. Read again, the text of a canonical value that is not nested deeper
/// than `serde_json` reads gives the value back.
#[verifier::external_body]
pub(crate) fn json_to_string(v: &Json) -> (s: String)
    ensures
        s@ == json_written(v@),
        json_canonical(v@) && json_depth(v@) <= 127 ==> reads_as(s@, v@),
{
    to_value(v).to_string()
}

/// The text of an error or the view of a value.
pub open spec fn read_view(r: Result<Json, String>) -> Result<JsonView, Seq<char>> {
    match r {
        Ok(v) => Ok(v@),
        Err(e) => Err(e@),
    }
}

/// `serde_json::from_str` into a value: the value, or the message of the error, is
/// a function of the text alone.
#[verifier::external_body]
pub(crate) fn json_from_str(text: &str) -> (r: Result<Json, String>)
    ensures
        read_view(r) == json_read(text@),
{
    match serde_json::from_str::<serde_json::Value>(text) {
        Ok(v) => Ok(from_value(v)),
        Err(e) => Err(e.to_string()),
    }
}

impl Json {
    /// The value that a text says, or the message of the error.
    pub fn parse(text: &str) -> (r: Result<Json, String>)
        ensures
            read_view(r) == json_read(text@),
    {
        json_from_str(text)
    }

    /// The compact text of the value.
    pub fn to_text(&self) -> (s: String)
        ensures
            s@ == json_written(self@),
            json_canonical(self@) && json_depth(self@) <= 127 ==> reads_as(s@, self@),
    {
        json_to_string(self)
    }

    /// An object without members.
    pub fn object() -> (r: Json)
        ensures
            r@ == JsonView::Object(Seq::empty()),
    {
        let r = Json::Object(Vec::new());
        proof {
            lemma_json_view(r);
            assert(member_views(Seq::<(String, Json)>::empty()) =~= Seq::empty());
            assert(r@->Object_0 =~= Seq::empty());
        }
        r
    }

    /// The object with one more member behind those it has.
    pub fn with(self, key: &str, value: Json) -> (r: Json)
        requires
            self@ is Object,
        ensures
            r@ == JsonView::Object(self@->Object_0.push((key@, value@))),
    {
        proof {
            lemma_json_view(self);
        }
        match self {
            Json::Object(members) => {
                let mut members = members;
                let ghost before = member_views(members@);
                members.push((key.to_owned(), value));
                let r = Json::Object(members);
                proof {
                    lemma_json_view(r);
                    assert(member_views(members@) =~= before.push((key@, value@)));
                }
                r
            },
            other => other,
        }
    }

    pub fn text(s: &str) -> (r: Json)
        ensures
            r@ == JsonView::String(s@),
    {
        Json::String(s.to_owned())
    }

    pub fn number(n: u64) -> (r: Json)
        ensures
            r@ == JsonView::Number(JsonNumber::Unsigned(n)),
    {
        Json::Number(JsonNumber::Unsigned(n))
    }

    pub fn integer(n: i64) -> (r: Json)
        ensures
            r@ == json_integer(n),
    {
        if n >= 0 {
            Json::Number(JsonNumber::Unsigned(n as u64))
        } else {
            Json::Number(JsonNumber::Negative(n))
        }
    }

    pub fn list(items: Vec<Json>) -> (r: Json)
        ensures
            r@ == JsonView::Array(json_views(items@)),
    {
        let r = Json::Array(items);
        proof {
            lemma_json_view(r);
        }
        r
    }

    /// A text, or null where there is none.
    pub fn opt_text(s: &Option<String>) -> (r: Json)
        ensures
            r@ == json_opt_text(crate::text::opt_text(*s)),
    {
        match s {
            Some(s) => Json::String(s.clone()),
            None => Json::Null,
        }
    }
}

pub open spec fn json_integer(n: i64) -> JsonView {
    if n >= 0 {
        JsonView::Number(JsonNumber::Unsigned(n as u64))
    } else {
        JsonView::Number(JsonNumber::Negative(n))
    }
}

pub open spec fn json_opt_text(s: Option<Seq<char>>) -> JsonView {
    match s {
        Some(s) => JsonView::String(s),
        None => JsonView::Null,
    }
}

/// The value is an object that holds this member.
pub open spec fn shows(v: JsonView, name: Seq<char>, value: JsonView) -> bool {
    &&& v is Object
    &&& v->Object_0.contains((name, value))
}

/// The value is an object with this member at `i`.
pub(crate) proof fn lemma_shows(v: JsonView, i: int)
    requires
        v is Object,
        0 <= i < v->Object_0.len(),
    ensures
        shows(v, v->Object_0[i].0, v->Object_0[i].1),
{
    assert(v->Object_0.contains(v->Object_0[i]));
}

/// Of several members of one name the last one counts, members of other names do not
/// matter, and what is no object has no members.
pub proof fn law_the_last_member_counts(
    members: Seq<(Seq<char>, JsonView)>,
    key: Seq<char>,
    value: JsonView,
    other: Seq<char>,
    v: JsonView,
)
    ensures
        json_get(JsonView::Object(members.push((key, value))), key) == Some(value),
        other != key ==> json_get(JsonView::Object(members.push((key, value))), other)
            == json_get(JsonView::Object(members), other),
        json_get(JsonView::Object(Seq::empty()), key) is None,
        !(v is Object) ==> json_get(v, key) is None,
{
    let longer = members.push((key, value));
    assert(longer.drop_last() =~= members);
    lemma_member_index(members, other);
    lemma_member_index(longer, other);
    if member_index(members, other) is Some {
        let i = member_index(members, other)->0;
        assert(longer[i] == members[i]);
    }
}

/// An integer is the number that it is, however it is marked.
pub proof fn law_integers_are_kept(n: i64)
    ensures
        match json_integer(n) {
            JsonView::Number(JsonNumber::Unsigned(m)) => m == n,
            JsonView::Number(JsonNumber::Negative(m)) => m == n && n < 0,
            _ => false,
        },
{
}

} // verus!
