//! Recognizing an agent that asks for the same tool calls round after round.
use vstd::prelude::*;

use crate::json::{
    find_member, json_to_string, json_views, json_written, lemma_json_view, lemma_member_index,
    lemma_parts_are_smaller, member_index, member_views, Json, JsonNumber, JsonView,
};
use crate::json_equality::{counts, names_within, same_value};
use crate::llm::types::{call_views, ToolCall, ToolCallView};
use crate::text::{
    join_strings, joined, lower_string, lower_text, same_text, texts, trim_string, trimmed,
};
use crate::text_order::{
    lemma_sorted_texts, lemma_sorted_texts_of_permutation, sort_strings, sorted_texts,
};

verus! {

pub const DEFAULT_TOOL_LOOP_THRESHOLD: usize = 4;

/// The variable of the environment that switches the detector on.
pub const TOOL_LOOP_DETECTOR_VARIABLE: &'static str = "LINGXIAO_TOOL_LOOP_DETECTOR";

/// The names of the members of an object.
pub open spec fn member_names(members: Seq<(Seq<char>, JsonView)>) -> Seq<Seq<char>> {
    Seq::new(members.len(), |i: int| members[i].0)
}

/// The text of a value that does not depend on the order of members: the names of
/// each object ascend.
pub open spec fn stable_text(v: JsonView) -> Seq<char>
    decreases v,
{
    match v {
        JsonView::Object(members) => "{"@ + joined(stable_members(members), ","@) + "}"@,
        JsonView::Array(items) => "["@ + joined(stable_items(items), ","@) + "]"@,
        _ => json_written(v),
    }
}

/// The texts of the members of an object, by ascending names.
pub open spec fn stable_members(members: Seq<(Seq<char>, JsonView)>) -> Seq<Seq<char>>
    decreases members,
{
    let names = sorted_texts(member_names(members));
    Seq::new(
        names.len(),
        |i: int|
            {
                let k = member_index(members, names[i]);
                json_written(JsonView::String(names[i])) + ":"@ + if k is Some && 0 <= k->0
                    < members.len() {
                    stable_text(members[k->0].1)
                } else {
                    Seq::empty()
                }
            },
    )
}

/// The texts of the items of an array.
pub open spec fn stable_items(items: Seq<JsonView>) -> Seq<Seq<char>>
    decreases items,
{
    Seq::new(
        items.len(),
        |i: int|
            if 0 <= i < items.len() {
                stable_text(items[i])
            } else {
                Seq::empty()
            },
    )
}

/// One member in the text of an object.
pub open spec fn stable_member(members: Seq<(Seq<char>, JsonView)>, name: Seq<char>) -> Seq<char> {
    json_written(JsonView::String(name)) + ":"@ + stable_text(
        members[member_index(members, name)->0].1,
    )
}

proof fn lemma_stable_text(v: JsonView)
    ensures
        match v {
            JsonView::Object(members) => stable_text(v) == "{"@ + joined(
                Seq::new(
                    members.len(),
                    |i: int| stable_member(members, sorted_texts(member_names(members))[i]),
                ),
                ","@,
            ) + "}"@,
            JsonView::Array(items) => stable_text(v) == "["@ + joined(
                Seq::new(items.len(), |i: int| stable_text(items[i])),
                ","@,
            ) + "]"@,
            _ => stable_text(v) == json_written(v),
        },
        match v {
            JsonView::Object(members) => forall|i: int|
                0 <= i < members.len() ==> member_index(
                    members,
                    #[trigger] sorted_texts(member_names(members))[i],
                ) is Some,
            _ => true,
        },
{
    match v {
        JsonView::Object(members) => {
            let names = sorted_texts(member_names(members));
            lemma_sorted_texts(member_names(members));
            assert forall|i: int| 0 <= i < names.len() implies ({
                let k = member_index(members, #[trigger] names[i]);
                k is Some && 0 <= k->0 < members.len()
            }) by {
                lemma_member_index(members, names[i]);
                assert(names.contains(names[i]));
                let j = choose|j: int|
                    0 <= j < members.len() && member_names(members)[j] == names[i];
                assert(members[j].0 == names[i]);
            }
            assert(stable_members(members) =~= Seq::new(
                members.len(),
                |i: int| stable_member(members, sorted_texts(member_names(members))[i]),
            ));
        },
        JsonView::Array(items) => {
            assert(stable_items(items) =~= Seq::new(items.len(), |i: int| stable_text(items[i])));
        },
        _ => {},
    }
}

/// The text of a value in which the names of each object ascend.
pub fn stable_json(value: &Json) -> (s: String)
    ensures
        s@ == stable_text(value@),
    decreases value,
{
    proof {
        lemma_json_view(*value);
        lemma_stable_text(value@);
    }
    match value {
        Json::Object(members) => {
            let ghost views = member_views(members@);
            let mut names: Vec<String> = Vec::new();
            let mut i: usize = 0;
            while i < members.len()
                invariant
                    i <= members@.len(),
                    names@.len() == i,
                    forall|j: int| 0 <= j < i ==> #[trigger] names@[j]@ == members@[j].0@,
                decreases members@.len() - i,
            {
                names.push(members[i].0.clone());
                i += 1;
            }
            assert(texts(names@) =~= member_names(views));
            let names = sort_strings(names);
            let ghost sorted = sorted_texts(member_names(views));
            let mut parts: Vec<String> = Vec::new();
            let mut i: usize = 0;
            while i < names.len()
                invariant
                    i <= names@.len(),
                    names@.len() == members@.len(),
                    *value == Json::Object(*members),
                    views == member_views(members@),
                    texts(names@) == sorted,
                    forall|j: int|
                        0 <= j < views.len() ==> member_index(views, #[trigger] sorted[j]) is Some,
                    parts@.len() == i,
                    forall|j: int|
                        0 <= j < i ==> #[trigger] parts@[j]@ == stable_member(views, sorted[j]),
                decreases names@.len() - i,
            {
                assert(sorted[i as int] == names@[i as int]@);
                let key = Json::text(names[i].as_str());
                let mut part = json_to_string(&key);
                part.append(":");
                match find_member(members, names[i].as_str()) {
                    Some(k) => {
                        proof {
                            lemma_parts_are_smaller(*value, k as int);
                        }
                        let text = stable_json(&members[k].1);
                        part.append(text.as_str());
                    },
                    None => {},
                }
                parts.push(part);
                i += 1;
            }
            assert(texts(parts@) =~= Seq::new(
                views.len(),
                |j: int| stable_member(views, sorted[j]),
            ));
            let mut s = "{".to_owned();
            let body = join_strings(&parts, ",");
            s.append(body.as_str());
            s.append("}");
            s
        },
        Json::Array(items) => {
            let ghost views = json_views(items@);
            let mut parts: Vec<String> = Vec::new();
            let mut i: usize = 0;
            while i < items.len()
                invariant
                    i <= items@.len(),
                    *value == Json::Array(*items),
                    views == json_views(items@),
                    parts@.len() == i,
                    forall|j: int| 0 <= j < i ==> #[trigger] parts@[j]@ == stable_text(views[j]),
                decreases items@.len() - i,
            {
                proof {
                    lemma_parts_are_smaller(*value, i as int);
                }
                let text = stable_json(&items[i]);
                parts.push(text);
                i += 1;
            }
            assert(texts(parts@) =~= Seq::new(views.len(), |j: int| stable_text(views[j])));
            let mut s = "[".to_owned();
            let body = join_strings(&parts, ",");
            s.append(body.as_str());
            s.append("]");
            s
        },
        other => json_to_string(other),
    }
}

/// What makes two tool calls the same: their name and their arguments.
pub open spec fn call_fingerprint(c: ToolCallView) -> Seq<char> {
    c.name + "::"@ + stable_text(c.arguments)
}

pub fn fingerprint_tool_call(tool_call: &ToolCall) -> (s: String)
    ensures
        s@ == call_fingerprint(tool_call@),
{
    let mut s = tool_call.name.clone();
    s.append("::");
    let arguments = stable_json(&tool_call.arguments);
    s.append(arguments.as_str());
    s
}

pub open spec fn fingerprints(calls: Seq<ToolCallView>) -> Seq<Seq<char>> {
    Seq::new(calls.len(), |i: int| call_fingerprint(calls[i]))
}

/// What makes two rounds the same: the fingerprints of their calls, in any order.
pub open spec fn round_signature(calls: Seq<ToolCallView>) -> Seq<char> {
    signature_of(fingerprints(calls))
}

/// The signature of a round whose calls have these fingerprints.
pub open spec fn signature_of(prints: Seq<Seq<char>>) -> Seq<char> {
    joined(sorted_texts(prints), "|"@)
}

/// A value of an environment variable that switches something on.
pub open spec fn truthy(value: Option<Seq<char>>) -> bool {
    match value {
        Some(v) => {
            let s = lower_text(trimmed(v));
            s == "1"@ || s == "true"@ || s == "yes"@ || s == "on"@
        },
        None => false,
    }
}

pub open spec fn opt_str(o: Option<&str>) -> Option<Seq<char>> {
    match o {
        Some(s) => Some(s@),
        None => None,
    }
}

pub fn is_truthy_env(value: Option<&str>) -> (b: bool)
    ensures
        b == truthy(opt_str(value)),
{
    match value {
        Some(v) => {
            let t = trim_string(v);
            let s = lower_string(t.as_str());
            same_text(s.as_str(), "1") || same_text(s.as_str(), "true") || same_text(
                s.as_str(),
                "yes",
            ) || same_text(s.as_str(), "on")
        },
        None => false,
    }
}

/// Whether a guard is on: an explicit choice wins over the environment.
pub open spec fn switched_on(explicit: Option<bool>, env_value: Option<Seq<char>>) -> bool {
    match explicit {
        Some(e) => e,
        None => truthy(env_value),
    }
}

pub fn guard_enabled(explicit: Option<bool>, env_value: Option<&str>) -> (b: bool)
    ensures
        b == switched_on(explicit, opt_str(env_value)),
{
    match explicit {
        Some(e) => e,
        None => is_truthy_env(env_value),
    }
}

#[derive(Debug, Clone)]
pub struct ToolLoopDetectorOptions {
    pub enabled: Option<bool>,
    pub threshold: usize,
}

impl Default for ToolLoopDetectorOptions {
    fn default() -> (o: Self)
        ensures
            o.enabled is None,
            o.threshold == 4,
    {
        ToolLoopDetectorOptions { enabled: None, threshold: DEFAULT_TOOL_LOOP_THRESHOLD }
    }
}

#[derive(Debug)]
pub struct ToolLoopDetector {
    enabled: bool,
    threshold: usize,
    last_signature: Option<String>,
    streak: usize,
}

/// What a detector has seen: the signature of the last round with tool calls, and
/// how many such rounds in a row had it.
pub struct DetectorView {
    pub enabled: bool,
    pub threshold: nat,
    pub last_signature: Option<Seq<char>>,
    pub streak: nat,
}

impl View for ToolLoopDetector {
    type V = DetectorView;

    closed spec fn view(&self) -> DetectorView {
        DetectorView {
            enabled: self.enabled,
            threshold: self.threshold as nat,
            last_signature: crate::text::opt_text(self.last_signature),
            streak: self.streak as nat,
        }
    }
}

/// The detector after a round with the calls `calls`. A round without calls
/// changes nothing.
pub open spec fn observed(d: DetectorView, calls: Seq<ToolCallView>) -> DetectorView {
    observed_prints(d, fingerprints(calls))
}

/// The detector after a round whose calls have the fingerprints `prints`.
pub open spec fn observed_prints(d: DetectorView, prints: Seq<Seq<char>>) -> DetectorView {
    if !d.enabled || prints.len() == 0 {
        d
    } else if d.last_signature == Some(signature_of(prints)) {
        DetectorView { streak: d.streak + 1, ..d }
    } else {
        DetectorView { last_signature: Some(signature_of(prints)), streak: 1, ..d }
    }
}

pub open spec fn looping(d: DetectorView) -> bool {
    d.enabled && d.streak >= d.threshold
}

impl Default for ToolLoopDetector {
    /// A detector that is off.
    fn default() -> (d: Self)
        ensures
            d@ == (DetectorView { enabled: false, threshold: 0, last_signature: None, streak: 0 }),
    {
        ToolLoopDetector { enabled: false, threshold: 0, last_signature: None, streak: 0 }
    }
}

impl ToolLoopDetector {
    /// A detector that has seen nothing. Where the options do not say whether it is on,
    /// the environment does: `env_value` is the value of the variable
    /// [`TOOL_LOOP_DETECTOR_VARIABLE`], where it is set.
    pub fn new(options: ToolLoopDetectorOptions, env_value: Option<&str>) -> (d: Self)
        ensures
            d@ == (DetectorView {
                enabled: switched_on(options.enabled, opt_str(env_value)),
                threshold: if options.threshold < 2 {
                    2
                } else {
                    options.threshold as nat
                },
                last_signature: None,
                streak: 0,
            }),
    {
        ToolLoopDetector {
            enabled: guard_enabled(options.enabled, env_value),
            threshold: if options.threshold < 2 {
                2
            } else {
                options.threshold
            },
            last_signature: None,
            streak: 0,
        }
    }

    /// Takes note of the tool calls of one round.
    pub fn observe(&mut self, tool_calls: &[ToolCall])
        requires
            old(self)@.enabled ==> old(self)@.streak < usize::MAX,
        ensures
            final(self)@ == observed(old(self)@, call_views(tool_calls@)),
    {
        if !self.enabled {
            return;
        }
        if tool_calls.len() == 0 {
            return;
        }
        let ghost calls = call_views(tool_calls@);
        let mut prints: Vec<String> = Vec::new();
        let mut i: usize = 0;
        while i < tool_calls.len()
            invariant
                i <= tool_calls@.len(),
                calls == call_views(tool_calls@),
                prints@.len() == i,
                forall|j: int| 0 <= j < i ==> #[trigger] prints@[j]@ == call_fingerprint(calls[j]),
            decreases tool_calls@.len() - i,
        {
            prints.push(fingerprint_tool_call(&tool_calls[i]));
            i += 1;
        }
        assert(texts(prints@) =~= fingerprints(calls));
        self.observe_fingerprints(prints);
    }

    /// Takes note of a round whose calls have these fingerprints.
    pub fn observe_fingerprints(&mut self, prints: Vec<String>)
        requires
            observed_prints(old(self)@, texts(prints@)).streak <= usize::MAX,
        ensures
            final(self)@ == observed_prints(old(self)@, texts(prints@)),
    {
        if !self.enabled || prints.len() == 0 {
            return;
        }
        let sorted = sort_strings(prints);
        let signature = join_strings(&sorted, "|");
        let same = match &self.last_signature {
            Some(last) => same_text(last.as_str(), signature.as_str()),
            None => false,
        };
        if same {
            self.streak = self.streak + 1;
        } else {
            self.last_signature = Some(signature);
            self.streak = 1;
        }
    }

    pub fn is_looping(&self) -> (b: bool)
        ensures
            b == looping(self@),
    {
        self.enabled && self.streak >= self.threshold
    }

    pub fn consecutive_count(&self) -> (n: usize)
        ensures
            n == self@.streak,
    {
        self.streak
    }

    pub fn current_signature(&self) -> (s: Option<&str>)
        ensures
            match s {
                Some(t) => self@.last_signature == Some(t@),
                None => self@.last_signature is None,
            },
    {
        match &self.last_signature {
            Some(s) => Some(s.as_str()),
            None => None,
        }
    }

    pub fn reset(&mut self)
        ensures
            final(self)@ == (DetectorView { last_signature: None, streak: 0, ..old(self)@ }),
    {
        self.last_signature = None;
        self.streak = 0;
    }
}

/// The value has one text, but for the order of members: each object has each name once,
/// and no number is the negative zero, which is written otherwise than the zero that it
/// equals.
pub open spec fn plainly_written(v: JsonView) -> bool
    decreases v,
{
    match v {
        JsonView::Number(JsonNumber::Other(_)) => json_written(v) != "-0.0"@,
        JsonView::Array(items) => forall|i: int|
            0 <= i < items.len() ==> plainly_written(#[trigger] items[i]),
        JsonView::Object(members) => member_names(members).no_duplicates() && forall|i: int|
            0 <= i < members.len() ==> plainly_written((#[trigger] members[i]).1),
        _ => true,
    }
}

/// Two calls ask for the same: the same tool with the same arguments, whatever the ids
/// of the calls and the order of members in the arguments.
pub open spec fn same_call(a: ToolCallView, b: ToolCallView) -> bool {
    &&& a.name == b.name
    &&& same_value(a.arguments, b.arguments)
    &&& plainly_written(a.arguments)
    &&& plainly_written(b.arguments)
}

/// `places` gives each place below its length once.
pub open spec fn is_reordering(places: Seq<int>) -> bool {
    &&& places.no_duplicates()
    &&& forall|i: int|
        0 <= i < places.len() ==> 0 <= #[trigger] places[i] < places.len()
}

/// The signature of a round depends neither on the order of its calls nor on their ids,
/// nor on the order of members in their arguments. `places` says where in `b` each call
/// of `a` stands.
pub proof fn law_signature_ignores_call_order(
    a: Seq<ToolCallView>,
    b: Seq<ToolCallView>,
    places: Seq<int>,
)
    requires
        a.len() == b.len() == places.len(),
        is_reordering(places),
        forall|i: int| 0 <= i < a.len() ==> same_call(#[trigger] a[i], b[places[i]]),
    ensures
        round_signature(a) == round_signature(b),
{
    assert forall|i: int| 0 <= i < a.len() implies #[trigger] fingerprints(a)[i] == fingerprints(
        b,
    )[places[i]] by {
        law_stable_text_ignores_member_order(a[i].arguments, b[places[i]].arguments);
    }
    lemma_reordered(fingerprints(a), fingerprints(b), places);
    lemma_sorted_texts_of_permutation(fingerprints(a), fingerprints(b));
}

/// A sequence holds what it held before it was reordered.
proof fn lemma_reordered(s: Seq<Seq<char>>, t: Seq<Seq<char>>, places: Seq<int>)
    requires
        s.len() == t.len() == places.len(),
        is_reordering(places),
        forall|i: int| 0 <= i < s.len() ==> #[trigger] s[i] == t[places[i]],
    ensures
        s.to_multiset() == t.to_multiset(),
    decreases s.len(),
{
    if s.len() == 0 {
        assert(s =~= t);
    } else {
        let n = s.len() - 1;
        let k = places[n];
        let rest = Seq::new(
            n as nat,
            |i: int|
                if places[i] > k {
                    places[i] - 1
                } else {
                    places[i]
                },
        );
        assert forall|i: int, j: int| 0 <= i < j < n implies rest[i] != rest[j] by {
            assert(places[i] != places[j]);
            assert(places[i] != places[n]);
            assert(places[j] != places[n]);
        }
        assert forall|i: int| 0 <= i < n implies 0 <= #[trigger] rest[i] < n && s.drop_last()[i]
            == t.remove(k)[rest[i]] by {
            assert(places[i] != places[n]);
            assert(0 <= places[i] <= n);
            assert(s[i] == t[places[i]]);
        }
        lemma_reordered(s.drop_last(), t.remove(k), rest);
        assert(s =~= s.drop_last().push(s[n]));
        assert(t =~= t.remove(k).insert(k, t[k]));
        vstd::seq_lib::to_multiset_build(s.drop_last(), s[n]);
        vstd::seq_lib::to_multiset_insert(t.remove(k), k, t[k]);
    }
}

/// The text of a value does not depend on the order of members, at any depth.
pub proof fn law_stable_text_ignores_member_order(a: JsonView, b: JsonView)
    requires
        same_value(a, b),
        plainly_written(a),
        plainly_written(b),
    ensures
        stable_text(a) == stable_text(b),
    decreases a,
{
    lemma_stable_text(a);
    lemma_stable_text(b);
    match (a, b) {
        (JsonView::Object(x), JsonView::Object(y)) => {
            lemma_same_names(x, y);
            lemma_sorted_texts_of_permutation(member_names(x), member_names(y));
            lemma_sorted_texts(member_names(x));
            let names = sorted_texts(member_names(x));
            assert forall|i: int| 0 <= i < x.len() implies stable_member(x, #[trigger] names[i])
                == stable_member(y, names[i]) by {
                let name = names[i];
                assert(sorted_texts(member_names(y))[i] == name);
                lemma_member_index(x, name);
                lemma_member_index(y, name);
                let j = member_index(x, name)->0;
                let k = member_index(y, name)->0;
                assert(counts(x, j));
                assert(same_value(x[j].1, y[k].1));
                law_stable_text_ignores_member_order(x[j].1, y[k].1);
            }
            assert(Seq::new(x.len(), |i: int| stable_member(x, names[i])) =~= Seq::new(
                y.len(),
                |i: int| stable_member(y, sorted_texts(member_names(y))[i]),
            ));
        },
        (JsonView::Array(x), JsonView::Array(y)) => {
            assert forall|i: int| 0 <= i < x.len() implies stable_text(#[trigger] x[i])
                == stable_text(y[i]) by {
                law_stable_text_ignores_member_order(x[i], y[i]);
            }
            assert(Seq::new(x.len(), |i: int| stable_text(x[i])) =~= Seq::new(
                y.len(),
                |i: int| stable_text(y[i]),
            ));
        },
        _ => {},
    }
}

/// Objects with the same names, each once, have as many of them.
proof fn lemma_same_names(x: Seq<(Seq<char>, JsonView)>, y: Seq<(Seq<char>, JsonView)>)
    requires
        names_within(x, y),
        names_within(y, x),
        member_names(x).no_duplicates(),
        member_names(y).no_duplicates(),
    ensures
        member_names(x).to_multiset() == member_names(y).to_multiset(),
        x.len() == y.len(),
{
    let m = member_names(x);
    let n = member_names(y);
    m.lemma_multiset_has_no_duplicates();
    n.lemma_multiset_has_no_duplicates();
    m.to_multiset_ensures();
    n.to_multiset_ensures();
    assert forall|name: Seq<char>| m.contains(name) <==> #[trigger] n.contains(name) by {
        lemma_member_index(x, name);
        lemma_member_index(y, name);
        if m.contains(name) {
            let i = choose|i: int| 0 <= i < m.len() && m[i] == name;
            assert(x[i].0 == name);
            assert(n[member_index(y, name)->0] == name);
        }
        if n.contains(name) {
            let i = choose|i: int| 0 <= i < n.len() && n[i] == name;
            assert(y[i].0 == name);
            assert(m[member_index(x, name)->0] == name);
        }
    }
    assert forall|name: Seq<char>|
        m.to_multiset().count(name) == #[trigger] n.to_multiset().count(name) by {
        assert(m.contains(name) <==> n.contains(name));
    }
    assert(m.to_multiset() =~= n.to_multiset());
    assert(m.len() == n.len());
}

/// As long as every round with calls asks for the same calls, the detector counts
/// those rounds, whatever rounds without calls lie between.
pub proof fn law_empty_rounds_neither_extend_nor_reset(d: DetectorView, calls: Seq<ToolCallView>)
    requires
        d.enabled,
        calls.len() > 0,
        d.last_signature == Some(round_signature(calls)),
    ensures
        observed(d, Seq::empty()) == d,
        observed(observed(d, Seq::empty()), calls).streak == d.streak + 1,
{
}

/// Other calls begin a new streak.
pub proof fn law_other_calls_begin_anew(d: DetectorView, calls: Seq<ToolCallView>)
    requires
        d.enabled,
        calls.len() > 0,
        d.last_signature != Some(round_signature(calls)),
        d.threshold >= 2,
    ensures
        observed(d, calls).streak == 1,
        !looping(observed(d, calls)),
{
}

/// The detector after `n` rounds with the same calls.
pub open spec fn observed_times(d: DetectorView, calls: Seq<ToolCallView>, n: nat) -> DetectorView
    decreases n,
{
    if n == 0 {
        d
    } else {
        observed(observed_times(d, calls, (n - 1) as nat), calls)
    }
}

/// A detector that is on reports a loop exactly when the same calls have come as often in a
/// row as its threshold says; one that is off never does.
pub proof fn law_a_loop_is_reported_at_the_threshold(
    d: DetectorView,
    calls: Seq<ToolCallView>,
    n: nat,
)
    requires
        calls.len() > 0,
        d.last_signature is None,
        d.streak == 0,
        n > 0,
    ensures
        d.enabled ==> observed_times(d, calls, n).streak == n,
        d.enabled ==> (looping(observed_times(d, calls, n)) <==> n >= d.threshold),
        !d.enabled ==> !looping(observed_times(d, calls, n)),
        observed_times(d, calls, n).threshold == d.threshold,
        observed_times(d, calls, n).enabled == d.enabled,
        d.enabled ==> observed_times(d, calls, n).last_signature == Some(round_signature(calls)),
    decreases n,
{
    reveal_with_fuel(observed_times, 2);
    assert(fingerprints(calls).len() > 0);
    if n > 1 {
        law_a_loop_is_reported_at_the_threshold(d, calls, (n - 1) as nat);
    } else {
        assert(observed_times(d, calls, 0) == d);
    }
}

/// Two calls of one tool have the same fingerprint only if their arguments have the same
/// text, and a fingerprint begins with the name of the tool.
pub proof fn law_a_fingerprint_tells_name_and_arguments(a: ToolCallView, b: ToolCallView)
    ensures
        a.name.is_prefix_of(call_fingerprint(a)),
        a.name == b.name ==> (call_fingerprint(a) == call_fingerprint(b) <==> stable_text(
            a.arguments,
        ) == stable_text(b.arguments)),
        stable_text(a.arguments).is_suffix_of(call_fingerprint(a)),
{
    let f = call_fingerprint(a);
    let g = call_fingerprint(b);
    let n = a.name.len() + "::"@.len();
    assert(f.subrange(0, a.name.len() as int) =~= a.name);
    assert(f.skip(n as int) =~= stable_text(a.arguments));
    assert(f.subrange(f.len() - stable_text(a.arguments).len(), f.len() as int) =~= stable_text(
        a.arguments,
    ));
    if a.name == b.name {
        assert(g.skip(n as int) =~= stable_text(b.arguments));
    }
}

/// The signature of a round with one call is the fingerprint of that call.
pub proof fn law_the_signature_of_one_call(c: ToolCallView)
    ensures
        round_signature(seq![c]) == call_fingerprint(c),
{
    let prints = fingerprints(seq![c]);
    lemma_sorted_texts(prints);
    let sorted = sorted_texts(prints);
    assert(prints.contains(prints[0]));
    assert(sorted.contains(prints[0]));
    assert(sorted =~= seq![call_fingerprint(c)]);
}

/// The text of a value shows all of it: a value without parts as it is written, an array
/// item by item, and an object whose names ascend member by member.
pub proof fn law_a_stable_text_shows_the_value(
    v: JsonView,
    items: Seq<JsonView>,
    members: Seq<(Seq<char>, JsonView)>,
)
    ensures
        !(v is Array) && !(v is Object) ==> stable_text(v) == json_written(v),
        stable_text(JsonView::Array(items)) == "["@ + joined(
            Seq::new(items.len(), |i: int| stable_text(items[i])),
            ","@,
        ) + "]"@,
        sorted_texts(member_names(members)) == member_names(members) && member_names(
            members,
        ).no_duplicates() ==> stable_text(JsonView::Object(members)) == "{"@ + joined(
            Seq::new(
                members.len(),
                |i: int|
                    json_written(JsonView::String(members[i].0)) + ":"@ + stable_text(members[i].1),
            ),
            ","@,
        ) + "}"@,
{
    lemma_stable_text(v);
    lemma_stable_text(JsonView::Array(items));
    lemma_stable_text(JsonView::Object(members));
    let names = member_names(members);
    if sorted_texts(names) == names && names.no_duplicates() {
        assert forall|i: int| 0 <= i < members.len() implies stable_member(members, #[trigger] names[i])
            == json_written(JsonView::String(members[i].0)) + ":"@ + stable_text(members[i].1) by {
            lemma_member_index(members, names[i]);
            let k = member_index(members, names[i])->0;
            assert(names[k] == names[i]);
        }
        assert(Seq::new(members.len(), |i: int| stable_member(members, sorted_texts(names)[i]))
            =~= Seq::new(
            members.len(),
            |i: int|
                json_written(JsonView::String(members[i].0)) + ":"@ + stable_text(members[i].1),
        ));
    }
}

/// A guard is on if that is chosen, or if nothing is chosen and the environment says so, by
/// one of four words in whatever letters and with whatever white space around.
pub proof fn law_what_switches_a_guard_on(choice: bool, value: Seq<char>, env: Option<Seq<char>>)
    ensures
        switched_on(Some(choice), env) == choice,
        !switched_on(None, None),
        switched_on(None, Some(value)) <==> {
            let word = lower_text(trimmed(value));
            word == "1"@ || word == "true"@ || word == "yes"@ || word == "on"@
        },
{
}

} // verus!
