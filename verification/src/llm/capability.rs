//! What models can do, by a list of known models.
use vstd::prelude::*;

use crate::str_map::{lemma_pairs_map, StrMap};
use crate::text::{
    chars_of, lower_string, lower_text, same_text, text_occurs_at, trim_string, trimmed,
};

verus! {

/// One entry of the list of known models.
#[derive(Debug)]
pub struct KnownModel {
    pub key: String,
    pub attachment: Option<bool>,
    pub input_modalities: Vec<String>,
}

/// The model accepts images: it takes attachments, or names images among its inputs.
pub open spec fn accepts_images(m: KnownModel) -> bool {
    m.attachment == Some(true) || exists|i: int|
        0 <= i < m.input_modalities@.len() && lower_text(#[trigger] m.input_modalities@[i]@)
            == "image"@
}

fn known_model_accepts_images(m: &KnownModel) -> (b: bool)
    ensures
        b == accepts_images(*m),
{
    if let Some(true) = m.attachment {
        return true;
    }
    let mut i: usize = 0;
    while i < m.input_modalities.len()
        invariant
            i <= m.input_modalities@.len(),
            m.attachment != Some(true),
            forall|j: int|
                0 <= j < i ==> lower_text(#[trigger] m.input_modalities@[j]@) != "image"@,
        decreases m.input_modalities@.len() - i,
    {
        let lower = lower_string(m.input_modalities[i].as_str());
        if same_text(lower.as_str(), "image") {
            return true;
        }
        i += 1;
    }
    false
}

/// Some entry is about the model `key`, in any case of letters.
pub open spec fn lists_model(models: Seq<KnownModel>, key: Seq<char>) -> bool {
    exists|i: int| 0 <= i < models.len() && lower_text((#[trigger] models[i]).key@) == key
}

/// Some entry about the model says that it accepts images.
pub open spec fn lists_vision(models: Seq<KnownModel>, key: Seq<char>) -> bool {
    exists|i: int|
        0 <= i < models.len() && lower_text((#[trigger] models[i]).key@) == key && accepts_images(
            models[i],
        )
}

/// Says of known models whether they accept images.
#[derive(Debug)]
pub struct ModelsDevRegistry {
    index: StrMap<bool>,
}

impl View for ModelsDevRegistry {
    type V = Map<Seq<char>, bool>;

    closed spec fn view(&self) -> Map<Seq<char>, bool> {
        self.index@
    }
}

/// `v` is what the longest known name with which `id` begins says.
pub open spec fn longest_prefix_says(
    index: Map<Seq<char>, bool>,
    id: Seq<char>,
    key: Seq<char>,
) -> bool {
    &&& index.contains_key(key)
    &&& key.is_prefix_of(id)
    &&& forall|k: Seq<char>|
        #[trigger] index.contains_key(k) && k.is_prefix_of(id) ==> k.len() <= key.len()
}

/// The name under which a model is looked up.
pub open spec fn lookup_id(model_id: Seq<char>) -> Seq<char> {
    lower_text(trimmed(model_id))
}

impl ModelsDevRegistry {
    /// The registry of the models of a list. Of several entries about one model, one
    /// that accepts images is enough.
    pub fn from_models(models: &Vec<KnownModel>) -> (r: Self)
        ensures
            forall|k: Seq<char>| #[trigger] r@.contains_key(k) <==> lists_model(models@, k),
            forall|k: Seq<char>| r@.contains_key(k) ==> #[trigger] r@[k] == lists_vision(models@, k),
    {
        let mut index: StrMap<bool> = StrMap::new();
        let mut i: usize = 0;
        while i < models.len()
            invariant
                i <= models@.len(),
                forall|k: Seq<char>|
                    #[trigger] index@.contains_key(k) <==> lists_model(models@.take(i as int), k),
                forall|k: Seq<char>|
                    index@.contains_key(k) ==> #[trigger] index@[k] == lists_vision(
                        models@.take(i as int),
                        k,
                    ),
            decreases models@.len() - i,
        {
            let vision = known_model_accepts_images(&models[i]);
            let key = lower_string(models[i].key.as_str());
            let ghost before = index@;
            let kept = match index.get(key.as_str()) {
                Some(existing) => *existing || !vision,
                None => false,
            };
            if !kept {
                index.insert(key.as_str(), vision);
            }
            proof {
                let a = models@.take(i as int);
                let b = models@.take(i + 1);
                assert(b =~= a.push(models@[i as int]));
                assert forall|k: Seq<char>|
                    lists_model(b, k) <==> lists_model(a, k) || k == key@ by {
                    if lists_model(a, k) {
                        let j = choose|j: int|
                            0 <= j < a.len() && lower_text((#[trigger] a[j]).key@) == k;
                        assert(b[j] == a[j]);
                    }
                    if k == key@ {
                        assert(lower_text(b[i as int].key@) == k);
                    }
                    if lists_model(b, k) {
                        let j = choose|j: int|
                            0 <= j < b.len() && lower_text((#[trigger] b[j]).key@) == k;
                        if j < i {
                            assert(a[j] == b[j]);
                        }
                    }
                }
                assert forall|k: Seq<char>|
                    lists_vision(b, k) <==> lists_vision(a, k) || (k == key@ && vision) by {
                    if lists_vision(a, k) {
                        let j = choose|j: int|
                            0 <= j < a.len() && lower_text((#[trigger] a[j]).key@) == k
                                && accepts_images(a[j]);
                        assert(b[j] == a[j]);
                    }
                    if k == key@ && vision {
                        assert(lower_text(b[i as int].key@) == k);
                    }
                    if lists_vision(b, k) {
                        let j = choose|j: int|
                            0 <= j < b.len() && lower_text((#[trigger] b[j]).key@) == k
                                && accepts_images(b[j]);
                        if j < i {
                            assert(a[j] == b[j]);
                        }
                    }
                }
                assert forall|k: Seq<char>| !before.contains_key(k) implies !lists_vision(a, k) by {
                    if lists_vision(a, k) {
                        let j = choose|j: int|
                            0 <= j < a.len() && lower_text((#[trigger] a[j]).key@) == k
                                && accepts_images(a[j]);
                        assert(lists_model(a, k));
                    }
                }
            }
            i += 1;
        }
        assert(models@.take(i as int) =~= models@);
        ModelsDevRegistry { index }
    }

    /// Whether the model accepts images, where the registry knows: by the longest
    /// known name with which the name of the model begins.
    pub fn vision_for(&self, model_id: &str) -> (r: Option<bool>)
        ensures
            match r {
                Some(v) => lookup_id(model_id@).len() > 0 && exists|key: Seq<char>|
                    #[trigger] longest_prefix_says(self@, lookup_id(model_id@), key) && self@[key]
                        == v,
                None => lookup_id(model_id@).len() == 0 || forall|key: Seq<char>|
                    #[trigger] self@.contains_key(key) ==> !key.is_prefix_of(lookup_id(model_id@)),
            },
    {
        let id_trimmed = trim_string(model_id);
        let id_string = lower_string(id_trimmed.as_str());
        if id_string.as_str().is_empty() {
            return None;
        }
        let id = chars_of(id_string.as_str());
        let entries = self.index.entries();
        let ghost pairs = entries@;
        proof {
            lemma_pairs_map(pairs);
        }
        let mut best: Option<usize> = None;
        let mut best_len: usize = 0;
        let mut i: usize = 0;
        while i < entries.len()
            invariant
                i <= entries@.len(),
                pairs == entries@,
                id@ == lookup_id(model_id@),
                match best {
                    Some(b) => b < i && pairs[b as int].0@.is_prefix_of(id@) && best_len
                        == pairs[b as int].0@.len() && forall|j: int|
                        0 <= j < i && (#[trigger] pairs[j]).0@.is_prefix_of(id@)
                            ==> pairs[j].0@.len() <= best_len,
                    None => forall|j: int|
                        0 <= j < i ==> !(#[trigger] pairs[j]).0@.is_prefix_of(id@),
                },
            decreases entries@.len() - i,
        {
            let key = chars_of(entries[i].0.as_str());
            assert(key@ == pairs[i as int].0@);
            let is_prefix = text_occurs_at(&id, &key, 0);
            assert(is_prefix == key@.is_prefix_of(id@));
            if is_prefix {
                let better = match best {
                    Some(_) => best_len < key.len(),
                    None => true,
                };
                if better {
                    best = Some(i);
                    best_len = key.len();
                }
            }
            i += 1;
        }
        match best {
            Some(b) => {
                proof {
                    let key = pairs[b as int].0@;
                    assert forall|k: Seq<char>|
                        #[trigger] self@.contains_key(k) && k.is_prefix_of(id@) implies k.len()
                        <= key.len() by {
                        let j = choose|j: int|
                            0 <= j < pairs.len() && (#[trigger] pairs[j]).0@ == k;
                        assert(pairs[j].0@.is_prefix_of(id@));
                    }
                    assert(longest_prefix_says(self@, lookup_id(model_id@), key));
                }
                Some(entries[b].1)
            },
            None => {
                proof {
                    assert forall|k: Seq<char>| #[trigger] self@.contains_key(k) implies
                        !k.is_prefix_of(id@) by {
                        let j = choose|j: int|
                            0 <= j < pairs.len() && (#[trigger] pairs[j]).0@ == k;
                        assert(!pairs[j].0@.is_prefix_of(id@));
                    }
                }
                None
            },
        }
    }
}

/// The longest known name with which a name begins is one name, so what the
/// registry says does not depend on how it is searched; a name that is itself
/// known speaks for itself.
pub proof fn law_longest_prefix_is_unique(
    index: Map<Seq<char>, bool>,
    id: Seq<char>,
    a: Seq<char>,
    b: Seq<char>,
)
    requires
        longest_prefix_says(index, id, a),
        longest_prefix_says(index, id, b),
    ensures
        a == b,
        index.contains_key(id) ==> a == id,
{
    assert(index.contains_key(a) && index.contains_key(b));
    assert(a.len() == b.len());
    assert(a =~= id.subrange(0, a.len() as int));
    assert(b =~= id.subrange(0, b.len() as int));
    if index.contains_key(id) {
        assert(id.subrange(0, id.len() as int) =~= id);
        assert(id.is_prefix_of(id));
        assert(a.len() == id.len());
    }
}

/// A model is looked up under its name, whatever the case of its letters and the white space
/// around it; what it can do is what the longest known name with which it begins says.
pub proof fn law_how_a_model_is_looked_up(
    index: Map<Seq<char>, bool>,
    model_id: Seq<char>,
    key: Seq<char>,
    other: Seq<char>,
)
    ensures
        lookup_id(model_id).len() == trimmed(model_id).len(),
        lookup_id(model_id) == lower_text(trimmed(model_id)),
        longest_prefix_says(index, model_id, key) && index.contains_key(other)
            && other.is_prefix_of(model_id) ==> other.len() <= key.len(),
        longest_prefix_says(index, model_id, key) ==> index.contains_key(key)
            && key.is_prefix_of(model_id),
{
}

} // verus!
