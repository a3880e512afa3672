//! YAML documents as trees.
use vstd::prelude::*;

use crate::text::str_eq;

verus! {

/// A YAML value. Numbers and tags are carried as `serde_yaml` holds them.
#[derive(Debug)]
pub enum YamlValue {
    Null,
    Bool(bool),
    Number(serde_yaml::Number),
    Str(String),
    Sequence(Vec<YamlValue>),
    Mapping(Vec<(YamlValue, YamlValue)>),
    Tagged(serde_yaml::value::Tag, Box<YamlValue>),
}

/// A value of `serde_yaml`.
#[verifier::external_type_specification]
#[verifier::external_body]
pub struct ExYaml(serde_yaml::Value);

/// A number of `serde_yaml`.
#[verifier::external_type_specification]
#[verifier::external_body]
pub struct ExNumber(serde_yaml::Number);

/// A tag of `serde_yaml`.
#[verifier::external_type_specification]
#[verifier::external_body]
pub struct ExTag(serde_yaml::value::Tag);

/// The tree that a `serde_yaml::Value` holds.
pub uninterp spec fn yaml_tree(v: serde_yaml::Value) -> YamlValue;

/// The `serde_yaml::Value` that a tree becomes.
pub uninterp spec fn yaml_value(tree: YamlValue) -> serde_yaml::Value;

/// The JSON that `serde_json::to_string` writes for a `serde_yaml::Value`, or the
/// error's message.
pub uninterp spec fn value_json(v: serde_yaml::Value) -> Result<Seq<char>, Seq<char>>;

/// What `serde_yaml::from_str` reads from a text: the tree, or the error's
/// message.
pub uninterp spec fn yaml_document(text: Seq<char>) -> Result<YamlValue, Seq<char>>;

/// `serde_yaml::from_str`: the document that the text writes, or the message of
/// the error for a text that writes none. Which, depends on the text alone.
#[verifier::external_body]
fn read_document(text: &str) -> (r: Result<serde_yaml::Value, String>)
    ensures
        r is Ok <==> yaml_document(text@) is Ok,
        r is Ok ==> yaml_tree(r->Ok_0) == yaml_document(text@)->Ok_0,
        r is Err ==> r->Err_0@ == yaml_document(text@)->Err_0,
{
    serde_yaml::from_str(text).map_err(|e| e.to_string())
}

/// The variants of `serde_yaml::Value`, one for one; a mapping's pairs and a
/// sequence's items in the order in which `serde_yaml` holds them.
#[verifier::external_body]
fn to_tree(v: serde_yaml::Value) -> (r: YamlValue)
    ensures
        r == yaml_tree(v),
{
    match v {
        serde_yaml::Value::Null => YamlValue::Null,
        serde_yaml::Value::Bool(b) => YamlValue::Bool(b),
        serde_yaml::Value::Number(n) => YamlValue::Number(n),
        serde_yaml::Value::String(s) => YamlValue::Str(s),
        serde_yaml::Value::Sequence(q) => {
            YamlValue::Sequence(q.into_iter().map(to_tree).collect())
        },
        serde_yaml::Value::Mapping(m) => {
            YamlValue::Mapping(m.into_iter().map(|(k, x)| (to_tree(k), to_tree(x))).collect())
        },
        serde_yaml::Value::Tagged(t) => YamlValue::Tagged(t.tag, Box::new(to_tree(t.value))),
    }
}

/// The way back into `serde_yaml::Value`, variant for variant. A mapping is filled
/// pair by pair, so that of two equal keys the later value stays. The keys of a
/// mapping of `serde_yaml` differ and come in their order, so a tree that a value
/// holds leads back to that value.
#[verifier::external_body]
fn to_value(v: &YamlValue) -> (r: serde_yaml::Value)
    ensures
        r == yaml_value(*v),
        forall|w: serde_yaml::Value| #[trigger] yaml_tree(w) == *v ==> r == w,
{
    match v {
        YamlValue::Null => serde_yaml::Value::Null,
        YamlValue::Bool(b) => serde_yaml::Value::Bool(*b),
        YamlValue::Number(n) => serde_yaml::Value::Number(n.clone()),
        YamlValue::Str(s) => serde_yaml::Value::String(s.clone()),
        YamlValue::Sequence(q) => serde_yaml::Value::Sequence(q.iter().map(to_value).collect()),
        YamlValue::Mapping(m) => serde_yaml::Value::Mapping(
            m.iter().map(|(k, x)| (to_value(k), to_value(x))).collect(),
        ),
        YamlValue::Tagged(t, x) => serde_yaml::Value::Tagged(
            Box::new(serde_yaml::value::TaggedValue { tag: t.clone(), value: to_value(x) }),
        ),
    }
}

/// `serde_json::to_string` of a `serde_yaml::Value`: its JSON, or the message of
/// the error for one that has none. Which, depends on the value alone.
#[verifier::external_body]
fn write_json(v: &serde_yaml::Value) -> (r: Result<String, String>)
    ensures
        match r {
            Ok(t) => value_json(*v) == Ok::<Seq<char>, Seq<char>>(t@),
            Err(e) => value_json(*v) == Err::<Seq<char>, Seq<char>>(e@),
        },
{
    serde_json::to_string(v).map_err(|e| e.to_string())
}

/// The JSON of a tree, or the message of the error.
pub open spec fn tree_json(tree: YamlValue) -> Result<Seq<char>, Seq<char>> {
    value_json(yaml_value(tree))
}

/// The tree that `text` writes, or the message of the error.
pub fn read_yaml(text: &str) -> (r: Result<YamlValue, String>)
    ensures
        r is Ok <==> yaml_document(text@) is Ok,
        r is Ok ==> r->Ok_0 == yaml_document(text@)->Ok_0,
        r is Err ==> r->Err_0@ == yaml_document(text@)->Err_0,
{
    match read_document(text) {
        Ok(v) => Ok(to_tree(v)),
        Err(e) => Err(e),
    }
}

/// The value under all tags.
pub open spec fn untagged(v: YamlValue) -> YamlValue
    decreases v,
{
    match v {
        YamlValue::Tagged(_, inner) => untagged(*inner),
        _ => v,
    }
}

/// The index of the pair whose key is the string `key`; the length if there is
/// none.
pub open spec fn pair_index(
    pairs: Seq<(YamlValue, YamlValue)>,
    key: Seq<char>,
    from: int,
) -> int
    decreases pairs.len() - from,
{
    if from >= pairs.len() {
        pairs.len() as int
    } else if key_is(pairs[from].0, key) {
        from
    } else {
        pair_index(pairs, key, from + 1)
    }
}

/// `v` is the string `key`.
pub open spec fn key_is(v: YamlValue, key: Seq<char>) -> bool {
    match v {
        YamlValue::Str(s) => s@ == key,
        _ => false,
    }
}

/// The value under `key` of a mapping, tagged or not.
pub open spec fn yaml_get(v: YamlValue, key: Seq<char>) -> Option<YamlValue> {
    match untagged(v) {
        YamlValue::Mapping(pairs) => {
            let i = pair_index(pairs@, key, 0);
            if i < pairs@.len() {
                Some(pairs@[i].1)
            } else {
                None
            }
        },
        _ => None,
    }
}

/// The text of a string, tagged or not.
pub open spec fn yaml_str(v: YamlValue) -> Option<Seq<char>> {
    match untagged(v) {
        YamlValue::Str(s) => Some(s@),
        _ => None,
    }
}

/// The items of a sequence, tagged or not.
pub open spec fn yaml_items(v: YamlValue) -> Option<Seq<YamlValue>> {
    match untagged(v) {
        YamlValue::Sequence(items) => Some(items@),
        _ => None,
    }
}

/// The text under `key`.
pub open spec fn yaml_get_str(v: YamlValue, key: Seq<char>) -> Option<Seq<char>> {
    match yaml_get(v, key) {
        Some(x) => yaml_str(x),
        None => None,
    }
}

proof fn lemma_pair_index(
    pairs: Seq<(YamlValue, YamlValue)>,
    key: Seq<char>,
    from: int,
    n: int,
)
    requires
        0 <= from <= n <= pairs.len(),
        forall|k: int| from <= k < n ==> !key_is((#[trigger] pairs[k]).0, key),
        n < pairs.len() ==> key_is(pairs[n].0, key),
    ensures
        pair_index(pairs, key, from) == n,
    decreases n - from,
{
    if from < n {
        lemma_pair_index(pairs, key, from + 1, n);
    }
}

impl YamlValue {
    /// The value as JSON, or the message of the error. For a tree that was read it
    /// is the JSON of what was read.
    pub fn to_json(&self) -> (r: Result<String, String>)
        ensures
            match r {
                Ok(t) => tree_json(*self) == Ok::<Seq<char>, Seq<char>>(t@),
                Err(e) => tree_json(*self) == Err::<Seq<char>, Seq<char>>(e@),
            },
            forall|w: serde_yaml::Value| #[trigger] yaml_tree(w) == *self ==> value_json(w)
                == tree_json(*self),
    {
        write_json(&to_value(self))
    }

    /// The value under all tags.
    pub fn untag(&self) -> (r: &YamlValue)
        ensures
            *r == untagged(*self),
        decreases self,
    {
        match self {
            YamlValue::Tagged(_, inner) => inner.untag(),
            _ => self,
        }
    }

    /// The value under `key` of a mapping.
    pub fn get(&self, key: &str) -> (r: Option<&YamlValue>)
        ensures
            r is Some <==> yaml_get(*self, key@) is Some,
            r is Some ==> *r->0 == yaml_get(*self, key@)->0,
    {
        match self.untag() {
            YamlValue::Mapping(pairs) => {
                let mut i: usize = 0;
                while i < pairs.len()
                    invariant
                        i <= pairs@.len(),
                        untagged(*self) == YamlValue::Mapping(*pairs),
                        forall|k: int| 0 <= k < i ==> !key_is((#[trigger] pairs@[k]).0, key@),
                    decreases pairs@.len() - i,
                {
                    if let YamlValue::Str(s) = &pairs[i].0 {
                        if str_eq(s.as_str(), key) {
                            proof {
                                lemma_pair_index(pairs@, key@, 0, i as int);
                            }
                            return Some(&pairs[i].1);
                        }
                    }
                    i += 1;
                }
                proof {
                    lemma_pair_index(pairs@, key@, 0, i as int);
                }
                None
            },
            _ => None,
        }
    }

    /// The text of a string.
    pub fn as_str(&self) -> (r: Option<&str>)
        ensures
            r is Some <==> yaml_str(*self) is Some,
            r is Some ==> r->0@ == yaml_str(*self)->0,
    {
        match self.untag() {
            YamlValue::Str(s) => Some(s.as_str()),
            _ => None,
        }
    }

    /// The items of a sequence.
    pub fn as_sequence(&self) -> (r: Option<&Vec<YamlValue>>)
        ensures
            r is Some <==> yaml_items(*self) is Some,
            r is Some ==> r->0@ == yaml_items(*self)->0,
    {
        match self.untag() {
            YamlValue::Sequence(items) => Some(items),
            _ => None,
        }
    }

    /// A copy of the text under `key`.
    pub fn get_string(&self, key: &str) -> (r: Option<String>)
        ensures
            r is Some <==> yaml_get_str(*self, key@) is Some,
            r is Some ==> r->0@ == yaml_get_str(*self, key@)->0,
    {
        match self.get(key) {
            Some(v) => match v.as_str() {
                Some(s) => Some(s.to_owned()),
                None => None,
            },
            None => None,
        }
    }
}

} // verus!
