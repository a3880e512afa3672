//! Maps from texts to texts.
use vstd::prelude::*;

use crate::json;
use crate::json::{read_pairs, write_pairs};
use crate::text::str_eq;

verus! {

/// A map from texts to texts, which keeps its keys in the order in which they
/// came.
#[derive(Debug)]
pub struct TextMap {
    entries: Vec<(String, String)>,
}

/// The index of `key` among the pairs from `from` on; the length if it is not
/// among them.
pub open spec fn key_index(pairs: Seq<(Seq<char>, Seq<char>)>, key: Seq<char>, from: int) -> int
    decreases pairs.len() - from,
{
    if from >= pairs.len() {
        pairs.len() as int
    } else if pairs[from].0 == key {
        from
    } else {
        key_index(pairs, key, from + 1)
    }
}

/// No key occurs twice.
pub open spec fn distinct_keys(pairs: Seq<(Seq<char>, Seq<char>)>) -> bool {
    forall|i: int, j: int|
        0 <= i < j < pairs.len() ==> (#[trigger] pairs[i]).0 != (#[trigger] pairs[j]).0
}

/// What stands under `key`.
pub open spec fn value_under(pairs: Seq<(Seq<char>, Seq<char>)>, key: Seq<char>) -> Option<
    Seq<char>,
> {
    let i = key_index(pairs, key, 0);
    if i < pairs.len() {
        Some(pairs[i].1)
    } else {
        None
    }
}

/// The same stands under every key, whatever the order.
pub open spec fn same_entries(
    a: Seq<(Seq<char>, Seq<char>)>,
    b: Seq<(Seq<char>, Seq<char>)>,
) -> bool {
    forall|key: Seq<char>| #[trigger] value_under(a, key) == value_under(b, key)
}

/// `key_index` is the first index of the key, or the length.
pub proof fn lemma_key_index(
    pairs: Seq<(Seq<char>, Seq<char>)>,
    key: Seq<char>,
    from: int,
    n: int,
)
    requires
        0 <= from <= n <= pairs.len(),
        forall|k: int| from <= k < n ==> (#[trigger] pairs[k]).0 != key,
        n < pairs.len() ==> pairs[n].0 == key,
    ensures
        key_index(pairs, key, from) == n,
    decreases n - from,
{
    if from < n {
        lemma_key_index(pairs, key, from + 1, n);
    }
}

/// The texts of a pair of strings.
pub open spec fn pair_texts(p: (String, String)) -> (Seq<char>, Seq<char>) {
    (p.0@, p.1@)
}

/// The texts of pairs of strings.
pub open spec fn pairs_texts(v: Seq<(String, String)>) -> Seq<(Seq<char>, Seq<char>)> {
    v.map_values(|p: (String, String)| pair_texts(p))
}

impl View for TextMap {
    type V = Seq<(Seq<char>, Seq<char>)>;

    closed spec fn view(&self) -> Seq<(Seq<char>, Seq<char>)> {
        pairs_texts(self.entries@)
    }
}

impl TextMap {
    /// The map holds each key once.
    pub open spec fn well_formed(&self) -> bool {
        distinct_keys(self@)
    }

    #[verifier::type_invariant]
    spec fn keys_are_distinct(self) -> bool {
        distinct_keys(pairs_texts(self.entries@))
    }

    /// An empty map.
    pub fn new() -> (r: TextMap)
        ensures
            r@.len() == 0,
            r.well_formed(),
    {
        TextMap { entries: Vec::new() }
    }

    /// The number of keys.
    pub fn len(&self) -> (n: usize)
        ensures
            n == self@.len(),
    {
        self.entries.len()
    }

    /// Whether there is no key.
    pub fn is_empty(&self) -> (b: bool)
        ensures
            b == (self@.len() == 0),
    {
        self.entries.len() == 0
    }

    /// A map of these pairs.
    pub fn from_pairs(pairs: Vec<(String, String)>) -> (r: TextMap)
        requires
            distinct_keys(pairs_texts(pairs@)),
        ensures
            r@ == pairs_texts(pairs@),
            r.well_formed(),
    {
        TextMap { entries: pairs }
    }

    /// The map as a JSON object, or the message of the error.
    pub fn to_json(&self) -> (r: Result<String, String>)
        ensures
            match r {
                Ok(t) => json::json_object(self@) == Ok::<Seq<char>, Seq<char>>(t@),
                Err(e) => json::json_object(self@) == Err::<Seq<char>, Seq<char>>(e@),
            },
    {
        proof {
            use_type_invariant(self);
        }
        write_pairs(&self.entries)
    }

    /// The map that a JSON object writes, or the message of the error. What
    /// `to_json` wrote is read as the same map.
    pub fn from_json(text: &str) -> (r: Result<TextMap, String>)
        ensures
            match r {
                Ok(m) => json::json_pairs(text@) == Ok::<
                    Seq<(Seq<char>, Seq<char>)>,
                    Seq<char>,
                >(m@) && m.well_formed(),
                Err(e) => json::json_pairs(text@) == Err::<
                    Seq<(Seq<char>, Seq<char>)>,
                    Seq<char>,
                >(e@),
            },
            forall|q: Seq<(Seq<char>, Seq<char>)>|
                (distinct_keys(q) && #[trigger] json::json_object(q) == Ok::<
                    Seq<char>,
                    Seq<char>,
                >(text@)) ==> (r is Ok && same_entries(r->Ok_0@, q)),
    {
        match read_pairs(text) {
            Ok(entries) => Ok(TextMap { entries }),
            Err(e) => Err(e),
        }
    }

    /// A copy of the map.
    pub fn copy(&self) -> (r: TextMap)
        ensures
            r@ == self@,
            r.well_formed(),
    {
        proof {
            use_type_invariant(self);
        }
        let mut entries: Vec<(String, String)> = Vec::new();
        for i in 0..self.entries.len()
            invariant
                pairs_texts(entries@) == self@.take(i as int),
        {
            let ghost before = entries@;
            entries.push((self.entries[i].0.clone(), self.entries[i].1.clone()));
            proof {
                assert(pairs_texts(entries@) =~= pairs_texts(before).push(
                    pair_texts(self.entries@[i as int]),
                ));
                assert(self@.take(i + 1) =~= self@.take(i as int).push(self@[i as int]));
            }
        }
        proof {
            assert(self@.take(self@.len() as int) =~= self@);
        }
        TextMap { entries }
    }

    /// The key of the pair at index `i`.
    pub fn key(&self, i: usize) -> (r: &str)
        requires
            i < self@.len(),
        ensures
            r@ == self@[i as int].0,
    {
        self.entries[i].0.as_str()
    }

    /// The value of the pair at index `i`.
    pub fn value(&self, i: usize) -> (r: &str)
        requires
            i < self@.len(),
        ensures
            r@ == self@[i as int].1,
    {
        self.entries[i].1.as_str()
    }

    fn find(&self, key: &str) -> (n: usize)
        ensures
            n == key_index(self@, key@, 0),
            n <= self@.len(),
    {
        let mut n: usize = 0;
        while n < self.entries.len() && !str_eq(self.entries[n].0.as_str(), key)
            invariant
                n <= self.entries@.len(),
                self@.len() == self.entries@.len(),
                forall|k: int| 0 <= k < n ==> (#[trigger] self@[k]).0 != key@,
            decreases self.entries@.len() - n,
        {
            n += 1;
        }
        proof {
            lemma_key_index(self@, key@, 0, n as int);
        }
        n
    }

    /// What stands under `key`.
    pub fn get(&self, key: &str) -> (r: Option<&str>)
        ensures
            r is Some <==> key_index(self@, key@, 0) < self@.len(),
            r is Some ==> r->0@ == self@[key_index(self@, key@, 0)].1,
    {
        let n: usize = self.find(key);
        if n < self.entries.len() {
            Some(self.entries[n].1.as_str())
        } else {
            None
        }
    }

    /// Puts `value` under `key`, in place of what stood there.
    pub fn insert(&mut self, key: String, value: String)
        ensures
            final(self).well_formed(),
            ({
                let n = key_index(old(self)@, key@, 0);
                final(self)@ == if n < old(self)@.len() {
                    old(self)@.update(n, (key@, value@))
                } else {
                    old(self)@.push((key@, value@))
                }
            }),
    {
        let n: usize = self.find(key.as_str());
        let ghost before = self@;
        proof {
            use_type_invariant(&*self);
            lemma_key_index_props(before, key@, 0);
        }
        let mut entries: Vec<(String, String)> = Vec::new();
        std::mem::swap(&mut entries, &mut self.entries);
        if n < entries.len() {
            entries.set(n, (key, value));
            proof {
                assert(pairs_texts(entries@) =~= before.update(n as int, (key@, value@)));
            }
        } else {
            entries.push((key, value));
            proof {
                assert(pairs_texts(entries@) =~= before.push((key@, value@)));
            }
        }
        self.entries = entries;
    }
}

/// What `key_index` finds, and that the key does not stand before it.
pub proof fn lemma_key_index_props(
    pairs: Seq<(Seq<char>, Seq<char>)>,
    key: Seq<char>,
    from: int,
)
    requires
        0 <= from <= pairs.len(),
    ensures
        from <= key_index(pairs, key, from) <= pairs.len(),
        key_index(pairs, key, from) < pairs.len() ==> pairs[key_index(pairs, key, from)].0 == key,
        forall|k: int|
            from <= k < key_index(pairs, key, from) ==> (#[trigger] pairs[k]).0 != key,
    decreases pairs.len() - from,
{
    if from < pairs.len() && pairs[from].0 != key {
        lemma_key_index_props(pairs, key, from + 1);
    }
}

} // verus!
