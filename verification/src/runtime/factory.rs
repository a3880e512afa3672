//! The factories of adapters, by the channel that they serve.
use vstd::prelude::*;

use crate::text::str_eq;

verus! {

/// Factories, each under the text by which its channel is stored.
pub struct FactoryRegistry<F> {
    inner: Vec<(String, F)>,
}

/// The index of the factory for the channel, from `from` on; the length if
/// there is none.
pub open spec fn factory_index<F>(v: Seq<(Seq<char>, F)>, channel: Seq<char>, from: int) -> int
    decreases v.len() - from,
{
    if from >= v.len() {
        v.len() as int
    } else if v[from].0 == channel {
        from
    } else {
        factory_index(v, channel, from + 1)
    }
}

/// The factory for the channel.
pub open spec fn factory_for<F>(v: Seq<(Seq<char>, F)>, channel: Seq<char>) -> Option<F> {
    let i = factory_index(v, channel, 0);
    if i < v.len() {
        Some(v[i].1)
    } else {
        None
    }
}

proof fn lemma_factory_index<F>(v: Seq<(Seq<char>, F)>, channel: Seq<char>, from: int, n: int)
    requires
        0 <= from <= n <= v.len(),
        forall|k: int| from <= k < n ==> (#[trigger] v[k]).0 != channel,
        n < v.len() ==> v[n].0 == channel,
    ensures
        factory_index(v, channel, from) == n,
    decreases n - from,
{
    if from < n {
        lemma_factory_index(v, channel, from + 1, n);
    }
}

proof fn lemma_factory_index_props<F>(v: Seq<(Seq<char>, F)>, channel: Seq<char>, from: int)
    requires
        0 <= from <= v.len(),
    ensures
        from <= factory_index(v, channel, from) <= v.len(),
        forall|k: int|
            from <= k < factory_index(v, channel, from) ==> (#[trigger] v[k]).0 != channel,
        factory_index(v, channel, from) < v.len() ==> v[factory_index(v, channel, from)].0
            == channel,
    decreases v.len() - from,
{
    if from < v.len() && v[from].0 != channel {
        lemma_factory_index_props(v, channel, from + 1);
    }
}

impl<F> View for FactoryRegistry<F> {
    type V = Seq<(Seq<char>, F)>;

    closed spec fn view(&self) -> Seq<(Seq<char>, F)> {
        self.inner@.map_values(|p: (String, F)| (p.0@, p.1))
    }
}

impl<F> FactoryRegistry<F> {
    /// A registry without factories.
    pub fn new() -> (r: FactoryRegistry<F>)
        ensures
            r@.len() == 0,
    {
        FactoryRegistry { inner: Vec::new() }
    }

    fn find(&self, channel_type: &str) -> (n: usize)
        ensures
            n == factory_index(self@, channel_type@, 0),
            n <= self@.len(),
            self@.len() == self.inner@.len(),
    {
        let mut n: usize = 0;
        while n < self.inner.len() && !str_eq(self.inner[n].0.as_str(), channel_type)
            invariant
                n <= self.inner@.len(),
                self@.len() == self.inner@.len(),
                forall|k: int| 0 <= k < n ==> (#[trigger] self@[k]).0 != channel_type@,
            decreases self.inner@.len() - n,
        {
            n += 1;
        }
        proof {
            lemma_factory_index(self@, channel_type@, 0, n as int);
        }
        n
    }

    /// Puts a factory under a channel, in place of the one that stood there.
    pub fn register(&mut self, channel_type: String, factory: F)
        ensures
            factory_for(final(self)@, channel_type@) == Some(factory),
            forall|other: Seq<char>|
                other != channel_type@ ==> #[trigger] factory_for(final(self)@, other)
                    == factory_for(old(self)@, other),
    {
        let n: usize = self.find(channel_type.as_str());
        let ghost before = self@;
        proof {
            lemma_factory_index_props(before, channel_type@, 0);
        }
        if n < self.inner.len() {
            self.inner.set(n, (channel_type, factory));
            proof {
                assert(self@ =~= before.update(n as int, (channel_type@, factory)));
            }
        } else {
            self.inner.push((channel_type, factory));
            proof {
                assert(self@ =~= before.push((channel_type@, factory)));
            }
        }
        proof {
            let after = self@;
            assert forall|k: int| 0 <= k < n implies (#[trigger] after[k]).0 != channel_type@ by {
                assert(after[k] == before[k]);
            }
            lemma_factory_index(after, channel_type@, 0, n as int);
            assert forall|other: Seq<char>| other != channel_type@ implies #[trigger] factory_for(
                after,
                other,
            ) == factory_for(before, other) by {
                lemma_factory_index_props(before, other, 0);
                let m = factory_index(before, other, 0);
                assert forall|k: int| 0 <= k < m implies (#[trigger] after[k]).0 != other by {
                    if k != n {
                        assert(after[k] == before[k]);
                    }
                }
                if m < before.len() {
                    assert(m != n);
                    assert(after[m] == before[m]);
                    lemma_factory_index(after, other, 0, m);
                } else {
                    lemma_factory_index(after, other, 0, after.len() as int);
                }
            }
        }
    }

    /// The factory under a channel.
    pub fn get(&self, channel_type: &str) -> (r: Option<&F>)
        ensures
            match r {
                Some(f) => factory_for(self@, channel_type@) == Some(*f),
                None => factory_for(self@, channel_type@) is None,
            },
    {
        let n: usize = self.find(channel_type);
        if n < self.inner.len() {
            Some(&self.inner[n].1)
        } else {
            None
        }
    }
}

} // verus!
