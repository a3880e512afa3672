//! Maps from identifiers to values.
use vstd::prelude::*;

use crate::id::Uuid;

verus! {

/// A map from identifiers to values.
pub struct IdMap<V> {
    entries: Vec<(Uuid, V)>,
}

/// The index of `id`, from `from` on; the length if it is not there.
pub open spec fn id_index<V>(v: Seq<(Uuid, V)>, id: Uuid, from: int) -> int
    decreases v.len() - from,
{
    if from >= v.len() {
        v.len() as int
    } else if v[from].0 == id {
        from
    } else {
        id_index(v, id, from + 1)
    }
}

/// What stands under `id`.
pub open spec fn under<V>(v: Seq<(Uuid, V)>, id: Uuid) -> Option<V> {
    let i = id_index(v, id, 0);
    if i < v.len() {
        Some(v[i].1)
    } else {
        None
    }
}

/// No identifier occurs twice.
pub open spec fn distinct_ids<V>(v: Seq<(Uuid, V)>) -> bool {
    forall|i: int, j: int| 0 <= i < j < v.len() ==> (#[trigger] v[i]).0 != (#[trigger] v[j]).0
}

proof fn lemma_id_index<V>(v: Seq<(Uuid, V)>, id: Uuid, from: int, n: int)
    requires
        0 <= from <= n <= v.len(),
        forall|k: int| from <= k < n ==> (#[trigger] v[k]).0 != id,
        n < v.len() ==> v[n].0 == id,
    ensures
        id_index(v, id, from) == n,
    decreases n - from,
{
    if from < n {
        lemma_id_index(v, id, from + 1, n);
    }
}

/// What `id_index` says of the entries.
pub proof fn lemma_id_index_props<V>(v: Seq<(Uuid, V)>, id: Uuid, from: int)
    requires
        0 <= from <= v.len(),
    ensures
        from <= id_index(v, id, from) <= v.len(),
        forall|k: int| from <= k < id_index(v, id, from) ==> (#[trigger] v[k]).0 != id,
        id_index(v, id, from) < v.len() ==> v[id_index(v, id, from)].0 == id,
    decreases v.len() - from,
{
    if from < v.len() && v[from].0 != id {
        lemma_id_index_props(v, id, from + 1);
    }
}

impl<V> View for IdMap<V> {
    type V = Seq<(Uuid, V)>;

    closed spec fn view(&self) -> Seq<(Uuid, V)> {
        self.entries@
    }
}

impl<V> IdMap<V> {
    /// The map holds each identifier once.
    pub open spec fn well_formed(&self) -> bool {
        distinct_ids(self@)
    }

    #[verifier::type_invariant]
    spec fn ids_are_distinct(self) -> bool {
        distinct_ids(self.entries@)
    }

    /// An empty map.
    pub fn new() -> (r: IdMap<V>)
        ensures
            r.well_formed(),
            r@.len() == 0,
            forall|id: Uuid| #[trigger] under(r@, id) is None,
    {
        IdMap { entries: Vec::new() }
    }

    fn find(&self, id: Uuid) -> (n: usize)
        ensures
            n == id_index(self@, id, 0),
            n <= self.entries@.len(),
    {
        let mut n: usize = 0;
        while n < self.entries.len() && self.entries[n].0 != id
            invariant
                n <= self.entries@.len(),
                forall|k: int| 0 <= k < n ==> (#[trigger] self.entries@[k]).0 != id,
            decreases self.entries@.len() - n,
        {
            n += 1;
        }
        proof {
            lemma_id_index(self@, id, 0, n as int);
        }
        n
    }

    /// What stands under `id`.
    pub fn get(&self, id: Uuid) -> (r: Option<&V>)
        ensures
            match r {
                Some(v) => under(self@, id) == Some(*v),
                None => under(self@, id) is None,
            },
    {
        let n: usize = self.find(id);
        if n < self.entries.len() {
            Some(&self.entries[n].1)
        } else {
            None
        }
    }

    /// Puts `value` under `id`, in place of what stood there.
    pub fn insert(&mut self, id: Uuid, value: V)
        ensures
            final(self).well_formed(),
            under(final(self)@, id) == Some(value),
            forall|other: Uuid|
                other != id ==> #[trigger] under(final(self)@, other) == under(
                    old(self)@,
                    other,
                ),
            final(self)@.len() == old(self)@.len() + if under(old(self)@, id) is Some {
                0int
            } else {
                1
            },
    {
        let n: usize = self.find(id);
        let ghost before = self@;
        proof {
            use_type_invariant(&*self);
            lemma_id_index_props(before, id, 0);
        }
        let mut entries: Vec<(Uuid, V)> = Vec::new();
        std::mem::swap(&mut entries, &mut self.entries);
        if n < entries.len() {
            entries.set(n, (id, value));
        } else {
            entries.push((id, value));
        }
        self.entries = entries;
        proof {
            let after = self@;
            assert forall|k: int| 0 <= k < n implies (#[trigger] after[k]).0 != id by {
                assert(after[k] == before[k]);
            }
            lemma_id_index(after, id, 0, n as int);
            assert forall|other: Uuid| other != id implies #[trigger] under(after, other) == under(
                before,
                other,
            ) by {
                lemma_id_index_props(before, other, 0);
                let m = id_index(before, other, 0);
                assert forall|k: int| 0 <= k < m implies (#[trigger] after[k]).0 != other by {
                    if k != n {
                        assert(after[k] == before[k]);
                    }
                }
                if m < before.len() {
                    assert(after[m] == before[m]);
                    lemma_id_index(after, other, 0, m);
                } else {
                    lemma_id_index(after, other, 0, after.len() as int);
                }
            }
        }
    }

    /// Takes away what stands under `id`.
    pub fn remove(&mut self, id: Uuid) -> (r: Option<V>)
        ensures
            final(self).well_formed(),
            r == under(old(self)@, id),
            under(final(self)@, id) is None,
            forall|other: Uuid|
                other != id ==> #[trigger] under(final(self)@, other) == under(
                    old(self)@,
                    other,
                ),
            final(self)@.len() == old(self)@.len() - if r is Some {
                1int
            } else {
                0
            },
    {
        let n: usize = self.find(id);
        let ghost before = self@;
        proof {
            use_type_invariant(&*self);
            lemma_id_index_props(before, id, 0);
        }
        if n >= self.entries.len() {
            return None;
        }
        let mut entries: Vec<(Uuid, V)> = Vec::new();
        std::mem::swap(&mut entries, &mut self.entries);
        let (_, value) = entries.remove(n);
        proof {
            let after = entries@;
            assert(after =~= before.remove(n as int));
            assert forall|k: int| 0 <= k < after.len() implies (#[trigger] after[k]).0 != id by {
                if k < n {
                    assert(after[k] == before[k]);
                } else {
                    assert(after[k] == before[k + 1]);
                    assert(before[n as int].0 == id);
                }
            }
            lemma_id_index(after, id, 0, after.len() as int);
            assert forall|i: int, j: int| 0 <= i < j < after.len() implies (#[trigger] after[i]).0
                != (#[trigger] after[j]).0 by {
                let i0 = if i < n { i } else { i + 1 };
                let j0 = if j < n { j } else { j + 1 };
                assert(after[i] == before[i0]);
                assert(after[j] == before[j0]);
            }
            assert forall|other: Uuid| other != id implies #[trigger] under(after, other) == under(
                before,
                other,
            ) by {
                lemma_id_index_props(before, other, 0);
                let m = id_index(before, other, 0);
                if m < before.len() {
                    let m0 = if m < n { m } else { m - 1 };
                    assert forall|k: int| 0 <= k < m0 implies (#[trigger] after[k]).0 != other by {
                        if k < n {
                            assert(after[k] == before[k]);
                        } else {
                            assert(after[k] == before[k + 1]);
                        }
                    }
                    assert(after[m0] == before[m]);
                    lemma_id_index(after, other, 0, m0);
                } else {
                    assert forall|k: int| 0 <= k < after.len() implies (#[trigger] after[k]).0
                        != other by {
                        if k < n {
                            assert(after[k] == before[k]);
                        } else {
                            assert(after[k] == before[k + 1]);
                        }
                    }
                    lemma_id_index(after, other, 0, after.len() as int);
                }
            }
        }
        self.entries = entries;
        Some(value)
    }

    /// The identifiers of the map.
    pub fn ids(&self) -> (r: Vec<Uuid>)
        ensures
            r@.len() == self@.len(),
            forall|i: int| 0 <= i < r@.len() ==> #[trigger] r@[i] == self@[i].0,
    {
        let mut r: Vec<Uuid> = Vec::new();
        for i in 0..self.entries.len()
            invariant
                r@.len() == i,
                forall|k: int| 0 <= k < i ==> #[trigger] r@[k] == self.entries@[k].0,
        {
            r.push(self.entries[i].0);
        }
        r
    }
}

} // verus!
