//! What holds of the steps that store a file of the vault.
use vstd::prelude::*;

use crate::store::knowledge;
use crate::store::knowledge::{IndexedFile, UpsertStep};

verus! {

/// The step that is reached after `n` steps from the first.
pub open spec fn reached(f: IndexedFile, old_chunks: Seq<i64>, n: nat) -> UpsertStep
    decreases n,
{
    if n == 0 {
        knowledge::clear_step(old_chunks, 0)
    } else {
        knowledge::step_after(f, old_chunks, reached(f, old_chunks, (n - 1) as nat))
    }
}

/// The sizes can be counted.
pub open spec fn countable(f: IndexedFile, old_chunks: Seq<i64>) -> bool {
    &&& old_chunks.len() < usize::MAX
    &&& f.parsed.sections@.len() < usize::MAX
    &&& f.person matches Some(p) ==> p.addresses@.len() < usize::MAX
}

proof fn lemma_old_vectors(f: IndexedFile, old_chunks: Seq<i64>, n: nat)
    requires
        countable(f, old_chunks),
        n <= old_chunks.len(),
    ensures
        reached(f, old_chunks, n) == if n < old_chunks.len() {
            UpsertStep::ClearVector(n as usize)
        } else {
            UpsertStep::ClearFile
        },
    decreases n,
{
    if n > 0 {
        lemma_old_vectors(f, old_chunks, (n - 1) as nat);
    }
}

/// First each vector that was stored for the file before is taken away, then the
/// file itself, and then it is stored anew.
pub proof fn what_was_stored_before_goes_first(
    f: IndexedFile,
    old_chunks: Seq<i64>,
    i: usize,
)
    requires
        countable(f, old_chunks),
        i < old_chunks.len(),
    ensures
        reached(f, old_chunks, i as nat) == UpsertStep::ClearVector(i),
        reached(f, old_chunks, old_chunks.len()) == UpsertStep::ClearFile,
        reached(f, old_chunks, old_chunks.len() + 1) == UpsertStep::InsertFile,
{
    lemma_old_vectors(f, old_chunks, i as nat);
    lemma_old_vectors(f, old_chunks, old_chunks.len());
}

proof fn lemma_chunks(f: IndexedFile, old_chunks: Seq<i64>, i: nat)
    requires
        countable(f, old_chunks),
        i <= f.parsed.sections@.len(),
    ensures
        reached(f, old_chunks, old_chunks.len() + 2 + 2 * i) == if i < f.parsed.sections@.len() {
            UpsertStep::InsertChunk(i as usize)
        } else if f.person is Some {
            UpsertStep::InsertPerson
        } else {
            UpsertStep::Done
        },
        i < f.parsed.sections@.len() ==> reached(f, old_chunks, old_chunks.len() + 3 + 2 * i)
            == UpsertStep::InsertVector(i as usize),
    decreases i,
{
    let n = old_chunks.len();
    if i == 0 {
        lemma_old_vectors(f, old_chunks, n);
        assert(reached(f, old_chunks, n + 1) == UpsertStep::InsertFile);
    } else {
        lemma_chunks(f, old_chunks, (i - 1) as nat);
        assert((n + 3 + 2 * (i - 1)) as nat == (n + 2 + 2 * i - 1) as nat);
    }
}

/// Every section of the file is stored, in order, each followed by its vector.
pub proof fn every_section_is_stored(f: IndexedFile, old_chunks: Seq<i64>, i: usize)
    requires
        countable(f, old_chunks),
        i < f.parsed.sections@.len(),
    ensures
        reached(f, old_chunks, old_chunks.len() + 2 + 2 * i as nat) == UpsertStep::InsertChunk(i),
        reached(f, old_chunks, old_chunks.len() + 3 + 2 * i as nat) == UpsertStep::InsertVector(
            i,
        ),
{
    lemma_chunks(f, old_chunks, i as nat);
}

proof fn lemma_addresses(f: IndexedFile, old_chunks: Seq<i64>, i: nat)
    requires
        countable(f, old_chunks),
        f.person matches Some(p) && i <= p.addresses@.len(),
    ensures
        reached(f, old_chunks, old_chunks.len() + 3 + 2 * f.parsed.sections@.len() + i) == if i
            < f.person->0.addresses@.len() {
            UpsertStep::InsertAddress(i as usize)
        } else {
            UpsertStep::Done
        },
    decreases i,
{
    if i == 0 {
        lemma_chunks(f, old_chunks, f.parsed.sections@.len());
    } else {
        lemma_addresses(f, old_chunks, (i - 1) as nat);
    }
}

/// The person that a file describes is stored after its sections, and each address
/// of theirs after the person, in order; then all is done.
pub proof fn every_address_of_a_person_is_stored(
    f: IndexedFile,
    old_chunks: Seq<i64>,
    i: usize,
)
    requires
        countable(f, old_chunks),
        f.person matches Some(p) && i < p.addresses@.len(),
    ensures
        ({
            let n = old_chunks.len() + 2 + 2 * f.parsed.sections@.len();
            &&& reached(f, old_chunks, n) == UpsertStep::InsertPerson
            &&& reached(f, old_chunks, n + 1 + i as nat) == UpsertStep::InsertAddress(i)
            &&& reached(f, old_chunks, n + 1 + f.person->0.addresses@.len()) == UpsertStep::Done
        }),
{
    lemma_chunks(f, old_chunks, f.parsed.sections@.len());
    lemma_addresses(f, old_chunks, i as nat);
    lemma_addresses(f, old_chunks, f.person->0.addresses@.len());
}

/// A file that describes no person is done once its sections are stored.
pub proof fn a_file_without_a_person_ends_with_its_sections(
    f: IndexedFile,
    old_chunks: Seq<i64>,
)
    requires
        countable(f, old_chunks),
        f.person is None,
    ensures
        reached(f, old_chunks, old_chunks.len() + 2 + 2 * f.parsed.sections@.len())
            == UpsertStep::Done,
{
    lemma_chunks(f, old_chunks, f.parsed.sections@.len());
}

} // verus!
