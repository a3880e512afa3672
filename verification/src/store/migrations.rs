//! The versions of the database's layout.
use vstd::prelude::*;

verus! {

/// The versions that are to be applied, in order: those above the current one,
/// up to the last.
pub fn pending_migrations(current_version: i64, count: u32) -> (r: Vec<i64>)
    ensures
        r@.len() == if current_version >= count {
            0
        } else if current_version <= 0 {
            count as int
        } else {
            count - current_version
        },
        forall|i: int|
            0 <= i < r@.len() ==> #[trigger] r@[i] == count - r@.len() + 1 + i && r@[i]
                > current_version,
{
    let mut r: Vec<i64> = Vec::new();
    let mut version: i64 = 1;
    while version <= count as i64
        invariant
            1 <= version <= count + 1,
            r@.len() == if current_version >= version - 1 {
                0
            } else if current_version <= 0 {
                version - 1
            } else {
                version - 1 - current_version
            },
            forall|i: int|
                0 <= i < r@.len() ==> #[trigger] r@[i] == version - r@.len() + i && r@[i]
                    > current_version,
        decreases count + 1 - version,
    {
        if version > current_version {
            r.push(version);
        }
        version = version + 1;
    }
    r
}

} // verus!
