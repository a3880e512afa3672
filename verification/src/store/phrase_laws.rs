//! What holds of the phrase that the full-text search is given.
use vstd::prelude::*;

use crate::store::messages;
use crate::text;

verus! {

/// `s` with each pair of quotation marks read as one, as the search reads a phrase.
pub open spec fn undoubled(s: Seq<char>) -> Seq<char>
    decreases s.len(),
{
    if s.len() == 0 {
        Seq::empty()
    } else if s.len() >= 2 && s[0] == '"' && s[1] == '"' {
        seq!['"'] + undoubled(s.skip(2))
    } else {
        seq![s[0]] + undoubled(s.skip(1))
    }
}

proof fn lemma_doubled(q: Seq<char>)
    ensures
        undoubled(text::replace_all(q, "\""@, "\"\""@)) == q,
    decreases q.len(),
{
    reveal_strlit("\"");
    reveal_strlit("\"\"");
    let one = "\""@;
    let two = "\"\""@;
    assert(one =~= seq!['"']);
    assert(two =~= seq!['"', '"']);
    let all = text::replace_all(q, one, two);
    if q.len() == 0 {
        assert(!text::occurs_at(q, one, 0));
        assert(all =~= Seq::empty());
    } else {
        let rest = q.drop_first();
        let tail = text::replace_all(rest, one, two);
        lemma_doubled(rest);
        assert(q =~= seq![q[0]] + rest);
        assert(q.skip(1) =~= rest);
        if q[0] == '"' {
            assert(q.subrange(0, 1) =~= one);
            assert(text::occurs_at(q, one, 0));
            assert(all == two + tail);
            assert(all.skip(2) =~= tail);
        } else {
            assert(!text::occurs_at(q, one, 0)) by {
                assert(q.subrange(0, 1)[0] == q[0]);
            }
            assert(all == seq![q[0]] + tail);
            assert(all.skip(1) =~= tail);
        }
    }
}

/// A query stands between quotation marks, and the search reads what is between
/// them as the user wrote it.
pub proof fn a_phrase_is_read_as_it_was_written(query: Seq<char>)
    ensures
        ({
            let p = messages::phrase(query);
            let inner = p.subrange(1, p.len() - 1);
            &&& p.len() >= 2
            &&& p[0] == '"'
            &&& p[p.len() - 1] == '"'
            &&& undoubled(inner) == query
        }),
{
    reveal_strlit("\"");
    lemma_doubled(query);
    let p = messages::phrase(query);
    assert(p.subrange(1, p.len() - 1) =~= text::replace_all(query, "\""@, "\"\""@));
}

} // verus!
