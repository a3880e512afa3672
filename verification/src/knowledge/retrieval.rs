//! Search over the indexed chunks.
use vstd::prelude::*;
use vstd::string::StringExecFns;

use crate::error::CoreError;
use crate::json;
use crate::json::write_strings;
use crate::knowledge::retrieval_laws;
use crate::store::meaning;
use crate::store::sql;
use crate::store::sql::{SqlValue, Statement, ValueText};

verus! {

/// A chunk that a search found.
#[derive(Debug)]
pub struct RetrievedChunk {
    pub file_path: String,
    pub section_heading: Option<String>,
    pub content: String,
    pub para_folder: Option<String>,
    /// The bits of the distance to the query; the less, the more similar.
    pub distance: u32,
}

/// What restricts a search.
#[derive(Debug)]
pub struct RetrievalFilters {
    /// The folders to search in, all where this is none.
    pub para_folders: Option<Vec<String>>,
    /// The most chunks to return, five where this is none.
    pub top_k: Option<usize>,
}

impl Default for RetrievalFilters {
    fn default() -> (r: RetrievalFilters)
        ensures
            r.para_folders is None,
            r.top_k is None,
    {
        RetrievalFilters { para_folders: None, top_k: None }
    }
}

/// The most chunks that a search returns.
pub open spec fn limit_of(f: RetrievalFilters) -> usize {
    match f.top_k {
        Some(k) => k,
        None => 5,
    }
}

/// The number of chunks that are asked of the index: four times as many as are
/// returned, and twenty at least.
pub open spec fn fetch_count(top_k: usize) -> usize {
    if 4 * top_k > usize::MAX {
        usize::MAX
    } else if 4 * top_k < 20 {
        20
    } else {
        (4 * top_k) as usize
    }
}

/// The statement that asks the index.
pub open spec fn search_statement(by_folder: bool) -> Seq<char> {
    "SELECT vc.file_path, vc.section_heading, vc.content, vc.para_folder, v.distance
             FROM vault_chunk_vecs v
             JOIN vault_chunks vc ON vc.id = v.rowid
             WHERE v.embedding MATCH ?1 AND k = ?2"@ + (if by_folder {
        " AND vc.para_folder IN (SELECT value FROM json_each(?3))"@
    } else {
        ""@
    }) + "
             ORDER BY v.distance"@
}

/// A search that is about to be made.
#[derive(Debug)]
pub struct SearchPlan {
    /// What is asked of the index.
    pub statement: Statement,
    /// The number of chunks to return.
    pub top_k: usize,
}

/// The folders of the filters as JSON.
pub open spec fn folders_json(f: RetrievalFilters) -> Result<Seq<char>, Seq<char>> {
    json::json_strings(json::string_texts(f.para_folders->0@))
}

/// The values of the statement: the vector that is searched for, the number of
/// chunks to ask for, and the folders, where there are any.
pub open spec fn search_values(f: RetrievalFilters, query: Seq<u32>) -> Seq<ValueText> {
    seq![
        ValueText::Blob(le_bytes_of(query)),
        ValueText::Integer((fetch_count(limit_of(f)) as i64) as int),
    ] + match f.para_folders {
        Some(_) => seq![ValueText::Text(folders_json(f)->Ok_0)],
        None => Seq::empty(),
    }
}

/// The search for a vector, given by the bits of its numbers, that the filters
/// ask for.
pub fn plan_search(filters: &RetrievalFilters, query: &[u32]) -> (r: Result<SearchPlan, CoreError>)
    ensures
        if filters.para_folders is Some && folders_json(*filters) is Err {
            r is Err && (r->Err_0 matches CoreError::Serialization(m) && m@ == folders_json(
                *filters,
            )->Err_0)
        } else {
            &&& r is Ok
            &&& sql::says(
                r->Ok_0.statement,
                search_statement(filters.para_folders is Some),
                search_values(*filters, query@),
            )
            &&& r->Ok_0.top_k == limit_of(*filters)
        },
        r is Ok ==> {
            &&& r->Ok_0.statement.sql@ == meaning::query_text(
                retrieval_laws::search_query(filters.para_folders is Some),
            )
            &&& filters.top_k matches Some(k) ==> r->Ok_0.top_k == k
            &&& filters.top_k is None ==> r->Ok_0.top_k == 5
        },
{
    proof {
        retrieval_laws::lemma_search_query_text(filters.para_folders is Some);
    }
    let top_k: usize = match filters.top_k {
        Some(k) => k,
        None => 5,
    };
    let fetch: usize = match top_k.checked_mul(4) {
        Some(n) => if n < 20 {
            20
        } else {
            n
        },
        None => usize::MAX,
    };
    let mut text = "SELECT vc.file_path, vc.section_heading, vc.content, vc.para_folder, v.distance
             FROM vault_chunk_vecs v
             JOIN vault_chunks vc ON vc.id = v.rowid
             WHERE v.embedding MATCH ?1 AND k = ?2".to_owned();
    let mut params = vec![
        SqlValue::Blob(f32_slice_to_bytes(query)),
        SqlValue::Integer(fetch as i64),
    ];
    if let Some(folders) = &filters.para_folders {
        match write_strings(folders) {
            Ok(t) => params.push(SqlValue::Text(t)),
            Err(e) => return Err(CoreError::Serialization(e)),
        }
        text.append(" AND vc.para_folder IN (SELECT value FROM json_each(?3))");
    } else {
        text.append("");
    }
    text.append("
             ORDER BY v.distance");
    proof {
        assert(sql::values(params@) =~= search_values(*filters, query@));
    }
    Ok(SearchPlan { statement: Statement { sql: text, params }, top_k })
}

/// The first `top_k` of the rows.
pub fn keep_top(rows: Vec<RetrievedChunk>, top_k: usize) -> (r: Vec<RetrievedChunk>)
    ensures
        r@ == if rows@.len() <= top_k {
            rows@
        } else {
            rows@.take(top_k as int)
        },
{
    let mut rows = rows;
    rows.truncate(top_k);
    rows
}

/// The four bytes of `x`, the least first.
pub open spec fn le_bytes(x: u32) -> Seq<u8> {
    seq![
        (x % 256) as u8,
        (x / 256 % 256) as u8,
        (x / 65536 % 256) as u8,
        (x / 16777216) as u8,
    ]
}

/// The bytes of all numbers, one after the other.
pub open spec fn le_bytes_of(v: Seq<u32>) -> Seq<u8>
    decreases v.len(),
{
    if v.len() == 0 {
        Seq::empty()
    } else {
        le_bytes_of(v.drop_last()) + le_bytes(v.last())
    }
}

/// The little-endian bytes of a vector of single-precision numbers, given by
/// their bits.
pub fn f32_slice_to_bytes(bits: &[u32]) -> (r: Vec<u8>)
    ensures
        r@ == le_bytes_of(bits@),
{
    let mut out: Vec<u8> = Vec::new();
    for i in 0..bits.len()
        invariant
            out@ == le_bytes_of(bits@.take(i as int)),
    {
        let ghost before = out@;
        let x: u32 = bits[i];
        out.push((x % 256) as u8);
        out.push((x / 256 % 256) as u8);
        out.push((x / 65536 % 256) as u8);
        out.push((x / 16777216) as u8);
        proof {
            assert(bits@.take(i + 1).drop_last() =~= bits@.take(i as int));
            assert(bits@.take(i + 1).last() == x);
            assert(out@ =~= before + le_bytes(x));
        }
    }
    proof {
        assert(bits@.take(bits@.len() as int) =~= bits@);
    }
    out
}

/// The number that four bytes write, the least first.
pub open spec fn from_le_bytes(b: Seq<u8>) -> int {
    b[0] + 256 * b[1] + 65536 * b[2] + 16777216 * b[3]
}

/// The bytes of a vector give back its numbers: four for each, in order.
pub proof fn bytes_give_back_numbers(v: Seq<u32>, i: int)
    requires
        0 <= i < v.len(),
    ensures
        le_bytes_of(v).len() == 4 * v.len(),
        from_le_bytes(le_bytes_of(v).subrange(4 * i, 4 * i + 4)) == v[i],
    decreases v.len(),
{
    lemma_bytes_len(v);
    lemma_bytes_len(v.drop_last());
    let all = le_bytes_of(v);
    if i == v.len() - 1 {
        assert(all.subrange(4 * i, 4 * i + 4) =~= le_bytes(v[i]));
    } else {
        bytes_give_back_numbers(v.drop_last(), i);
        assert(all.subrange(4 * i, 4 * i + 4) =~= le_bytes_of(v.drop_last()).subrange(
            4 * i,
            4 * i + 4,
        ));
    }
}

proof fn lemma_bytes_len(v: Seq<u32>)
    ensures
        le_bytes_of(v).len() == 4 * v.len(),
    decreases v.len(),
{
    if v.len() > 0 {
        lemma_bytes_len(v.drop_last());
    }
}

} // verus!
