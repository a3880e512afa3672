//! What a search over the indexed chunks finds.
use vstd::prelude::*;

use crate::json;
use crate::knowledge::retrieval;
use crate::knowledge::retrieval::RetrievalFilters;
use crate::store::meaning;
use crate::store::meaning::{
    Column, Condition, Database, Direction, Found, Operand, Query, Selected, Source,
};
use crate::store::sql::ValueText;

verus! {

/// The search over all folders.
pub open spec fn everywhere_query() -> Query {
    Query {
        selected: Selected::Columns(
            seq![
                meaning::column_of("vc"@, "file_path"@),
                meaning::column_of("vc"@, "section_heading"@),
                meaning::column_of("vc"@, "content"@),
                meaning::column_of("vc"@, "para_folder"@),
                meaning::column_of("v"@, "distance"@),
            ],
        ),
        source: Source::Join {
            left: "vault_chunk_vecs"@,
            left_as: "v"@,
            right: "vault_chunks"@,
            right_as: "vc"@,
            on: (meaning::column_of("vc"@, "id"@), meaning::column_of("v"@, "rowid"@)),
        },
        conditions: seq![Condition::Matching(meaning::column_of("v"@, "embedding"@), 1), Condition::Equal(meaning::column("k"@), Operand::Parameter(2))],
        order: seq![(meaning::column_of("v"@, "distance"@), Direction::Plain)],
        limit: None,
        offset: None,
        gap: "\n             "@,
    }
}

/// The columns of its text.
proof fn lemma_everywhere_query_columns()
    ensures
        meaning::selected_text(everywhere_query().selected) == "vc.file_path, vc.section_heading, vc.content, vc.para_folder, v.distance"@,
{
    let columns = everywhere_query().selected->Columns_0.map_values(|c: Column| meaning::column_text(c));
    assert(columns =~= seq![
        meaning::column_text(meaning::column_of("vc"@, "file_path"@)),
        meaning::column_text(meaning::column_of("vc"@, "section_heading"@)),
        meaning::column_text(meaning::column_of("vc"@, "content"@)),
        meaning::column_text(meaning::column_of("vc"@, "para_folder"@)),
        meaning::column_text(meaning::column_of("v"@, "distance"@)),
    ]);
    assert(columns[0] =~= "vc.file_path"@) by {
        reveal_strlit("vc.file_path");
        reveal_strlit("vc");
        reveal_strlit("file_path");
        reveal_strlit(".");
    }
    assert(columns[1] =~= "vc.section_heading"@) by {
        reveal_strlit("vc.section_heading");
        reveal_strlit("vc");
        reveal_strlit("section_heading");
        reveal_strlit(".");
    }
    assert(columns[2] =~= "vc.content"@) by {
        reveal_strlit("vc.content");
        reveal_strlit("vc");
        reveal_strlit("content");
        reveal_strlit(".");
    }
    assert(columns[3] =~= "vc.para_folder"@) by {
        reveal_strlit("vc.para_folder");
        reveal_strlit("vc");
        reveal_strlit("para_folder");
        reveal_strlit(".");
    }
    assert(columns[4] =~= "v.distance"@) by {
        reveal_strlit("v.distance");
        reveal_strlit("v");
        reveal_strlit("distance");
        reveal_strlit(".");
    }
    reveal_strlit("vc.file_path, vc.section_heading, vc.content, vc.para_folder, v.distance");
    reveal_strlit(", ");
    reveal_strlit("vc.file_path");
    reveal_strlit("vc.section_heading");
    reveal_strlit("vc.content");
    reveal_strlit("vc.para_folder");
    reveal_strlit("v.distance");
    reveal_with_fuel(meaning::listed, 6);
    assert(meaning::listed(columns, ", "@) =~= "vc.file_path, vc.section_heading, vc.content, vc.para_folder, v.distance"@);
}

/// What its text reads from.
proof fn lemma_everywhere_query_source()
    ensures
        meaning::source_text(everywhere_query().source, everywhere_query().gap) == "vault_chunk_vecs v\n             JOIN vault_chunks vc ON vc.id = v.rowid"@,
{
    reveal_strlit("\n             ");
    reveal_strlit("vault_chunk_vecs");
    reveal_strlit("v");
    reveal_strlit("vault_chunks");
    reveal_strlit("vc");
    reveal_strlit(" ");
    reveal_strlit("JOIN ");
    reveal_strlit(" ON ");
    reveal_strlit(" = ");
    reveal_strlit("vault_chunk_vecs v\n             JOIN vault_chunks vc ON vc.id = v.rowid");
    reveal_strlit("id");
    reveal_strlit(".");
    reveal_strlit("rowid");
    assert(meaning::source_text(everywhere_query().source, everywhere_query().gap) =~= "vault_chunk_vecs v\n             JOIN vault_chunks vc ON vc.id = v.rowid"@);
}

/// The conditions of its text.
proof fn lemma_everywhere_query_conditions()
    ensures
        meaning::conditions_text(everywhere_query().conditions) == "v.embedding MATCH ?1 AND k = ?2"@,
{
    let q = everywhere_query();
    meaning::lemma_small_numbers();
    let conditions = q.conditions.map_values(|c: Condition| meaning::condition_text(c));
    assert(conditions =~= seq![
        meaning::condition_text(q.conditions[0]),
        meaning::condition_text(q.conditions[1]),
    ]);
    assert(meaning::condition_text(q.conditions[0]) =~= "v.embedding MATCH ?1"@) by {
        reveal_strlit("v.embedding MATCH ?1");
        reveal_strlit("v");
        reveal_strlit("embedding");
        reveal_strlit(".");
        reveal_strlit(" MATCH ");
        reveal_strlit("?");
        reveal_strlit("1");
    }
    assert(meaning::condition_text(q.conditions[1]) =~= "k = ?2"@) by {
        reveal_strlit("k = ?2");
        reveal_strlit("k");
        reveal_strlit(" = ");
        reveal_strlit("?");
        reveal_strlit("2");
    }
    assert(meaning::conditions_text(q.conditions) =~= "v.embedding MATCH ?1 AND k = ?2"@) by {
        reveal_strlit("v.embedding MATCH ?1 AND k = ?2");
        reveal_strlit(" AND ");
        reveal_strlit("v.embedding MATCH ?1");
        reveal_strlit("k = ?2");
        reveal_with_fuel(meaning::listed, 3);
    }
}

/// The end of its text.
proof fn lemma_everywhere_query_tail()
    ensures
        meaning::tail_text(everywhere_query()) == "\n             WHERE v.embedding MATCH ?1 AND k = ?2\n             ORDER BY v.distance"@,
{
    let q = everywhere_query();
    lemma_everywhere_query_conditions();
    let terms = q.order.map_values(|t: (Column, Direction)| meaning::term_text(t));
    assert(terms =~= seq![meaning::term_text(q.order[0])]);
    assert(meaning::term_text(q.order[0]) =~= "v.distance"@) by {
        reveal_strlit("v.distance");
        reveal_strlit("v");
        reveal_strlit("distance");
        reveal_strlit(".");
    }
    assert(meaning::listed(terms, ", "@) =~= "v.distance"@) by {
        reveal_strlit("v.distance");
        reveal_strlit(", ");
        reveal_with_fuel(meaning::listed, 2);
    }
    assert(meaning::tail_text(q) =~= "\n             WHERE v.embedding MATCH ?1 AND k = ?2\n             ORDER BY v.distance"@) by {
        reveal_strlit("\n             WHERE v.embedding MATCH ?1 AND k = ?2\n             ORDER BY v.distance");
        reveal_strlit("\n             ");
        reveal_strlit("WHERE ");
        reveal_strlit("v.embedding MATCH ?1 AND k = ?2");
        reveal_strlit("ORDER BY ");
        reveal_strlit("v.distance");
    }
}

/// Its text.
pub proof fn lemma_everywhere_query_text()
    ensures
        meaning::query_text(everywhere_query()) == "SELECT vc.file_path, vc.section_heading, vc.content, vc.para_folder, v.distance\n             FROM vault_chunk_vecs v\n             JOIN vault_chunks vc ON vc.id = v.rowid\n             WHERE v.embedding MATCH ?1 AND k = ?2\n             ORDER BY v.distance"@,
{
    let q = everywhere_query();
    lemma_everywhere_query_columns();
    lemma_everywhere_query_source();
    lemma_everywhere_query_tail();
    assert(meaning::query_text(q) =~= "SELECT vc.file_path, vc.section_heading, vc.content, vc.para_folder, v.distance\n             FROM vault_chunk_vecs v\n             JOIN vault_chunks vc ON vc.id = v.rowid\n             WHERE v.embedding MATCH ?1 AND k = ?2\n             ORDER BY v.distance"@) by {
        reveal_strlit("SELECT vc.file_path, vc.section_heading, vc.content, vc.para_folder, v.distance\n             FROM vault_chunk_vecs v\n             JOIN vault_chunks vc ON vc.id = v.rowid\n             WHERE v.embedding MATCH ?1 AND k = ?2\n             ORDER BY v.distance");
        reveal_strlit("SELECT ");
        reveal_strlit("FROM ");
        reveal_strlit("\n             ");
        reveal_strlit("vc.file_path, vc.section_heading, vc.content, vc.para_folder, v.distance");
        reveal_strlit("vault_chunk_vecs v\n             JOIN vault_chunks vc ON vc.id = v.rowid");
        reveal_strlit("\n             WHERE v.embedding MATCH ?1 AND k = ?2\n             ORDER BY v.distance");
    }
}

/// The search over some folders.
pub open spec fn folders_query() -> Query {
    Query {
        selected: Selected::Columns(
            seq![
                meaning::column_of("vc"@, "file_path"@),
                meaning::column_of("vc"@, "section_heading"@),
                meaning::column_of("vc"@, "content"@),
                meaning::column_of("vc"@, "para_folder"@),
                meaning::column_of("v"@, "distance"@),
            ],
        ),
        source: Source::Join {
            left: "vault_chunk_vecs"@,
            left_as: "v"@,
            right: "vault_chunks"@,
            right_as: "vc"@,
            on: (meaning::column_of("vc"@, "id"@), meaning::column_of("v"@, "rowid"@)),
        },
        conditions: seq![Condition::Matching(meaning::column_of("v"@, "embedding"@), 1), Condition::Equal(meaning::column("k"@), Operand::Parameter(2)), Condition::Among(meaning::column_of("vc"@, "para_folder"@), 3)],
        order: seq![(meaning::column_of("v"@, "distance"@), Direction::Plain)],
        limit: None,
        offset: None,
        gap: "\n             "@,
    }
}

/// The columns of its text.
proof fn lemma_folders_query_columns()
    ensures
        meaning::selected_text(folders_query().selected) == "vc.file_path, vc.section_heading, vc.content, vc.para_folder, v.distance"@,
{
    let columns = folders_query().selected->Columns_0.map_values(|c: Column| meaning::column_text(c));
    assert(columns =~= seq![
        meaning::column_text(meaning::column_of("vc"@, "file_path"@)),
        meaning::column_text(meaning::column_of("vc"@, "section_heading"@)),
        meaning::column_text(meaning::column_of("vc"@, "content"@)),
        meaning::column_text(meaning::column_of("vc"@, "para_folder"@)),
        meaning::column_text(meaning::column_of("v"@, "distance"@)),
    ]);
    assert(columns[0] =~= "vc.file_path"@) by {
        reveal_strlit("vc.file_path");
        reveal_strlit("vc");
        reveal_strlit("file_path");
        reveal_strlit(".");
    }
    assert(columns[1] =~= "vc.section_heading"@) by {
        reveal_strlit("vc.section_heading");
        reveal_strlit("vc");
        reveal_strlit("section_heading");
        reveal_strlit(".");
    }
    assert(columns[2] =~= "vc.content"@) by {
        reveal_strlit("vc.content");
        reveal_strlit("vc");
        reveal_strlit("content");
        reveal_strlit(".");
    }
    assert(columns[3] =~= "vc.para_folder"@) by {
        reveal_strlit("vc.para_folder");
        reveal_strlit("vc");
        reveal_strlit("para_folder");
        reveal_strlit(".");
    }
    assert(columns[4] =~= "v.distance"@) by {
        reveal_strlit("v.distance");
        reveal_strlit("v");
        reveal_strlit("distance");
        reveal_strlit(".");
    }
    reveal_strlit("vc.file_path, vc.section_heading, vc.content, vc.para_folder, v.distance");
    reveal_strlit(", ");
    reveal_strlit("vc.file_path");
    reveal_strlit("vc.section_heading");
    reveal_strlit("vc.content");
    reveal_strlit("vc.para_folder");
    reveal_strlit("v.distance");
    reveal_with_fuel(meaning::listed, 6);
    assert(meaning::listed(columns, ", "@) =~= "vc.file_path, vc.section_heading, vc.content, vc.para_folder, v.distance"@);
}

/// What its text reads from.
proof fn lemma_folders_query_source()
    ensures
        meaning::source_text(folders_query().source, folders_query().gap) == "vault_chunk_vecs v\n             JOIN vault_chunks vc ON vc.id = v.rowid"@,
{
    reveal_strlit("\n             ");
    reveal_strlit("vault_chunk_vecs");
    reveal_strlit("v");
    reveal_strlit("vault_chunks");
    reveal_strlit("vc");
    reveal_strlit(" ");
    reveal_strlit("JOIN ");
    reveal_strlit(" ON ");
    reveal_strlit(" = ");
    reveal_strlit("vault_chunk_vecs v\n             JOIN vault_chunks vc ON vc.id = v.rowid");
    reveal_strlit("id");
    reveal_strlit(".");
    reveal_strlit("rowid");
    assert(meaning::source_text(folders_query().source, folders_query().gap) =~= "vault_chunk_vecs v\n             JOIN vault_chunks vc ON vc.id = v.rowid"@);
}

/// The conditions of its text.
proof fn lemma_folders_query_conditions()
    ensures
        meaning::conditions_text(folders_query().conditions) == "v.embedding MATCH ?1 AND k = ?2 AND vc.para_folder IN (SELECT value FROM json_each(?3))"@,
{
    let q = folders_query();
    meaning::lemma_small_numbers();
    let conditions = q.conditions.map_values(|c: Condition| meaning::condition_text(c));
    assert(conditions =~= seq![
        meaning::condition_text(q.conditions[0]),
        meaning::condition_text(q.conditions[1]),
        meaning::condition_text(q.conditions[2]),
    ]);
    assert(meaning::condition_text(q.conditions[0]) =~= "v.embedding MATCH ?1"@) by {
        reveal_strlit("v.embedding MATCH ?1");
        reveal_strlit("v");
        reveal_strlit("embedding");
        reveal_strlit(".");
        reveal_strlit(" MATCH ");
        reveal_strlit("?");
        reveal_strlit("1");
    }
    assert(meaning::condition_text(q.conditions[1]) =~= "k = ?2"@) by {
        reveal_strlit("k = ?2");
        reveal_strlit("k");
        reveal_strlit(" = ");
        reveal_strlit("?");
        reveal_strlit("2");
    }
    assert(meaning::condition_text(q.conditions[2]) =~= "vc.para_folder IN (SELECT value FROM json_each(?3))"@) by {
        reveal_strlit("vc.para_folder IN (SELECT value FROM json_each(?3))");
        reveal_strlit("vc");
        reveal_strlit("para_folder");
        reveal_strlit(".");
        reveal_strlit(" IN (SELECT value FROM json_each(");
        reveal_strlit("))");
        reveal_strlit("?");
        reveal_strlit("3");
    }
    assert(meaning::conditions_text(q.conditions) =~= "v.embedding MATCH ?1 AND k = ?2 AND vc.para_folder IN (SELECT value FROM json_each(?3))"@) by {
        reveal_strlit("v.embedding MATCH ?1 AND k = ?2 AND vc.para_folder IN (SELECT value FROM json_each(?3))");
        reveal_strlit(" AND ");
        reveal_strlit("v.embedding MATCH ?1");
        reveal_strlit("k = ?2");
        reveal_strlit("vc.para_folder IN (SELECT value FROM json_each(?3))");
        reveal_with_fuel(meaning::listed, 4);
    }
}

/// The end of its text.
proof fn lemma_folders_query_tail()
    ensures
        meaning::tail_text(folders_query()) == "\n             WHERE v.embedding MATCH ?1 AND k = ?2 AND vc.para_folder IN (SELECT value FROM json_each(?3))\n             ORDER BY v.distance"@,
{
    let q = folders_query();
    lemma_folders_query_conditions();
    let terms = q.order.map_values(|t: (Column, Direction)| meaning::term_text(t));
    assert(terms =~= seq![meaning::term_text(q.order[0])]);
    assert(meaning::term_text(q.order[0]) =~= "v.distance"@) by {
        reveal_strlit("v.distance");
        reveal_strlit("v");
        reveal_strlit("distance");
        reveal_strlit(".");
    }
    assert(meaning::listed(terms, ", "@) =~= "v.distance"@) by {
        reveal_strlit("v.distance");
        reveal_strlit(", ");
        reveal_with_fuel(meaning::listed, 2);
    }
    assert(meaning::tail_text(q) =~= "\n             WHERE v.embedding MATCH ?1 AND k = ?2 AND vc.para_folder IN (SELECT value FROM json_each(?3))\n             ORDER BY v.distance"@) by {
        reveal_strlit("\n             WHERE v.embedding MATCH ?1 AND k = ?2 AND vc.para_folder IN (SELECT value FROM json_each(?3))\n             ORDER BY v.distance");
        reveal_strlit("\n             ");
        reveal_strlit("WHERE ");
        reveal_strlit("v.embedding MATCH ?1 AND k = ?2 AND vc.para_folder IN (SELECT value FROM json_each(?3))");
        reveal_strlit("ORDER BY ");
        reveal_strlit("v.distance");
    }
}

/// Its text.
pub proof fn lemma_folders_query_text()
    ensures
        meaning::query_text(folders_query()) == "SELECT vc.file_path, vc.section_heading, vc.content, vc.para_folder, v.distance\n             FROM vault_chunk_vecs v\n             JOIN vault_chunks vc ON vc.id = v.rowid\n             WHERE v.embedding MATCH ?1 AND k = ?2 AND vc.para_folder IN (SELECT value FROM json_each(?3))\n             ORDER BY v.distance"@,
{
    let q = folders_query();
    lemma_folders_query_columns();
    lemma_folders_query_source();
    lemma_folders_query_tail();
    assert(meaning::query_text(q) =~= "SELECT vc.file_path, vc.section_heading, vc.content, vc.para_folder, v.distance\n             FROM vault_chunk_vecs v\n             JOIN vault_chunks vc ON vc.id = v.rowid\n             WHERE v.embedding MATCH ?1 AND k = ?2 AND vc.para_folder IN (SELECT value FROM json_each(?3))\n             ORDER BY v.distance"@) by {
        reveal_strlit("SELECT vc.file_path, vc.section_heading, vc.content, vc.para_folder, v.distance\n             FROM vault_chunk_vecs v\n             JOIN vault_chunks vc ON vc.id = v.rowid\n             WHERE v.embedding MATCH ?1 AND k = ?2 AND vc.para_folder IN (SELECT value FROM json_each(?3))\n             ORDER BY v.distance");
        reveal_strlit("SELECT ");
        reveal_strlit("FROM ");
        reveal_strlit("\n             ");
        reveal_strlit("vc.file_path, vc.section_heading, vc.content, vc.para_folder, v.distance");
        reveal_strlit("vault_chunk_vecs v\n             JOIN vault_chunks vc ON vc.id = v.rowid");
        reveal_strlit("\n             WHERE v.embedding MATCH ?1 AND k = ?2 AND vc.para_folder IN (SELECT value FROM json_each(?3))\n             ORDER BY v.distance");
    }
}

/// The search that is made.
pub open spec fn search_query(by_folder: bool) -> Query {
    if by_folder {
        folders_query()
    } else {
        everywhere_query()
    }
}

/// Its text.
pub proof fn lemma_search_query_text(by_folder: bool)
    ensures
        meaning::query_text(search_query(by_folder)) == retrieval::search_statement(by_folder),
{
    lemma_everywhere_query_text();
    lemma_folders_query_text();
    reveal_strlit("SELECT vc.file_path, vc.section_heading, vc.content, vc.para_folder, v.distance\n             FROM vault_chunk_vecs v\n             JOIN vault_chunks vc ON vc.id = v.rowid\n             WHERE v.embedding MATCH ?1 AND k = ?2");
    reveal_strlit(" AND vc.para_folder IN (SELECT value FROM json_each(?3))");
    reveal_strlit("\n             ORDER BY v.distance");
    reveal_strlit("");
    reveal_strlit("SELECT vc.file_path, vc.section_heading, vc.content, vc.para_folder, v.distance\n             FROM vault_chunk_vecs v\n             JOIN vault_chunks vc ON vc.id = v.rowid\n             WHERE v.embedding MATCH ?1 AND k = ?2\n             ORDER BY v.distance");
    reveal_strlit("SELECT vc.file_path, vc.section_heading, vc.content, vc.para_folder, v.distance\n             FROM vault_chunk_vecs v\n             JOIN vault_chunks vc ON vc.id = v.rowid\n             WHERE v.embedding MATCH ?1 AND k = ?2 AND vc.para_folder IN (SELECT value FROM json_each(?3))\n             ORDER BY v.distance");
    if by_folder {
        assert(retrieval::search_statement(true) =~= "SELECT vc.file_path, vc.section_heading, vc.content, vc.para_folder, v.distance\n             FROM vault_chunk_vecs v\n             JOIN vault_chunks vc ON vc.id = v.rowid\n             WHERE v.embedding MATCH ?1 AND k = ?2 AND vc.para_folder IN (SELECT value FROM json_each(?3))\n             ORDER BY v.distance"@);
    } else {
        assert(retrieval::search_statement(false) =~= "SELECT vc.file_path, vc.section_heading, vc.content, vc.para_folder, v.distance\n             FROM vault_chunk_vecs v\n             JOIN vault_chunks vc ON vc.id = v.rowid\n             WHERE v.embedding MATCH ?1 AND k = ?2\n             ORDER BY v.distance"@);
    }
}

/// The database reads the strings of a JSON array as they were written.
pub open spec fn reads_json(db: Database) -> bool {
    forall|list: Seq<Seq<char>>, t: Seq<char>|
        #[trigger] json::json_strings(list) == Ok::<Seq<char>, Seq<char>>(t)
            ==> #[trigger] (db.json_items)(t) == list
}

/// A search is about the chunks that the index finds near the query; where
/// folders are given, about those of these folders and no others.
pub proof fn a_search_keeps_to_its_folders(
    db: Database,
    f: RetrievalFilters,
    query: Seq<u32>,
    found: Found,
)
    requires
        reads_json(db),
        f.para_folders is Some ==> retrieval::folders_json(f) is Ok,
    ensures
        meaning::query_text(search_query(f.para_folders is Some)) == retrieval::search_statement(
            f.para_folders is Some,
        ),
        meaning::meets_all(
            db,
            search_query(f.para_folders is Some).conditions,
            retrieval::search_values(f, query),
            found,
        ) <==> {
            &&& (db.index_finds)(
                found,
                meaning::column_of("v"@, "embedding"@),
                ValueText::Blob(retrieval::le_bytes_of(query)),
            )
            &&& meaning::value_of(found, meaning::column("k"@)) == retrieval::search_values(
                f,
                query,
            )[1]
            &&& f.para_folders matches Some(folders) ==> exists|i: int|
                0 <= i < folders@.len() && found["vc"@]["para_folder"@] == ValueText::Text(
                    (#[trigger] folders@[i])@,
                )
        },
{
    lemma_search_query_text(f.para_folders is Some);
    let q = search_query(f.para_folders is Some);
    let params = retrieval::search_values(f, query);
    let near = q.conditions[0];
    let count = q.conditions[1];
    assert(meaning::meets(db, near, params, found) <==> (db.index_finds)(
        found,
        meaning::column_of("v"@, "embedding"@),
        ValueText::Blob(retrieval::le_bytes_of(query)),
    ));
    assert(meaning::meets(db, count, params, found) <==> meaning::value_of(
        found,
        meaning::column("k"@),
    ) == params[1]);
    if let Some(folders) = f.para_folders {
        let within = q.conditions[2];
        let list = json::string_texts(folders@);
        let t = retrieval::folders_json(f)->Ok_0;
        assert(json::json_strings(list) == Ok::<Seq<char>, Seq<char>>(t));
        assert((db.json_items)(t) == list);
        assert(params[2] == ValueText::Text(t));
        let value = found["vc"@]["para_folder"@];
        if meaning::meets(db, within, params, found) {
            let i = choose|i: int| 0 <= i < list.len() && list[i] == value->Text_0;
            assert(folders@[i]@ == value->Text_0);
        }
        if exists|i: int|
            0 <= i < folders@.len() && value == ValueText::Text((#[trigger] folders@[i])@) {
            let i = choose|i: int|
                0 <= i < folders@.len() && value == ValueText::Text((#[trigger] folders@[i])@);
            assert(list[i] == folders@[i]@);
            assert(list.contains(folders@[i]@));
        }
        assert(q.conditions =~= seq![near, count, within]);
        if meaning::meets_all(db, q.conditions, params, found) {
            assert(meaning::meets(db, q.conditions[0], params, found));
            assert(meaning::meets(db, q.conditions[1], params, found));
            assert(meaning::meets(db, q.conditions[2], params, found));
        }
    } else {
        assert(q.conditions =~= seq![near, count]);
        if meaning::meets_all(db, q.conditions, params, found) {
            assert(meaning::meets(db, q.conditions[0], params, found));
            assert(meaning::meets(db, q.conditions[1], params, found));
        }
    }
}

/// What a search finds is a stored chunk with its own vector, the nearest come
/// first, and all that the index gives comes.
pub proof fn a_search_comes_nearest_first(
    db: Database,
    f: RetrievalFilters,
    query: Seq<u32>,
    all: Seq<Found>,
    i: int,
)
    requires
        meaning::lists(
            db,
            search_query(f.para_folders is Some),
            retrieval::search_values(f, query),
            all,
        ),
        0 <= i < all.len(),
    ensures
        meaning::query_text(search_query(f.para_folders is Some)) == retrieval::search_statement(
            f.para_folders is Some,
        ),
        db.tables["vault_chunks"@].contains(all[i]["vc"@]),
        db.tables["vault_chunk_vecs"@].contains(all[i]["v"@]),
        all[i]["vc"@]["id"@] == all[i]["v"@]["rowid"@],
        meaning::given(
            search_query(f.para_folders is Some),
            retrieval::search_values(f, query),
            all,
        ) == all,
        forall|k: int|
            #![trigger all[k]]
            i < k < all.len() ==> {
                let near = all[i]["v"@]["distance"@];
                let far = all[k]["v"@]["distance"@];
                meaning::value_less(db, near, far) || !meaning::value_less(db, far, near)
            },
{
    lemma_search_query_text(f.para_folders is Some);
    let q = search_query(f.para_folders is Some);
    let params = retrieval::search_values(f, query);
    assert(all.contains(all[i]));
    assert(meaning::admits(db, q, params, all[i]));
    assert forall|k: int| i < k < all.len() implies {
        let near = all[i]["v"@]["distance"@];
        let far = (#[trigger] all[k])["v"@]["distance"@];
        meaning::value_less(db, near, far) || !meaning::value_less(db, far, near)
    } by {
        assert(meaning::sorted_so(db, q.order, all[i], all[k]));
        assert(q.order[0] == (meaning::column_of("v"@, "distance"@), Direction::Plain));
    }
}

/// Enough chunks are asked of the index: as many as are to be returned at least,
/// and twenty at least, so that a few more are there than are needed.
pub proof fn enough_chunks_are_asked_for(top_k: usize)
    ensures
        retrieval::fetch_count(top_k) >= top_k,
        retrieval::fetch_count(top_k) >= 20,
        5 < top_k <= usize::MAX / 4 ==> retrieval::fetch_count(top_k) == 4 * top_k,
        top_k <= 5 ==> retrieval::fetch_count(top_k) == 20,
{
}

/// The numbers of a vector are stored in four bytes each, the least byte first.
pub proof fn the_least_byte_comes_first(v: Seq<u32>, i: int)
    requires
        0 <= i < v.len(),
    ensures
        ({
            let b = retrieval::le_bytes_of(v);
            &&& b.len() == 4 * v.len()
            &&& v[i] == b[4 * i] + 256 * b[4 * i + 1] + 65536 * b[4 * i + 2] + 16777216 * b[4 * i
                + 3]
        }),
{
    retrieval::bytes_give_back_numbers(v, i);
    let b = retrieval::le_bytes_of(v);
    let s = b.subrange(4 * i, 4 * i + 4);
    assert(s[0] == b[4 * i] && s[1] == b[4 * i + 1] && s[2] == b[4 * i + 2] && s[3] == b[4 * i
        + 3]);
}

} // verus!
