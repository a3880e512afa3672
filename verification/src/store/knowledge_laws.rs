//! What the statements about the knowledge base do.
use vstd::prelude::*;

use crate::knowledge::retrieval;
use crate::knowledge::yaml;
use crate::store::knowledge;
use crate::store::knowledge::{
    IndexedFile, UpsertStep, FIND_PERSON, INSERT_ADDRESS, INSERT_CHUNK, INSERT_FILE, INSERT_PERSON,
    INSERT_VECTOR,
};
use crate::store::meaning;
use crate::store::meaning::{
    Column, Condition, Conflict, Database, Delete, Direction, Found, Insert, Operand, Query, Row,
    Selected, Source, Written,
};
use crate::store::sql::ValueText;

verus! {

// ---------------------------------------------------------------------------
// Storing a file
// ---------------------------------------------------------------------------

/// The statement that stores a file.
pub open spec fn file_insert() -> Insert {
    Insert {
        table: "vault_files"@,
        columns: seq![
            "path"@,
            "content_hash"@,
            "mtime_secs"@,
            "frontmatter_json"@,
            "para_folder"@,
        ],
        values: meaning::parameters(5),
        conflict: Conflict::Fail,
        gap: "\n             "@,
    }
}

/// The columns of its text.
proof fn lemma_file_insert_columns()
    ensures
        meaning::listed(file_insert().columns, ", "@) == "path, content_hash, mtime_secs, frontmatter_json, para_folder"@,
{
    reveal_strlit("path, content_hash, mtime_secs, frontmatter_json, para_folder");
    reveal_strlit(", ");
    reveal_strlit("path");
    reveal_strlit("content_hash");
    reveal_strlit("mtime_secs");
    reveal_strlit("frontmatter_json");
    reveal_strlit("para_folder");
    reveal_with_fuel(meaning::listed, 6);
    assert(meaning::listed(file_insert().columns, ", "@) =~= "path, content_hash, mtime_secs, frontmatter_json, para_folder"@);
}

/// The values of its text.
proof fn lemma_file_insert_values()
    ensures
        meaning::listed(
            file_insert().values.map_values(|w: Written| meaning::written_text(w)),
            ", "@,
        ) == "?1, ?2, ?3, ?4, ?5"@,
{
    let values = file_insert().values.map_values(|w: Written| meaning::written_text(w));
    meaning::lemma_small_numbers();
    reveal_strlit("?1, ?2, ?3, ?4, ?5");
    reveal_strlit(", ");
    reveal_strlit("?");
    reveal_strlit("1");
    reveal_strlit("2");
    reveal_strlit("3");
    reveal_strlit("4");
    reveal_strlit("5");
    reveal_with_fuel(meaning::listed, 6);
    assert(meaning::listed(values, ", "@) =~= "?1, ?2, ?3, ?4, ?5"@);
}

/// Its text.
#[verifier::spinoff_prover]
pub proof fn lemma_file_insert_text()
    ensures
        meaning::insert_text(file_insert()) == INSERT_FILE@,
{
    let i = file_insert();
    lemma_file_insert_columns();
    lemma_file_insert_values();
    assert(meaning::insert_text(i) =~= INSERT_FILE@) by {
        reveal_strlit("INSERT INTO vault_files (path, content_hash, mtime_secs, frontmatter_json, para_folder)\n             VALUES (?1, ?2, ?3, ?4, ?5)");
        reveal_strlit("path, content_hash, mtime_secs, frontmatter_json, para_folder");
        reveal_strlit("?1, ?2, ?3, ?4, ?5");
        reveal_strlit("INSERT INTO ");
        reveal_strlit(" (");
        reveal_strlit(")");
        reveal_strlit("\n             ");
        reveal_strlit("VALUES (");
        reveal_strlit("vault_files");
    }
}

/// The statement that stores a chunk.
pub open spec fn chunk_insert() -> Insert {
    Insert {
        table: "vault_chunks"@,
        columns: seq![
            "file_path"@,
            "section_heading"@,
            "chunk_index"@,
            "content"@,
            "token_count"@,
            "para_folder"@,
        ],
        values: meaning::parameters(6),
        conflict: Conflict::Fail,
        gap: "\n                 "@,
    }
}

/// The columns of its text.
proof fn lemma_chunk_insert_columns()
    ensures
        meaning::listed(chunk_insert().columns, ", "@) == "file_path, section_heading, chunk_index, content, token_count, para_folder"@,
{
    reveal_strlit("file_path, section_heading, chunk_index, content, token_count, para_folder");
    reveal_strlit(", ");
    reveal_strlit("file_path");
    reveal_strlit("section_heading");
    reveal_strlit("chunk_index");
    reveal_strlit("content");
    reveal_strlit("token_count");
    reveal_strlit("para_folder");
    reveal_with_fuel(meaning::listed, 7);
    assert(meaning::listed(chunk_insert().columns, ", "@) =~= "file_path, section_heading, chunk_index, content, token_count, para_folder"@);
}

/// The values of its text.
proof fn lemma_chunk_insert_values()
    ensures
        meaning::listed(
            chunk_insert().values.map_values(|w: Written| meaning::written_text(w)),
            ", "@,
        ) == "?1, ?2, ?3, ?4, ?5, ?6"@,
{
    let values = chunk_insert().values.map_values(|w: Written| meaning::written_text(w));
    meaning::lemma_small_numbers();
    reveal_strlit("?1, ?2, ?3, ?4, ?5, ?6");
    reveal_strlit(", ");
    reveal_strlit("?");
    reveal_strlit("1");
    reveal_strlit("2");
    reveal_strlit("3");
    reveal_strlit("4");
    reveal_strlit("5");
    reveal_strlit("6");
    reveal_with_fuel(meaning::listed, 7);
    assert(meaning::listed(values, ", "@) =~= "?1, ?2, ?3, ?4, ?5, ?6"@);
}

/// Its text.
#[verifier::spinoff_prover]
pub proof fn lemma_chunk_insert_text()
    ensures
        meaning::insert_text(chunk_insert()) == INSERT_CHUNK@,
{
    let i = chunk_insert();
    lemma_chunk_insert_columns();
    lemma_chunk_insert_values();
    assert(meaning::insert_text(i) =~= INSERT_CHUNK@) by {
        reveal_strlit("INSERT INTO vault_chunks (file_path, section_heading, chunk_index, content, token_count, para_folder)\n                 VALUES (?1, ?2, ?3, ?4, ?5, ?6)");
        reveal_strlit("file_path, section_heading, chunk_index, content, token_count, para_folder");
        reveal_strlit("?1, ?2, ?3, ?4, ?5, ?6");
        reveal_strlit("INSERT INTO ");
        reveal_strlit(" (");
        reveal_strlit(")");
        reveal_strlit("\n                 ");
        reveal_strlit("VALUES (");
        reveal_strlit("vault_chunks");
    }
}

/// The statement that stores the vector of a chunk.
pub open spec fn vector_insert() -> Insert {
    Insert {
        table: "vault_chunk_vecs"@,
        columns: seq!["rowid"@, "embedding"@],
        values: meaning::parameters(2),
        conflict: Conflict::Fail,
        gap: " "@,
    }
}

/// The columns of its text.
proof fn lemma_vector_insert_columns()
    ensures
        meaning::listed(vector_insert().columns, ", "@) == "rowid, embedding"@,
{
    reveal_strlit("rowid, embedding");
    reveal_strlit(", ");
    reveal_strlit("rowid");
    reveal_strlit("embedding");
    reveal_with_fuel(meaning::listed, 3);
    assert(meaning::listed(vector_insert().columns, ", "@) =~= "rowid, embedding"@);
}

/// The values of its text.
proof fn lemma_vector_insert_values()
    ensures
        meaning::listed(
            vector_insert().values.map_values(|w: Written| meaning::written_text(w)),
            ", "@,
        ) == "?1, ?2"@,
{
    let values = vector_insert().values.map_values(|w: Written| meaning::written_text(w));
    meaning::lemma_small_numbers();
    reveal_strlit("?1, ?2");
    reveal_strlit(", ");
    reveal_strlit("?");
    reveal_strlit("1");
    reveal_strlit("2");
    reveal_with_fuel(meaning::listed, 3);
    assert(meaning::listed(values, ", "@) =~= "?1, ?2"@);
}

/// Its text.
#[verifier::spinoff_prover]
pub proof fn lemma_vector_insert_text()
    ensures
        meaning::insert_text(vector_insert()) == INSERT_VECTOR@,
{
    let i = vector_insert();
    lemma_vector_insert_columns();
    lemma_vector_insert_values();
    assert(meaning::insert_text(i) =~= INSERT_VECTOR@) by {
        reveal_strlit("INSERT INTO vault_chunk_vecs (rowid, embedding) VALUES (?1, ?2)");
        reveal_strlit("rowid, embedding");
        reveal_strlit("?1, ?2");
        reveal_strlit("INSERT INTO ");
        reveal_strlit(" (");
        reveal_strlit(")");
        reveal_strlit(" ");
        reveal_strlit("VALUES (");
        reveal_strlit("vault_chunk_vecs");
    }
}

/// The statement that stores a person.
pub open spec fn person_insert() -> Insert {
    Insert {
        table: "vault_people"@,
        columns: seq![
            "file_path"@,
            "name"@,
            "role"@,
            "tags_json"@,
            "last_contact"@,
            "frontmatter_json"@,
        ],
        values: meaning::parameters(6),
        conflict: Conflict::Fail,
        gap: "\n                 "@,
    }
}

/// The columns of its text.
proof fn lemma_person_insert_columns()
    ensures
        meaning::listed(person_insert().columns, ", "@) == "file_path, name, role, tags_json, last_contact, frontmatter_json"@,
{
    reveal_strlit("file_path, name, role, tags_json, last_contact, frontmatter_json");
    reveal_strlit(", ");
    reveal_strlit("file_path");
    reveal_strlit("name");
    reveal_strlit("role");
    reveal_strlit("tags_json");
    reveal_strlit("last_contact");
    reveal_strlit("frontmatter_json");
    reveal_with_fuel(meaning::listed, 7);
    assert(meaning::listed(person_insert().columns, ", "@) =~= "file_path, name, role, tags_json, last_contact, frontmatter_json"@);
}

/// The values of its text.
proof fn lemma_person_insert_values()
    ensures
        meaning::listed(
            person_insert().values.map_values(|w: Written| meaning::written_text(w)),
            ", "@,
        ) == "?1, ?2, ?3, ?4, ?5, ?6"@,
{
    let values = person_insert().values.map_values(|w: Written| meaning::written_text(w));
    meaning::lemma_small_numbers();
    reveal_strlit("?1, ?2, ?3, ?4, ?5, ?6");
    reveal_strlit(", ");
    reveal_strlit("?");
    reveal_strlit("1");
    reveal_strlit("2");
    reveal_strlit("3");
    reveal_strlit("4");
    reveal_strlit("5");
    reveal_strlit("6");
    reveal_with_fuel(meaning::listed, 7);
    assert(meaning::listed(values, ", "@) =~= "?1, ?2, ?3, ?4, ?5, ?6"@);
}

/// Its text.
#[verifier::spinoff_prover]
pub proof fn lemma_person_insert_text()
    ensures
        meaning::insert_text(person_insert()) == INSERT_PERSON@,
{
    let i = person_insert();
    lemma_person_insert_columns();
    lemma_person_insert_values();
    assert(meaning::insert_text(i) =~= INSERT_PERSON@) by {
        reveal_strlit("INSERT INTO vault_people (file_path, name, role, tags_json, last_contact, frontmatter_json)\n                 VALUES (?1, ?2, ?3, ?4, ?5, ?6)");
        reveal_strlit("file_path, name, role, tags_json, last_contact, frontmatter_json");
        reveal_strlit("?1, ?2, ?3, ?4, ?5, ?6");
        reveal_strlit("INSERT INTO ");
        reveal_strlit(" (");
        reveal_strlit(")");
        reveal_strlit("\n                 ");
        reveal_strlit("VALUES (");
        reveal_strlit("vault_people");
    }
}

/// The statement that stores an address of a person.
pub open spec fn address_insert() -> Insert {
    Insert {
        table: "vault_people_addresses"@,
        columns: seq!["person_id"@, "channel_type"@, "address"@],
        values: meaning::parameters(3),
        conflict: Conflict::Ignore,
        gap: "\n                     "@,
    }
}

/// The columns of its text.
proof fn lemma_address_insert_columns()
    ensures
        meaning::listed(address_insert().columns, ", "@) == "person_id, channel_type, address"@,
{
    reveal_strlit("person_id, channel_type, address");
    reveal_strlit(", ");
    reveal_strlit("person_id");
    reveal_strlit("channel_type");
    reveal_strlit("address");
    reveal_with_fuel(meaning::listed, 4);
    assert(meaning::listed(address_insert().columns, ", "@) =~= "person_id, channel_type, address"@);
}

/// The values of its text.
proof fn lemma_address_insert_values()
    ensures
        meaning::listed(
            address_insert().values.map_values(|w: Written| meaning::written_text(w)),
            ", "@,
        ) == "?1, ?2, ?3"@,
{
    let values = address_insert().values.map_values(|w: Written| meaning::written_text(w));
    meaning::lemma_small_numbers();
    reveal_strlit("?1, ?2, ?3");
    reveal_strlit(", ");
    reveal_strlit("?");
    reveal_strlit("1");
    reveal_strlit("2");
    reveal_strlit("3");
    reveal_with_fuel(meaning::listed, 4);
    assert(meaning::listed(values, ", "@) =~= "?1, ?2, ?3"@);
}

/// Its text.
#[verifier::spinoff_prover]
pub proof fn lemma_address_insert_text()
    ensures
        meaning::insert_text(address_insert()) == INSERT_ADDRESS@,
{
    let i = address_insert();
    lemma_address_insert_columns();
    lemma_address_insert_values();
    assert(meaning::insert_text(i) =~= INSERT_ADDRESS@) by {
        reveal_strlit("INSERT OR IGNORE INTO vault_people_addresses (person_id, channel_type, address)\n                     VALUES (?1, ?2, ?3)");
        reveal_strlit("person_id, channel_type, address");
        reveal_strlit("?1, ?2, ?3");
        reveal_strlit("INSERT OR IGNORE INTO ");
        reveal_strlit(" (");
        reveal_strlit(")");
        reveal_strlit("\n                     ");
        reveal_strlit("VALUES (");
        reveal_strlit("vault_people_addresses");
    }
}

/// A file is stored field by field: its path, its hash, when it was changed, its
/// frontmatter as JSON, and its folder.
pub proof fn a_file_is_stored_field_by_field(f: IndexedFile, old: Seq<i64>, stored_at: i64, now: ValueText)
    ensures
        meaning::insert_text(file_insert()) == knowledge::step_sql(UpsertStep::InsertFile),
        ({
            let row = meaning::new_row(file_insert(), knowledge::step_values(f, old, UpsertStep::InsertFile, stored_at), now);
            &&& row["path"@] == ValueText::Text(f.path@)
            &&& row["content_hash"@] == ValueText::Text(f.parsed.content_hash@)
            &&& row["mtime_secs"@] == ValueText::Integer(f.mtime_secs as int)
            &&& row["frontmatter_json"@] == (match f.parsed.frontmatter {
                Some(v) => ValueText::Text(yaml::tree_json(v)->Ok_0),
                None => ValueText::Null,
            })
            &&& row["para_folder"@] == (match f.para_folder {
                Some(t) => ValueText::Text(t@),
                None => ValueText::Null,
            })
        }),
{
    lemma_file_insert_text();
    reveal_strlit("path");
    reveal_strlit("content_hash");
    reveal_strlit("mtime_secs");
    reveal_strlit("frontmatter_json");
    reveal_strlit("para_folder");
    assert("path"@.len() == 4);
    assert("content_hash"@.len() == 12);
    assert("mtime_secs"@.len() == 10);
    assert("frontmatter_json"@.len() == 16);
    assert("para_folder"@.len() == 11);
    reveal_with_fuel(meaning::filled, 6);
}

/// A section is stored as a chunk of its file: heading, place, content, tokens and
/// the folder of the file are its own.
pub proof fn a_section_is_stored_field_by_field(f: IndexedFile, old: Seq<i64>, i: usize, stored_at: i64, now: ValueText)
    requires
        i <= i64::MAX,
        f.parsed.sections@[i as int].tokens <= i64::MAX,
    ensures
        meaning::insert_text(chunk_insert()) == knowledge::step_sql(UpsertStep::InsertChunk(i)),
        ({
            let row = meaning::new_row(chunk_insert(), knowledge::step_values(f, old, UpsertStep::InsertChunk(i), stored_at), now);
            &&& row["file_path"@] == ValueText::Text(f.path@)
            &&& row["section_heading"@] == (match f.parsed.sections@[i as int].heading {
                Some(t) => ValueText::Text(t@),
                None => ValueText::Null,
            })
            &&& row["chunk_index"@] == ValueText::Integer(i as int)
            &&& row["content"@] == ValueText::Text(f.parsed.sections@[i as int].content@)
            &&& row["token_count"@] == ValueText::Integer(f.parsed.sections@[i as int].tokens as int)
            &&& row["para_folder"@] == (match f.para_folder {
                Some(t) => ValueText::Text(t@),
                None => ValueText::Null,
            })
        }),
{
    lemma_chunk_insert_text();
    reveal_strlit("file_path");
    reveal_strlit("section_heading");
    reveal_strlit("chunk_index");
    reveal_strlit("content");
    reveal_strlit("token_count");
    reveal_strlit("para_folder");
    assert("file_path"@.len() == 9);
    assert("section_heading"@.len() == 15);
    assert("chunk_index"@.len() == 11);
    assert("content"@.len() == 7);
    assert("token_count"@.len() == 11);
    assert("para_folder"@.len() == 11);
    assert("chunk_index"@[0] == 'c');
    assert("token_count"@[0] == 't');
    assert("para_folder"@[0] == 'p');
    reveal_with_fuel(meaning::filled, 7);
}

/// The vector of a section is stored under the row of its chunk, as the bytes of
/// its numbers.
pub proof fn a_vector_is_stored_under_its_chunk(f: IndexedFile, old: Seq<i64>, i: usize, stored_at: i64, now: ValueText)
    ensures
        meaning::insert_text(vector_insert()) == knowledge::step_sql(UpsertStep::InsertVector(i)),
        ({
            let row = meaning::new_row(vector_insert(), knowledge::step_values(f, old, UpsertStep::InsertVector(i), stored_at), now);
            &&& row["rowid"@] == ValueText::Integer(stored_at as int)
            &&& row["embedding"@] == ValueText::Blob(retrieval::le_bytes_of(f.chunk_embeddings@[i as int]@))
        }),
{
    lemma_vector_insert_text();
    reveal_strlit("rowid");
    reveal_strlit("embedding");
    assert("rowid"@.len() == 5);
    assert("embedding"@.len() == 9);
    reveal_with_fuel(meaning::filled, 3);
}

/// A person is stored field by field.
pub proof fn a_person_is_stored_field_by_field(f: IndexedFile, old: Seq<i64>, stored_at: i64, now: ValueText)
    requires
        f.person is Some,
    ensures
        meaning::insert_text(person_insert()) == knowledge::step_sql(UpsertStep::InsertPerson),
        ({
            let row = meaning::new_row(person_insert(), knowledge::step_values(f, old, UpsertStep::InsertPerson, stored_at), now);
            &&& row["file_path"@] == ValueText::Text(f.person->0.file_path@)
            &&& row["name"@] == ValueText::Text(f.person->0.name@)
            &&& row["role"@] == (match f.person->0.role {
                Some(t) => ValueText::Text(t@),
                None => ValueText::Null,
            })
            &&& row["tags_json"@] == ValueText::Text(knowledge::tags_json(f)->Ok_0)
            &&& row["last_contact"@] == (match f.person->0.last_contact {
                Some(t) => ValueText::Text(t@),
                None => ValueText::Null,
            })
            &&& row["frontmatter_json"@] == ValueText::Text(yaml::tree_json(*f.person->0.frontmatter)->Ok_0)
        }),
{
    lemma_person_insert_text();
    reveal_strlit("file_path");
    reveal_strlit("name");
    reveal_strlit("role");
    reveal_strlit("tags_json");
    reveal_strlit("last_contact");
    reveal_strlit("frontmatter_json");
    assert("file_path"@.len() == 9);
    assert("name"@.len() == 4);
    assert("role"@.len() == 4);
    assert("tags_json"@.len() == 9);
    assert("last_contact"@.len() == 12);
    assert("frontmatter_json"@.len() == 16);
    assert("file_path"@[0] == 'f');
    assert("name"@[0] == 'n');
    assert("role"@[0] == 'r');
    assert("tags_json"@[0] == 't');
    reveal_with_fuel(meaning::filled, 7);
}

/// An address is stored under the row of its person, with its channel.
pub proof fn an_address_is_stored_under_its_person(f: IndexedFile, old: Seq<i64>, i: usize, stored_at: i64, now: ValueText)
    requires
        f.person is Some,
    ensures
        meaning::insert_text(address_insert()) == knowledge::step_sql(UpsertStep::InsertAddress(i)),
        ({
            let row = meaning::new_row(address_insert(), knowledge::step_values(f, old, UpsertStep::InsertAddress(i), stored_at), now);
            &&& row["person_id"@] == ValueText::Integer(stored_at as int)
            &&& row["channel_type"@] == ValueText::Text(f.person->0.addresses@[i as int].channel@)
            &&& row["address"@] == ValueText::Text(f.person->0.addresses@[i as int].address@)
        }),
{
    lemma_address_insert_text();
    reveal_strlit("person_id");
    reveal_strlit("channel_type");
    reveal_strlit("address");
    assert("person_id"@.len() == 9);
    assert("channel_type"@.len() == 12);
    assert("address"@.len() == 7);
    reveal_with_fuel(meaning::filled, 4);
}

// ---------------------------------------------------------------------------
// Taking a file away
// ---------------------------------------------------------------------------

/// The statement that takes a vector away.
pub open spec fn vector_delete() -> Delete {
    Delete {
        table: "vault_chunk_vecs"@,
        conditions: seq![Condition::Equal(meaning::column("rowid"@), Operand::Parameter(1))],
    }
}

/// Its text.
pub proof fn lemma_vector_delete_text()
    ensures
        meaning::delete_text(vector_delete()) == "DELETE FROM vault_chunk_vecs WHERE rowid = ?1"@,
{
    let d = vector_delete();
    meaning::lemma_small_numbers();
    let conditions = d.conditions.map_values(|c: Condition| meaning::condition_text(c));
    assert(conditions =~= seq![meaning::condition_text(d.conditions[0])]);
    assert(meaning::condition_text(d.conditions[0]) =~= "rowid = ?1"@) by {
        reveal_strlit("rowid = ?1");
        reveal_strlit("rowid");
        reveal_strlit(" = ");
        reveal_strlit("?");
        reveal_strlit("1");
    }
    assert(meaning::conditions_text(d.conditions) =~= "rowid = ?1"@) by {
        reveal_strlit("rowid = ?1");
        reveal_strlit(" AND ");
        reveal_with_fuel(meaning::listed, 2);
    }
    assert(meaning::delete_text(d) =~= "DELETE FROM vault_chunk_vecs WHERE rowid = ?1"@) by {
        reveal_strlit("DELETE FROM vault_chunk_vecs WHERE rowid = ?1");
        reveal_strlit("rowid = ?1");
        reveal_strlit("DELETE FROM ");
        reveal_strlit(" WHERE ");
        reveal_strlit("vault_chunk_vecs");
    }
}

/// The statement that takes a file away.
pub open spec fn file_delete() -> Delete {
    Delete {
        table: "vault_files"@,
        conditions: seq![Condition::Equal(meaning::column("path"@), Operand::Parameter(1))],
    }
}

/// Its text.
pub proof fn lemma_file_delete_text()
    ensures
        meaning::delete_text(file_delete()) == "DELETE FROM vault_files WHERE path = ?1"@,
{
    let d = file_delete();
    meaning::lemma_small_numbers();
    let conditions = d.conditions.map_values(|c: Condition| meaning::condition_text(c));
    assert(conditions =~= seq![meaning::condition_text(d.conditions[0])]);
    assert(meaning::condition_text(d.conditions[0]) =~= "path = ?1"@) by {
        reveal_strlit("path = ?1");
        reveal_strlit("path");
        reveal_strlit(" = ");
        reveal_strlit("?");
        reveal_strlit("1");
    }
    assert(meaning::conditions_text(d.conditions) =~= "path = ?1"@) by {
        reveal_strlit("path = ?1");
        reveal_strlit(" AND ");
        reveal_with_fuel(meaning::listed, 2);
    }
    assert(meaning::delete_text(d) =~= "DELETE FROM vault_files WHERE path = ?1"@) by {
        reveal_strlit("DELETE FROM vault_files WHERE path = ?1");
        reveal_strlit("path = ?1");
        reveal_strlit("DELETE FROM ");
        reveal_strlit(" WHERE ");
        reveal_strlit("vault_files");
    }
}

/// Taking a vector away takes the one of that row and no other.
pub proof fn only_that_vector_is_taken_away(db: Database, f: IndexedFile, old: Seq<i64>, i: usize, row: i64, r: Row)
    ensures
        meaning::delete_text(vector_delete()) == knowledge::step_sql(UpsertStep::ClearVector(i)),
        meaning::survives(db, vector_delete(), knowledge::step_values(f, old, UpsertStep::ClearVector(i), row), r) <==> r["rowid"@] != ValueText::Integer(old[i as int] as int),
{
    lemma_vector_delete_text();
    let d = vector_delete();
    meaning::lemma_alone(r, "rowid"@);
    meaning::lemma_one_condition(db, d.conditions[0], knowledge::step_values(f, old, UpsertStep::ClearVector(i), row), meaning::alone(r));
    assert(d.conditions =~= seq![d.conditions[0]]);
}

/// Taking a file away takes the one with the path and no other.
pub proof fn only_that_file_is_taken_away(db: Database, f: IndexedFile, old: Seq<i64>, row: i64, r: Row)
    ensures
        meaning::delete_text(file_delete()) == knowledge::step_sql(UpsertStep::ClearFile),
        meaning::survives(db, file_delete(), knowledge::step_values(f, old, UpsertStep::ClearFile, row), r) <==> r["path"@] != ValueText::Text(f.path@),
{
    lemma_file_delete_text();
    let d = file_delete();
    meaning::lemma_alone(r, "path"@);
    meaning::lemma_one_condition(db, d.conditions[0], knowledge::step_values(f, old, UpsertStep::ClearFile, row), meaning::alone(r));
    assert(d.conditions =~= seq![d.conditions[0]]);
}

// ---------------------------------------------------------------------------
// Asking
// ---------------------------------------------------------------------------

/// The query for the chunks of a file.
pub open spec fn chunks_query() -> Query {
    Query {
        selected: Selected::Columns(
            seq![meaning::column("id"@)],
        ),
        source: Source::Table("vault_chunks"@),
        conditions: seq![Condition::Equal(meaning::column("file_path"@), Operand::Parameter(1))],
        order: Seq::empty(),
        limit: None,
        offset: None,
        gap: " "@,
    }
}

/// The columns of its text.
proof fn lemma_chunks_query_columns()
    ensures
        meaning::selected_text(chunks_query().selected) == "id"@,
{
    let columns = chunks_query().selected->Columns_0.map_values(|c: Column| meaning::column_text(c));
    assert(columns =~= seq!["id"@]);
    reveal_strlit("id");
    reveal_strlit(", ");
    reveal_with_fuel(meaning::listed, 2);
    assert(meaning::listed(columns, ", "@) =~= "id"@);
}

/// The conditions of its text.
proof fn lemma_chunks_query_conditions()
    ensures
        meaning::conditions_text(chunks_query().conditions) == "file_path = ?1"@,
{
    let q = chunks_query();
    meaning::lemma_small_numbers();
    let conditions = q.conditions.map_values(|c: Condition| meaning::condition_text(c));
    assert(conditions =~= seq![meaning::condition_text(q.conditions[0])]);
    assert(meaning::condition_text(q.conditions[0]) =~= "file_path = ?1"@) by {
        reveal_strlit("file_path = ?1");
        reveal_strlit("file_path");
        reveal_strlit(" = ");
        reveal_strlit("?");
        reveal_strlit("1");
    }
    assert(meaning::conditions_text(q.conditions) =~= "file_path = ?1"@) by {
        reveal_strlit("file_path = ?1");
        reveal_strlit(" AND ");
        reveal_with_fuel(meaning::listed, 2);
    }
}

/// The end of its text.
proof fn lemma_chunks_query_tail()
    ensures
        meaning::tail_text(chunks_query()) == " WHERE file_path = ?1"@,
{
    let q = chunks_query();
    lemma_chunks_query_conditions();
    assert(meaning::tail_text(q) =~= " WHERE file_path = ?1"@) by {
        reveal_strlit(" WHERE file_path = ?1");
        reveal_strlit(" ");
        reveal_strlit("WHERE ");
        reveal_strlit("file_path = ?1");
    }
}

/// Its text.
pub proof fn lemma_chunks_query_text()
    ensures
        meaning::query_text(chunks_query()) == "SELECT id FROM vault_chunks WHERE file_path = ?1"@,
{
    let q = chunks_query();
    lemma_chunks_query_columns();
    lemma_chunks_query_tail();
    assert(meaning::query_text(q) =~= "SELECT id FROM vault_chunks WHERE file_path = ?1"@) by {
        reveal_strlit("SELECT id FROM vault_chunks WHERE file_path = ?1");
        reveal_strlit("SELECT ");
        reveal_strlit("FROM ");
        reveal_strlit(" ");
        reveal_strlit("id");
        reveal_strlit("vault_chunks");
        reveal_strlit(" WHERE file_path = ?1");
    }
}

/// The query for the hash of a file.
pub open spec fn hash_query() -> Query {
    Query {
        selected: Selected::Columns(
            seq![meaning::column("content_hash"@)],
        ),
        source: Source::Table("vault_files"@),
        conditions: seq![Condition::Equal(meaning::column("path"@), Operand::Parameter(1))],
        order: Seq::empty(),
        limit: None,
        offset: None,
        gap: " "@,
    }
}

/// The columns of its text.
proof fn lemma_hash_query_columns()
    ensures
        meaning::selected_text(hash_query().selected) == "content_hash"@,
{
    let columns = hash_query().selected->Columns_0.map_values(|c: Column| meaning::column_text(c));
    assert(columns =~= seq!["content_hash"@]);
    reveal_strlit("content_hash");
    reveal_strlit(", ");
    reveal_with_fuel(meaning::listed, 2);
    assert(meaning::listed(columns, ", "@) =~= "content_hash"@);
}

/// The conditions of its text.
proof fn lemma_hash_query_conditions()
    ensures
        meaning::conditions_text(hash_query().conditions) == "path = ?1"@,
{
    let q = hash_query();
    meaning::lemma_small_numbers();
    let conditions = q.conditions.map_values(|c: Condition| meaning::condition_text(c));
    assert(conditions =~= seq![meaning::condition_text(q.conditions[0])]);
    assert(meaning::condition_text(q.conditions[0]) =~= "path = ?1"@) by {
        reveal_strlit("path = ?1");
        reveal_strlit("path");
        reveal_strlit(" = ");
        reveal_strlit("?");
        reveal_strlit("1");
    }
    assert(meaning::conditions_text(q.conditions) =~= "path = ?1"@) by {
        reveal_strlit("path = ?1");
        reveal_strlit(" AND ");
        reveal_with_fuel(meaning::listed, 2);
    }
}

/// The end of its text.
proof fn lemma_hash_query_tail()
    ensures
        meaning::tail_text(hash_query()) == " WHERE path = ?1"@,
{
    let q = hash_query();
    lemma_hash_query_conditions();
    assert(meaning::tail_text(q) =~= " WHERE path = ?1"@) by {
        reveal_strlit(" WHERE path = ?1");
        reveal_strlit(" ");
        reveal_strlit("WHERE ");
        reveal_strlit("path = ?1");
    }
}

/// Its text.
pub proof fn lemma_hash_query_text()
    ensures
        meaning::query_text(hash_query()) == "SELECT content_hash FROM vault_files WHERE path = ?1"@,
{
    let q = hash_query();
    lemma_hash_query_columns();
    lemma_hash_query_tail();
    assert(meaning::query_text(q) =~= "SELECT content_hash FROM vault_files WHERE path = ?1"@) by {
        reveal_strlit("SELECT content_hash FROM vault_files WHERE path = ?1");
        reveal_strlit("SELECT ");
        reveal_strlit("FROM ");
        reveal_strlit(" ");
        reveal_strlit("content_hash");
        reveal_strlit("vault_files");
        reveal_strlit(" WHERE path = ?1");
    }
}

/// The query for the person with an address on a channel.
pub open spec fn person_query() -> Query {
    Query {
        selected: Selected::Columns(
            seq![
                meaning::column_of("vp"@, "name"@),
                meaning::column_of("vp"@, "file_path"@),
            ],
        ),
        source: Source::Join {
            left: "vault_people_addresses"@,
            left_as: "vpa"@,
            right: "vault_people"@,
            right_as: "vp"@,
            on: (meaning::column_of("vp"@, "id"@), meaning::column_of("vpa"@, "person_id"@)),
        },
        conditions: seq![Condition::Equal(meaning::column_of("vpa"@, "channel_type"@), Operand::Parameter(1)), Condition::Equal(meaning::column_of("vpa"@, "address"@), Operand::Parameter(2))],
        order: Seq::empty(),
        limit: Some(Operand::Number(1)),
        offset: None,
        gap: "\n             "@,
    }
}

/// The columns of its text.
proof fn lemma_person_query_columns()
    ensures
        meaning::selected_text(person_query().selected) == "vp.name, vp.file_path"@,
{
    let columns = person_query().selected->Columns_0.map_values(|c: Column| meaning::column_text(c));
    assert(columns =~= seq![
        meaning::column_text(meaning::column_of("vp"@, "name"@)),
        meaning::column_text(meaning::column_of("vp"@, "file_path"@)),
    ]);
    assert(columns[0] =~= "vp.name"@) by {
        reveal_strlit("vp.name");
        reveal_strlit("vp");
        reveal_strlit("name");
        reveal_strlit(".");
    }
    assert(columns[1] =~= "vp.file_path"@) by {
        reveal_strlit("vp.file_path");
        reveal_strlit("vp");
        reveal_strlit("file_path");
        reveal_strlit(".");
    }
    reveal_strlit("vp.name, vp.file_path");
    reveal_strlit(", ");
    reveal_strlit("vp.name");
    reveal_strlit("vp.file_path");
    reveal_with_fuel(meaning::listed, 3);
    assert(meaning::listed(columns, ", "@) =~= "vp.name, vp.file_path"@);
}

/// What its text reads from.
proof fn lemma_person_query_source()
    ensures
        meaning::source_text(person_query().source, person_query().gap) == "vault_people_addresses vpa\n             JOIN vault_people vp ON vp.id = vpa.person_id"@,
{
    reveal_strlit("\n             ");
    reveal_strlit("vault_people_addresses");
    reveal_strlit("vpa");
    reveal_strlit("vault_people");
    reveal_strlit("vp");
    reveal_strlit(" ");
    reveal_strlit("JOIN ");
    reveal_strlit(" ON ");
    reveal_strlit(" = ");
    reveal_strlit("vault_people_addresses vpa\n             JOIN vault_people vp ON vp.id = vpa.person_id");
    reveal_strlit("id");
    reveal_strlit(".");
    reveal_strlit("person_id");
    assert(meaning::source_text(person_query().source, person_query().gap) =~= "vault_people_addresses vpa\n             JOIN vault_people vp ON vp.id = vpa.person_id"@);
}

/// The conditions of its text.
proof fn lemma_person_query_conditions()
    ensures
        meaning::conditions_text(person_query().conditions) == "vpa.channel_type = ?1 AND vpa.address = ?2"@,
{
    let q = person_query();
    meaning::lemma_small_numbers();
    let conditions = q.conditions.map_values(|c: Condition| meaning::condition_text(c));
    assert(conditions =~= seq![
        meaning::condition_text(q.conditions[0]),
        meaning::condition_text(q.conditions[1]),
    ]);
    assert(meaning::condition_text(q.conditions[0]) =~= "vpa.channel_type = ?1"@) by {
        reveal_strlit("vpa.channel_type = ?1");
        reveal_strlit("vpa");
        reveal_strlit("channel_type");
        reveal_strlit(".");
        reveal_strlit(" = ");
        reveal_strlit("?");
        reveal_strlit("1");
    }
    assert(meaning::condition_text(q.conditions[1]) =~= "vpa.address = ?2"@) by {
        reveal_strlit("vpa.address = ?2");
        reveal_strlit("vpa");
        reveal_strlit("address");
        reveal_strlit(".");
        reveal_strlit(" = ");
        reveal_strlit("?");
        reveal_strlit("2");
    }
    assert(meaning::conditions_text(q.conditions) =~= "vpa.channel_type = ?1 AND vpa.address = ?2"@) by {
        reveal_strlit("vpa.channel_type = ?1 AND vpa.address = ?2");
        reveal_strlit(" AND ");
        reveal_strlit("vpa.channel_type = ?1");
        reveal_strlit("vpa.address = ?2");
        reveal_with_fuel(meaning::listed, 3);
    }
}

/// The end of its text.
proof fn lemma_person_query_tail()
    ensures
        meaning::tail_text(person_query()) == "\n             WHERE vpa.channel_type = ?1 AND vpa.address = ?2\n             LIMIT 1"@,
{
    let q = person_query();
    meaning::lemma_small_numbers();
    lemma_person_query_conditions();
    assert(meaning::tail_text(q) =~= "\n             WHERE vpa.channel_type = ?1 AND vpa.address = ?2\n             LIMIT 1"@) by {
        reveal_strlit("\n             WHERE vpa.channel_type = ?1 AND vpa.address = ?2\n             LIMIT 1");
        reveal_strlit("\n             ");
        reveal_strlit("WHERE ");
        reveal_strlit("vpa.channel_type = ?1 AND vpa.address = ?2");
        reveal_strlit("LIMIT ");
        reveal_strlit("1");
    }
}

/// Its text.
pub proof fn lemma_person_query_text()
    ensures
        meaning::query_text(person_query()) == FIND_PERSON@,
{
    let q = person_query();
    lemma_person_query_columns();
    lemma_person_query_source();
    lemma_person_query_tail();
    assert(meaning::query_text(q) =~= FIND_PERSON@) by {
        reveal_strlit("SELECT vp.name, vp.file_path\n             FROM vault_people_addresses vpa\n             JOIN vault_people vp ON vp.id = vpa.person_id\n             WHERE vpa.channel_type = ?1 AND vpa.address = ?2\n             LIMIT 1");
        reveal_strlit("SELECT ");
        reveal_strlit("FROM ");
        reveal_strlit("\n             ");
        reveal_strlit("vp.name, vp.file_path");
        reveal_strlit("vault_people_addresses vpa\n             JOIN vault_people vp ON vp.id = vpa.person_id");
        reveal_strlit("\n             WHERE vpa.channel_type = ?1 AND vpa.address = ?2\n             LIMIT 1");
    }
}

/// The chunks of a file are those that were stored under its path.
pub proof fn chunks_are_those_of_the_file(db: Database, path: Seq<char>, r: Row)
    ensures
        meaning::query_text(chunks_query()) == "SELECT id FROM vault_chunks WHERE file_path = ?1"@,
        meaning::meets_all(db, chunks_query().conditions, seq![ValueText::Text(path)], meaning::alone(r)) <==> r["file_path"@] == ValueText::Text(path),
{
    lemma_chunks_query_text();
    meaning::lemma_alone(r, "file_path"@);
    meaning::lemma_one_condition(db, chunks_query().conditions[0], seq![ValueText::Text(path)], meaning::alone(r));
    assert(chunks_query().conditions =~= seq![chunks_query().conditions[0]]);
}

/// The hash that is stored of a file is asked for by its path.
pub proof fn the_hash_is_that_of_the_file(db: Database, path: Seq<char>, r: Row)
    ensures
        meaning::query_text(hash_query()) == "SELECT content_hash FROM vault_files WHERE path = ?1"@,
        meaning::meets_all(db, hash_query().conditions, seq![ValueText::Text(path)], meaning::alone(r)) <==> r["path"@] == ValueText::Text(path),
{
    lemma_hash_query_text();
    meaning::lemma_alone(r, "path"@);
    meaning::lemma_one_condition(db, hash_query().conditions[0], seq![ValueText::Text(path)], meaning::alone(r));
    assert(hash_query().conditions =~= seq![hash_query().conditions[0]]);
}

/// The person that is found by an address is one under whose row that address was
/// stored for that channel.
pub proof fn a_person_is_found_by_an_address(
    db: Database,
    channel: Seq<char>,
    address: Seq<char>,
    found: Found,
)
    ensures
        meaning::query_text(person_query()) == FIND_PERSON@,
        meaning::admits(
            db,
            person_query(),
            knowledge::person_values(channel, address),
            found,
        ) <==> {
            &&& db.tables["vault_people_addresses"@].contains(found["vpa"@])
            &&& db.tables["vault_people"@].contains(found["vp"@])
            &&& found == map!["vpa"@ => found["vpa"@], "vp"@ => found["vp"@]]
            &&& found["vp"@]["id"@] == found["vpa"@]["person_id"@]
            &&& !(found["vp"@]["id"@] is Null)
            &&& found["vpa"@]["channel_type"@] == ValueText::Text(channel)
            &&& found["vpa"@]["address"@] == ValueText::Text(address)
        },
{
    lemma_person_query_text();
    let q = person_query();
    let params = knowledge::person_values(channel, address);
    meaning::lemma_two_conditions(db, q.conditions[0], q.conditions[1], params, found);
    assert(q.conditions =~= seq![q.conditions[0], q.conditions[1]]);
}

} // verus!
