//! The stored knowledge base.
use vstd::prelude::*;
use vstd::string::StringExecFns;

use crate::error::CoreError;
use crate::json;
use crate::json::write_strings;
use crate::knowledge::parser::ParsedFile;
use crate::knowledge::people::VaultPerson;
use crate::knowledge::retrieval;
use crate::knowledge::retrieval::f32_slice_to_bytes;
use crate::knowledge::yaml;
use crate::store::knowledge_laws;
use crate::store::meaning;
use crate::store::sql;
use crate::store::sql::{
    optional_value, statement, text_value, SqlValue, Statement, ValueText,
};
use crate::text;
use crate::text::decimal_string;
use crate::types::message;

verus! {

/// What is stored of a file of the vault.
#[derive(Debug)]
pub struct IndexedFile<'a> {
    pub path: &'a str,
    pub mtime_secs: i64,
    pub para_folder: Option<&'a str>,
    pub parsed: &'a ParsedFile,
    /// The embedding of each section, by the bits of its numbers.
    pub chunk_embeddings: &'a Vec<Vec<u32>>,
    /// The person that the file describes.
    pub person: Option<&'a VaultPerson<'a>>,
}

/// The message for a file whose sections and embeddings are not as many.
pub open spec fn mismatch_text(sections: nat, embeddings: nat) -> Seq<char> {
    "chunk count mismatch: "@ + text::decimal(sections) + " sections, "@ + text::decimal(
        embeddings,
    ) + " embeddings"@
}

/// Each section has its embedding.
pub open spec fn embeddings_match(f: IndexedFile) -> bool {
    f.chunk_embeddings@.len() == f.parsed.sections@.len()
}

/// A file can be stored where each section has its embedding.
pub fn check_embeddings(f: &IndexedFile) -> (r: Result<(), CoreError>)
    ensures
        r is Ok <==> embeddings_match(*f),
        r is Err ==> (r->Err_0 matches CoreError::Knowledge(m) && m@ == mismatch_text(
            f.parsed.sections@.len(),
            f.chunk_embeddings@.len(),
        )),
{
    if f.chunk_embeddings.len() != f.parsed.sections.len() {
        let mut m = "chunk count mismatch: ".to_owned();
        m.append(decimal_string(f.parsed.sections.len() as u128).as_str());
        m.append(" sections, ");
        m.append(decimal_string(f.chunk_embeddings.len() as u128).as_str());
        m.append(" embeddings");
        Err(CoreError::Knowledge(m))
    } else {
        Ok(())
    }
}

// ---------------------------------------------------------------------------
// The steps that store a file
// ---------------------------------------------------------------------------

/// A step of storing a file.
#[derive(Clone, Copy, Debug, PartialEq, Eq, Structural)]
pub enum UpsertStep {
    /// Take away the vector of the `i`th chunk that was stored before.
    ClearVector(usize),
    /// Take away the file, and with it its chunks and its person.
    ClearFile,
    InsertFile,
    /// Store the `i`th chunk.
    InsertChunk(usize),
    /// Store the vector of the `i`th chunk, under the row of that chunk.
    InsertVector(usize),
    InsertPerson,
    /// Store the person's `i`th address, under the row of the person.
    InsertAddress(usize),
    Done,
}

/// The step for the chunk of index `i`, or what follows the last.
pub open spec fn chunk_step(f: IndexedFile, i: nat) -> UpsertStep {
    if i < f.parsed.sections@.len() {
        UpsertStep::InsertChunk(i as usize)
    } else if f.person is Some {
        UpsertStep::InsertPerson
    } else {
        UpsertStep::Done
    }
}

/// The step for the address of index `i`, or what follows the last.
pub open spec fn address_step(f: IndexedFile, i: nat) -> UpsertStep {
    if f.person matches Some(p) && i < p.addresses@.len() {
        UpsertStep::InsertAddress(i as usize)
    } else {
        UpsertStep::Done
    }
}

/// The step for the old chunk of index `i`, or what follows the last.
pub open spec fn clear_step(old_chunks: Seq<i64>, i: nat) -> UpsertStep {
    if i < old_chunks.len() {
        UpsertStep::ClearVector(i as usize)
    } else {
        UpsertStep::ClearFile
    }
}

/// The step that follows.
pub open spec fn step_after(f: IndexedFile, old_chunks: Seq<i64>, s: UpsertStep) -> UpsertStep {
    match s {
        UpsertStep::ClearVector(i) => clear_step(old_chunks, i as nat + 1),
        UpsertStep::ClearFile => UpsertStep::InsertFile,
        UpsertStep::InsertFile => chunk_step(f, 0),
        UpsertStep::InsertChunk(i) => UpsertStep::InsertVector(i),
        UpsertStep::InsertVector(i) => chunk_step(f, i as nat + 1),
        UpsertStep::InsertPerson => address_step(f, 0),
        UpsertStep::InsertAddress(i) => address_step(f, i as nat + 1),
        UpsertStep::Done => UpsertStep::Done,
    }
}

/// The step speaks of something that is there.
pub open spec fn step_valid(f: IndexedFile, old_chunks: Seq<i64>, s: UpsertStep) -> bool {
    match s {
        UpsertStep::ClearVector(i) => i < old_chunks.len(),
        UpsertStep::InsertChunk(i) => i < f.parsed.sections@.len(),
        UpsertStep::InsertVector(i) => i < f.parsed.sections@.len(),
        UpsertStep::InsertPerson => f.person is Some,
        UpsertStep::InsertAddress(i) => f.person matches Some(p) && i < p.addresses@.len(),
        _ => true,
    }
}

/// The text of an optional string slice.
pub open spec fn optional_str(o: Option<&str>) -> Option<Seq<char>> {
    match o {
        Some(s) => Some(s@),
        None => None,
    }
}

/// The text of the statement of a step.
pub open spec fn step_sql(s: UpsertStep) -> Seq<char> {
    match s {
        UpsertStep::ClearVector(_) => "DELETE FROM vault_chunk_vecs WHERE rowid = ?1"@,
        UpsertStep::ClearFile => "DELETE FROM vault_files WHERE path = ?1"@,
        UpsertStep::InsertFile => INSERT_FILE@,
        UpsertStep::InsertChunk(_) => INSERT_CHUNK@,
        UpsertStep::InsertVector(_) => INSERT_VECTOR@,
        UpsertStep::InsertPerson => INSERT_PERSON@,
        UpsertStep::InsertAddress(_) => INSERT_ADDRESS@,
        UpsertStep::Done => Seq::empty(),
    }
}

/// The statement that stores a file.
pub const INSERT_FILE: &'static str =
    "INSERT INTO vault_files (path, content_hash, mtime_secs, frontmatter_json, para_folder)
             VALUES (?1, ?2, ?3, ?4, ?5)";

/// The statement that stores a chunk.
pub const INSERT_CHUNK: &'static str =
    "INSERT INTO vault_chunks (file_path, section_heading, chunk_index, content, token_count, para_folder)
                 VALUES (?1, ?2, ?3, ?4, ?5, ?6)";

/// The statement that stores the vector of a chunk.
pub const INSERT_VECTOR: &'static str =
    "INSERT INTO vault_chunk_vecs (rowid, embedding) VALUES (?1, ?2)";

/// The statement that stores a person.
pub const INSERT_PERSON: &'static str =
    "INSERT INTO vault_people (file_path, name, role, tags_json, last_contact, frontmatter_json)
                 VALUES (?1, ?2, ?3, ?4, ?5, ?6)";

/// The statement that stores an address of a person.
pub const INSERT_ADDRESS: &'static str =
    "INSERT OR IGNORE INTO vault_people_addresses (person_id, channel_type, address)
                     VALUES (?1, ?2, ?3)";

/// Why a step has no statement: something of the file cannot be written as JSON.
pub open spec fn step_error(f: IndexedFile, s: UpsertStep) -> Option<Seq<char>> {
    match s {
        UpsertStep::InsertFile => match f.parsed.frontmatter {
            Some(v) => json_error(yaml::tree_json(v)),
            None => None,
        },
        UpsertStep::InsertPerson => match json_error(tags_json(f)) {
            Some(e) => Some(e),
            None => json_error(yaml::tree_json(*f.person->0.frontmatter)),
        },
        _ => None,
    }
}

/// The message of an error.
pub open spec fn json_error(r: Result<Seq<char>, Seq<char>>) -> Option<Seq<char>> {
    match r {
        Ok(_) => None,
        Err(e) => Some(e),
    }
}

/// The tags of a person as JSON.
pub open spec fn tags_json(f: IndexedFile) -> Result<Seq<char>, Seq<char>> {
    json::json_strings(json::string_texts(f.person->0.tags@))
}

/// The frontmatter of a file as JSON.
pub open spec fn frontmatter_json(f: IndexedFile) -> Option<Seq<char>> {
    match f.parsed.frontmatter {
        Some(v) => Some(yaml::tree_json(v)->Ok_0),
        None => None,
    }
}

/// The values of the statement of a step. `row` is the row that the chunk or
/// the person of the step was stored under.
pub open spec fn step_values(
    f: IndexedFile,
    old_chunks: Seq<i64>,
    s: UpsertStep,
    row: i64,
) -> Seq<ValueText> {
    match s {
        UpsertStep::ClearVector(i) => seq![ValueText::Integer(old_chunks[i as int] as int)],
        UpsertStep::ClearFile => seq![ValueText::Text(f.path@)],
        UpsertStep::InsertFile => seq![
            ValueText::Text(f.path@),
            ValueText::Text(f.parsed.content_hash@),
            ValueText::Integer(f.mtime_secs as int),
            sql::optional(frontmatter_json(f)),
            sql::optional(optional_str(f.para_folder)),
        ],
        UpsertStep::InsertChunk(i) => {
            let c = f.parsed.sections@[i as int];
            seq![
                ValueText::Text(f.path@),
                sql::optional(message::optional_text(c.heading)),
                ValueText::Integer((i as i64) as int),
                ValueText::Text(c.content@),
                ValueText::Integer((c.tokens as i64) as int),
                sql::optional(optional_str(f.para_folder)),
            ]
        },
        UpsertStep::InsertVector(i) => seq![
            ValueText::Integer(row as int),
            ValueText::Blob(retrieval::le_bytes_of(f.chunk_embeddings@[i as int]@)),
        ],
        UpsertStep::InsertPerson => {
            let p = f.person->0;
            seq![
                ValueText::Text(p.file_path@),
                ValueText::Text(p.name@),
                sql::optional(message::optional_text(p.role)),
                ValueText::Text(tags_json(f)->Ok_0),
                sql::optional(message::optional_text(p.last_contact)),
                ValueText::Text(yaml::tree_json(*p.frontmatter)->Ok_0),
            ]
        },
        UpsertStep::InsertAddress(i) => {
            let a = f.person->0.addresses@[i as int];
            seq![
                ValueText::Integer(row as int),
                ValueText::Text(a.channel@),
                ValueText::Text(a.address@),
            ]
        },
        UpsertStep::Done => Seq::empty(),
    }
}

/// The first step: what was stored of the file before goes first.
pub fn first_step(old_chunks: &Vec<i64>) -> (r: UpsertStep)
    ensures
        r == clear_step(old_chunks@, 0),
{
    if old_chunks.len() > 0 {
        UpsertStep::ClearVector(0)
    } else {
        UpsertStep::ClearFile
    }
}

/// The step that follows.
pub fn next_step(f: &IndexedFile, old_chunks: &Vec<i64>, s: UpsertStep) -> (r: UpsertStep)
    requires
        step_valid(*f, old_chunks@, s),
    ensures
        r == step_after(*f, old_chunks@, s),
        step_valid(*f, old_chunks@, r),
{
    match s {
        UpsertStep::ClearVector(i) => {
            let n: usize = old_chunks.len();
            if i + 1 < n {
                UpsertStep::ClearVector(i + 1)
            } else {
                UpsertStep::ClearFile
            }
        },
        UpsertStep::ClearFile => UpsertStep::InsertFile,
        UpsertStep::InsertFile => next_chunk(f, 0),
        UpsertStep::InsertChunk(i) => UpsertStep::InsertVector(i),
        UpsertStep::InsertVector(i) => {
            let n: usize = f.parsed.sections.len();
            assert(i < n);
            next_chunk(f, i + 1)
        },
        UpsertStep::InsertPerson => next_address(f, 0),
        UpsertStep::InsertAddress(i) => {
            let n: usize = f.person.unwrap().addresses.len();
            assert(i < n);
            next_address(f, i + 1)
        },
        UpsertStep::Done => UpsertStep::Done,
    }
}

fn next_chunk(f: &IndexedFile, i: usize) -> (r: UpsertStep)
    ensures
        r == chunk_step(*f, i as nat),
{
    if i < f.parsed.sections.len() {
        UpsertStep::InsertChunk(i)
    } else if f.person.is_some() {
        UpsertStep::InsertPerson
    } else {
        UpsertStep::Done
    }
}

fn next_address(f: &IndexedFile, i: usize) -> (r: UpsertStep)
    ensures
        r == address_step(*f, i as nat),
{
    if let Some(p) = f.person {
        if i < p.addresses.len() {
            return UpsertStep::InsertAddress(i);
        }
    }
    UpsertStep::Done
}

fn optional_str_value(o: Option<&str>) -> (r: SqlValue)
    ensures
        r@ == sql::optional(optional_str(o)),
{
    match o {
        Some(s) => text_value(s),
        None => SqlValue::Null,
    }
}

/// The statement of a step. `row` is the row that the chunk or the person of
/// the step was stored under; for other steps it does not matter. An error comes
/// where something of the file cannot be written as JSON.
pub fn step_statement(f: &IndexedFile, old_chunks: &Vec<i64>, s: UpsertStep, row: i64) -> (r:
    Result<Statement, CoreError>)
    requires
        step_valid(*f, old_chunks@, s),
        embeddings_match(*f),
    ensures
        match step_error(*f, s) {
            Some(e) => r is Err && (r->Err_0 matches CoreError::Serialization(m) && m@ == e),
            None => r is Ok && sql::says(
                r->Ok_0,
                step_sql(s),
                step_values(*f, old_chunks@, s, row),
            ),
        },
        r matches Ok(x) ==> x.sql@ == match s {
            UpsertStep::ClearVector(_) => meaning::delete_text(knowledge_laws::vector_delete()),
            UpsertStep::ClearFile => meaning::delete_text(knowledge_laws::file_delete()),
            UpsertStep::InsertFile => meaning::insert_text(knowledge_laws::file_insert()),
            UpsertStep::InsertChunk(_) => meaning::insert_text(knowledge_laws::chunk_insert()),
            UpsertStep::InsertVector(_) => meaning::insert_text(knowledge_laws::vector_insert()),
            UpsertStep::InsertPerson => meaning::insert_text(knowledge_laws::person_insert()),
            UpsertStep::InsertAddress(_) => meaning::insert_text(
                knowledge_laws::address_insert(),
            ),
            UpsertStep::Done => Seq::empty(),
        },
{
    proof {
        knowledge_laws::lemma_vector_delete_text();
        knowledge_laws::lemma_file_delete_text();
        knowledge_laws::lemma_file_insert_text();
        knowledge_laws::lemma_chunk_insert_text();
        knowledge_laws::lemma_vector_insert_text();
        knowledge_laws::lemma_person_insert_text();
        knowledge_laws::lemma_address_insert_text();
    }
    match s {
        UpsertStep::ClearVector(i) => {
            let params = vec![SqlValue::Integer(old_chunks[i])];
            proof {
                assert(sql::values(params@) =~= step_values(*f, old_chunks@, s, row));
            }
            Ok(statement("DELETE FROM vault_chunk_vecs WHERE rowid = ?1", params))
        },
        UpsertStep::ClearFile => {
            let params = vec![text_value(f.path)];
            proof {
                assert(sql::values(params@) =~= step_values(*f, old_chunks@, s, row));
            }
            Ok(statement("DELETE FROM vault_files WHERE path = ?1", params))
        },
        UpsertStep::InsertFile => {
            let json_text = match &f.parsed.frontmatter {
                Some(v) => match v.to_json() {
                    Ok(t) => Some(t),
                    Err(e) => return Err(CoreError::Serialization(e)),
                },
                None => None,
            };
            let params = vec![
                text_value(f.path),
                text_value(f.parsed.content_hash.as_str()),
                SqlValue::Integer(f.mtime_secs),
                optional_value(&json_text),
                optional_str_value(f.para_folder),
            ];
            proof {
                assert(sql::values(params@) =~= step_values(*f, old_chunks@, s, row));
            }
            Ok(statement(INSERT_FILE, params))
        },
        UpsertStep::InsertChunk(i) => {
            let c = &f.parsed.sections[i];
            let params = vec![
                text_value(f.path),
                optional_value(&c.heading),
                SqlValue::Integer(i as i64),
                text_value(c.content.as_str()),
                SqlValue::Integer(c.tokens as i64),
                optional_str_value(f.para_folder),
            ];
            proof {
                assert(sql::values(params@) =~= step_values(*f, old_chunks@, s, row));
            }
            Ok(statement(INSERT_CHUNK, params))
        },
        UpsertStep::InsertVector(i) => {
            let bytes = f32_slice_to_bytes(f.chunk_embeddings[i].as_slice());
            let params = vec![SqlValue::Integer(row), SqlValue::Blob(bytes)];
            proof {
                assert(sql::values(params@) =~= step_values(*f, old_chunks@, s, row));
            }
            Ok(statement(INSERT_VECTOR, params))
        },
        UpsertStep::InsertPerson => {
            let p = f.person.unwrap();
            let tags = match write_strings(&p.tags) {
                Ok(t) => t,
                Err(e) => return Err(CoreError::Serialization(e)),
            };
            let json_text = match p.frontmatter.to_json() {
                Ok(t) => t,
                Err(e) => return Err(CoreError::Serialization(e)),
            };
            let params = vec![
                text_value(p.file_path.as_str()),
                text_value(p.name.as_str()),
                optional_value(&p.role),
                text_value(tags.as_str()),
                optional_value(&p.last_contact),
                text_value(json_text.as_str()),
            ];
            proof {
                assert(sql::values(params@) =~= step_values(*f, old_chunks@, s, row));
            }
            Ok(statement(INSERT_PERSON, params))
        },
        UpsertStep::InsertAddress(i) => {
            let a = &f.person.unwrap().addresses[i];
            let params = vec![
                SqlValue::Integer(row),
                text_value(a.channel.as_str()),
                text_value(a.address.as_str()),
            ];
            proof {
                assert(sql::values(params@) =~= step_values(*f, old_chunks@, s, row));
            }
            Ok(statement(INSERT_ADDRESS, params))
        },
        UpsertStep::Done => {
            let params: Vec<SqlValue> = Vec::new();
            proof {
                assert(sql::values(params@) =~= Seq::empty());
            }
            let none = String::new();
            proof {
                assert(none@ =~= Seq::empty());
            }
            Ok(Statement { sql: none, params })
        },
    }
}

/// Whether the row that a step is stored under is to be kept for the next ones:
/// that of a chunk for its vector, that of the person for all addresses.
pub fn keeps_row(s: UpsertStep) -> (r: bool)
    ensures
        r == (s is InsertChunk || s is InsertPerson),
{
    match s {
        UpsertStep::InsertChunk(_) => true,
        UpsertStep::InsertPerson => true,
        _ => false,
    }
}

// ---------------------------------------------------------------------------
// Other statements
// ---------------------------------------------------------------------------

/// The statement for the chunks that are stored of a file.
pub fn select_chunks(path: &str) -> (r: Statement)
    ensures
        sql::says(
            r,
            "SELECT id FROM vault_chunks WHERE file_path = ?1"@,
            seq![ValueText::Text(path@)],
        ),
        r.sql@ == meaning::query_text(knowledge_laws::chunks_query()),
{
    proof {
        knowledge_laws::lemma_chunks_query_text();
    }
    let params = vec![text_value(path)];
    proof {
        assert(sql::values(params@) =~= seq![ValueText::Text(path@)]);
    }
    statement("SELECT id FROM vault_chunks WHERE file_path = ?1", params)
}

/// The statement for the hash that is stored of a file.
pub fn indexed_content_hash(path: &str) -> (r: Statement)
    ensures
        sql::says(
            r,
            "SELECT content_hash FROM vault_files WHERE path = ?1"@,
            seq![ValueText::Text(path@)],
        ),
        r.sql@ == meaning::query_text(knowledge_laws::hash_query()),
{
    proof {
        knowledge_laws::lemma_hash_query_text();
    }
    let params = vec![text_value(path)];
    proof {
        assert(sql::values(params@) =~= seq![ValueText::Text(path@)]);
    }
    statement("SELECT content_hash FROM vault_files WHERE path = ?1", params)
}

/// The statements that take a file away: the vectors of its chunks, then the
/// file.
pub fn delete_indexed_file(path: &str, chunks: &Vec<i64>) -> (r: Vec<Statement>)
    ensures
        r@.len() == chunks@.len() + 1,
        forall|i: int|
            0 <= i < chunks@.len() ==> sql::says(
                #[trigger] r@[i],
                "DELETE FROM vault_chunk_vecs WHERE rowid = ?1"@,
                seq![ValueText::Integer(chunks@[i] as int)],
            ),
        sql::says(
            r@[chunks@.len() as int],
            "DELETE FROM vault_files WHERE path = ?1"@,
            seq![ValueText::Text(path@)],
        ),
        forall|i: int|
            0 <= i < chunks@.len() ==> (#[trigger] r@[i]).sql@ == meaning::delete_text(
                knowledge_laws::vector_delete(),
            ),
        r@[chunks@.len() as int].sql@ == meaning::delete_text(knowledge_laws::file_delete()),
{
    proof {
        knowledge_laws::lemma_vector_delete_text();
        knowledge_laws::lemma_file_delete_text();
    }
    let mut r: Vec<Statement> = Vec::new();
    for k in 0..chunks.len()
        invariant
            r@.len() == k,
            forall|i: int|
                0 <= i < k ==> sql::says(
                    #[trigger] r@[i],
                    "DELETE FROM vault_chunk_vecs WHERE rowid = ?1"@,
                    seq![ValueText::Integer(chunks@[i] as int)],
                ),
    {
        let params = vec![SqlValue::Integer(chunks[k])];
        proof {
            assert(sql::values(params@) =~= seq![ValueText::Integer(chunks@[k as int] as int)]);
        }
        r.push(statement("DELETE FROM vault_chunk_vecs WHERE rowid = ?1", params));
    }
    let params = vec![text_value(path)];
    proof {
        assert(sql::values(params@) =~= seq![ValueText::Text(path@)]);
    }
    r.push(statement("DELETE FROM vault_files WHERE path = ?1", params));
    r
}

/// The statement for the person with an address on a channel.
pub const FIND_PERSON: &'static str =
    "SELECT vp.name, vp.file_path
             FROM vault_people_addresses vpa
             JOIN vault_people vp ON vp.id = vpa.person_id
             WHERE vpa.channel_type = ?1 AND vpa.address = ?2
             LIMIT 1";

/// The values by which a person is asked for.
pub open spec fn person_values(channel: Seq<char>, address: Seq<char>) -> Seq<ValueText> {
    seq![ValueText::Text(channel), ValueText::Text(address)]
}

/// The statement for the person with an address on a channel.
pub fn find_vault_person_by_address(channel: &str, address: &str) -> (r: Statement)
    ensures
        sql::says(r, FIND_PERSON@, person_values(channel@, address@)),
        r.sql@ == meaning::query_text(knowledge_laws::person_query()),
{
    proof {
        knowledge_laws::lemma_person_query_text();
    }
    let params = vec![text_value(channel), text_value(address)];
    proof {
        assert(sql::values(params@) =~= person_values(channel@, address@));
    }
    statement(FIND_PERSON, params)
}

// ---------------------------------------------------------------------------
// Laws
// ---------------------------------------------------------------------------

/// The steps that are left from a step on.
pub open spec fn steps_left(f: IndexedFile, old_chunks: Seq<i64>, s: UpsertStep) -> int {
    let chunks = 2 * f.parsed.sections@.len() as int;
    let person = match f.person {
        Some(p) => 1 + p.addresses@.len() as int,
        None => 0int,
    };
    match s {
        UpsertStep::ClearVector(i) => old_chunks.len() - i + 2 + chunks + person,
        UpsertStep::ClearFile => 2 + chunks + person,
        UpsertStep::InsertFile => 1 + chunks + person,
        UpsertStep::InsertChunk(i) => chunks - 2 * i + person,
        UpsertStep::InsertVector(i) => chunks - 2 * i - 1 + person,
        UpsertStep::InsertPerson => person,
        UpsertStep::InsertAddress(i) => person - 1 - i,
        UpsertStep::Done => 0,
    }
}

/// Each step but the last leaves one fewer to do: from the first, which clears
/// what was stored before, the steps come to an end after each old vector, the
/// file, each chunk with its vector, and the person with each address.
pub proof fn steps_come_to_an_end(f: IndexedFile, old_chunks: Seq<i64>, s: UpsertStep)
    requires
        step_valid(f, old_chunks, s),
        s != UpsertStep::Done,
        old_chunks.len() <= usize::MAX,
        f.parsed.sections@.len() <= usize::MAX,
        f.person matches Some(p) ==> p.addresses@.len() <= usize::MAX,
    ensures
        step_valid(f, old_chunks, step_after(f, old_chunks, s)),
        steps_left(f, old_chunks, step_after(f, old_chunks, s)) == steps_left(
            f,
            old_chunks,
            s,
        ) - 1,
        steps_left(f, old_chunks, s) > 0,
{
}

/// The vector of a chunk is stored right after the chunk, and chunks are stored
/// in the order of their index.
pub proof fn vectors_follow_their_chunks(f: IndexedFile, old_chunks: Seq<i64>, i: usize)
    requires
        i < f.parsed.sections@.len(),
        f.parsed.sections@.len() <= usize::MAX,
    ensures
        step_after(f, old_chunks, UpsertStep::InsertChunk(i)) == UpsertStep::InsertVector(i),
        i + 1 < f.parsed.sections@.len() ==> step_after(
            f,
            old_chunks,
            UpsertStep::InsertVector(i),
        ) == UpsertStep::InsertChunk((i + 1) as usize),
{
}

} // verus!
