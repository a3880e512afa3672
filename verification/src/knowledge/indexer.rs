//! What becomes of the files of a vault.
use vstd::prelude::*;
use vstd::string::StringExecFns;

use crate::error::CoreError;
use crate::knowledge::parser;
use crate::knowledge::parser::{ParsedFile, Section};
use crate::knowledge::people;
use crate::knowledge::people::{extract_person, VaultPerson};
use crate::text;
use crate::text::{find_char, from_chars, is_blank, replace_chars, str_eq, to_chars};
use vstd::slice::slice_subrange;

verus! {

/// What became of a file.
#[derive(Clone, Copy, Debug, PartialEq, Eq, Structural)]
pub enum IndexOutcome {
    Indexed { is_new: bool, is_person: bool },
    Skipped,
}

/// The counts of an indexing run.
#[derive(Clone, Copy, Debug, PartialEq, Eq, Structural)]
pub struct IndexingReport {
    pub files_scanned: usize,
    /// Files that were not indexed before.
    pub files_indexed: usize,
    /// Files whose content had changed.
    pub files_reindexed: usize,
    /// Files that had not changed.
    pub files_skipped: usize,
    pub files_failed: usize,
    pub people_indexed: usize,
}

impl Default for IndexingReport {
    fn default() -> (r: IndexingReport)
        ensures
            r == report_of(Seq::empty()),
    {
        IndexingReport {
            files_scanned: 0,
            files_indexed: 0,
            files_reindexed: 0,
            files_skipped: 0,
            files_failed: 0,
            people_indexed: 0,
        }
    }
}

/// The number of outcomes for which `p` holds.
pub open spec fn count_where(
    outcomes: Seq<Result<IndexOutcome, CoreError>>,
    p: spec_fn(Result<IndexOutcome, CoreError>) -> bool,
) -> nat
    decreases outcomes.len(),
{
    if outcomes.len() == 0 {
        0
    } else {
        count_where(outcomes.drop_last(), p) + if p(outcomes.last()) {
            1nat
        } else {
            0nat
        }
    }
}

/// The file was indexed, and whether it was new is `new`.
pub open spec fn indexed_as(new: bool) -> spec_fn(Result<IndexOutcome, CoreError>) -> bool {
    |o: Result<IndexOutcome, CoreError>|
        o matches Ok(IndexOutcome::Indexed { is_new, is_person }) && is_new == new
}

/// The file was left as it was.
pub open spec fn was_skipped() -> spec_fn(Result<IndexOutcome, CoreError>) -> bool {
    |o: Result<IndexOutcome, CoreError>| o matches Ok(IndexOutcome::Skipped)
}

/// The file could not be indexed.
pub open spec fn has_failed() -> spec_fn(Result<IndexOutcome, CoreError>) -> bool {
    |o: Result<IndexOutcome, CoreError>| o is Err
}

/// The file described a person.
pub open spec fn was_person() -> spec_fn(Result<IndexOutcome, CoreError>) -> bool {
    |o: Result<IndexOutcome, CoreError>|
        o matches Ok(IndexOutcome::Indexed { is_new, is_person }) && is_person
}

/// The counts of the outcomes of a run.
pub open spec fn report_of(outcomes: Seq<Result<IndexOutcome, CoreError>>) -> IndexingReport {
    IndexingReport {
        files_scanned: outcomes.len() as usize,
        files_indexed: count_where(outcomes, indexed_as(true)) as usize,
        files_reindexed: count_where(outcomes, indexed_as(false)) as usize,
        files_skipped: count_where(outcomes, was_skipped()) as usize,
        files_failed: count_where(outcomes, has_failed()) as usize,
        people_indexed: count_where(outcomes, was_person()) as usize,
    }
}

proof fn lemma_count_bound(
    outcomes: Seq<Result<IndexOutcome, CoreError>>,
    p: spec_fn(Result<IndexOutcome, CoreError>) -> bool,
)
    ensures
        count_where(outcomes, p) <= outcomes.len(),
    decreases outcomes.len(),
{
    if outcomes.len() > 0 {
        lemma_count_bound(outcomes.drop_last(), p);
    }
}

/// The report of a run with these outcomes, one for each file that was found.
pub fn index_all(outcomes: &Vec<Result<IndexOutcome, CoreError>>) -> (r: IndexingReport)
    ensures
        r == report_of(outcomes@),
{
    let mut report = IndexingReport::default();
    proof {
        assert(outcomes@.take(0) =~= Seq::empty());
    }
    for i in 0..outcomes.len()
        invariant
            report == report_of(outcomes@.take(i as int)),
    {
        proof {
            let before = outcomes@.take(i as int);
            let after = outcomes@.take(i + 1);
            assert(after.drop_last() =~= before);
            assert(after.last() == outcomes@[i as int]);
            lemma_count_bound(before, indexed_as(true));
            lemma_count_bound(before, indexed_as(false));
            lemma_count_bound(before, was_skipped());
            lemma_count_bound(before, has_failed());
            lemma_count_bound(before, was_person());
        }
        report.files_scanned = report.files_scanned + 1;
        match &outcomes[i] {
            Ok(IndexOutcome::Indexed { is_new, is_person }) => {
                if *is_new {
                    report.files_indexed = report.files_indexed + 1;
                } else {
                    report.files_reindexed = report.files_reindexed + 1;
                }
                if *is_person {
                    report.people_indexed = report.people_indexed + 1;
                }
            },
            Ok(IndexOutcome::Skipped) => {
                report.files_skipped = report.files_skipped + 1;
            },
            Err(_) => {
                report.files_failed = report.files_failed + 1;
            },
        }
    }
    proof {
        assert(outcomes@.take(outcomes@.len() as int) =~= outcomes@);
    }
    report
}

/// Every file that was scanned is counted once: as indexed, indexed again,
/// skipped or failed. The people are among the indexed.
pub proof fn report_counts_every_file_once(outcomes: Seq<Result<IndexOutcome, CoreError>>)
    ensures
        count_where(outcomes, indexed_as(true)) + count_where(outcomes, indexed_as(false))
            + count_where(outcomes, was_skipped()) + count_where(outcomes, has_failed())
            == outcomes.len(),
        count_where(outcomes, was_person()) <= count_where(outcomes, indexed_as(true))
            + count_where(outcomes, indexed_as(false)),
    decreases outcomes.len(),
{
    if outcomes.len() > 0 {
        report_counts_every_file_once(outcomes.drop_last());
        let o = outcomes.last();
        match o {
            Ok(IndexOutcome::Indexed { is_new, is_person }) => {
                assert(indexed_as(true)(o) != indexed_as(false)(o));
            },
            Ok(IndexOutcome::Skipped) => {},
            Err(_) => {},
        }
    }
}

// ---------------------------------------------------------------------------
// Paths
// ---------------------------------------------------------------------------

/// The folder is one of those that sort the vault.
pub open spec fn known_folder(f: Seq<char>) -> bool {
    ||| f == "00-Inbox"@
    ||| f == "01-Projects"@
    ||| f == "02-Areas"@
    ||| f == "03-Resources"@
    ||| f == "04-Archive"@
    ||| f == "05-People"@
    ||| f == "06-Meetings"@
    ||| f == "07-Daily"@
}

/// The part of a path before its first slash.
pub open spec fn top_folder(path: Seq<char>) -> Seq<char> {
    path.take(text::first_index(path, '/'))
}

/// The known folder that the relative path starts with.
pub fn detect_para_folder(rel_path: &str) -> (r: Option<String>)
    ensures
        r is Some <==> known_folder(top_folder(rel_path@)),
        r is Some ==> r->0@ == top_folder(rel_path@),
{
    let v = to_chars(rel_path);
    let n: usize = find_char(v.as_slice(), '/');
    let first = from_chars(slice_subrange(v.as_slice(), 0, n));
    let f = first.as_str();
    if str_eq(f, "00-Inbox") || str_eq(f, "01-Projects") || str_eq(f, "02-Areas") || str_eq(
        f,
        "03-Resources",
    ) || str_eq(f, "04-Archive") || str_eq(f, "05-People") || str_eq(f, "06-Meetings") || str_eq(
        f,
        "07-Daily",
    ) {
        Some(first)
    } else {
        None
    }
}

/// The message for a path outside the vault.
pub open spec fn outside_vault(path: Seq<char>, root: Seq<char>) -> Seq<char> {
    path + " is not under vault root "@ + root
}

/// The path by which a file is stored: what is left of it under the vault's
/// root, with slashes for backslashes.
pub fn relative_path(stripped: Option<&str>, path: &str, root: &str) -> (r: Result<
    String,
    CoreError,
>)
    ensures
        match stripped {
            Some(s) => r is Ok && r->Ok_0@ == text::replace_all(s@, "\\"@, "/"@),
            None => r is Err && (r->Err_0 matches CoreError::Knowledge(m) && m@
                == outside_vault(path@, root@)),
        },
{
    match stripped {
        Some(s) => {
            let v = to_chars(s);
            let from = to_chars("\\");
            let to = to_chars("/");
            let out = replace_chars(v.as_slice(), from.as_slice(), to.as_slice());
            Ok(from_chars(out.as_slice()))
        },
        None => {
            let mut m = path.to_owned();
            m.append(" is not under vault root ");
            m.append(root);
            Err(CoreError::Knowledge(m))
        },
    }
}

// ---------------------------------------------------------------------------
// The walk over the vault
// ---------------------------------------------------------------------------

/// An entry of a directory.
#[derive(Debug)]
pub struct DirEntry {
    pub path: String,
    /// The last component of the path, where it is UTF-8.
    pub name: Option<String>,
    pub is_dir: bool,
    /// The extension of the path, where it has one that is UTF-8.
    pub extension: Option<String>,
}

/// What is to be done with an entry.
#[derive(Clone, Copy, Debug, PartialEq, Eq, Structural)]
pub enum EntryAction {
    /// Leave it.
    Pass,
    /// Look into it later.
    Descend,
    /// It is a markdown file.
    Take,
}

/// Hidden entries are passed over; directories are descended into; files with
/// the extension `md` are taken.
pub open spec fn entry_action(e: DirEntry) -> EntryAction {
    if e.name matches Some(n) && n@.len() > 0 && n@[0] == '.' {
        EntryAction::Pass
    } else if e.is_dir {
        EntryAction::Descend
    } else if e.extension matches Some(x) && x@ == "md"@ {
        EntryAction::Take
    } else {
        EntryAction::Pass
    }
}

/// What is to be done with an entry.
pub fn classify_entry(e: &DirEntry) -> (r: EntryAction)
    ensures
        r == entry_action(*e),
{
    if let Some(n) = &e.name {
        let c = to_chars(n.as_str());
        if c.len() > 0 && c[0] == '.' {
            return EntryAction::Pass;
        }
    }
    if e.is_dir {
        return EntryAction::Descend;
    }
    if let Some(x) = &e.extension {
        if str_eq(x.as_str(), "md") {
            return EntryAction::Take;
        }
    }
    EntryAction::Pass
}

/// The paths of the entries for which `action` is to be done, in order.
pub open spec fn paths_with(entries: Seq<DirEntry>, action: EntryAction) -> Seq<Seq<char>>
    decreases entries.len(),
{
    if entries.len() == 0 {
        Seq::empty()
    } else {
        let before = paths_with(entries.drop_last(), action);
        if entry_action(entries.last()) == action {
            before.push(entries.last().path@)
        } else {
            before
        }
    }
}

/// A walk over the directories of a vault, breadth first.
#[derive(Debug)]
pub struct Walk {
    queue: Vec<String>,
    found: Vec<String>,
}

/// The texts that a vector of strings holds.
pub open spec fn texts(v: Seq<String>) -> Seq<Seq<char>> {
    v.map_values(|s: String| s@)
}

impl Walk {
    /// The directories that are still to be looked into.
    pub closed spec fn queue(&self) -> Seq<Seq<char>> {
        texts(self.queue@)
    }

    /// The markdown files that were found.
    pub closed spec fn found(&self) -> Seq<Seq<char>> {
        texts(self.found@)
    }

    /// A walk that starts at `root`, where that is a directory.
    pub fn new(root: &str, is_dir: bool) -> (r: Walk)
        ensures
            r.queue() == if is_dir {
                seq![root@]
            } else {
                Seq::empty()
            },
            r.found().len() == 0,
    {
        let mut queue: Vec<String> = Vec::new();
        if is_dir {
            queue.push(root.to_owned());
        }
        let r = Walk { queue, found: Vec::new() };
        proof {
            assert(r.queue() =~= if is_dir {
                seq![root@]
            } else {
                Seq::empty()
            });
        }
        r
    }

    /// The next directory to look into.
    pub fn next_dir(&mut self) -> (r: Option<String>)
        ensures
            match r {
                Some(d) => old(self).queue().len() > 0 && d@ == old(self).queue()[0]
                    && final(self).queue() == old(self).queue().drop_first(),
                None => old(self).queue().len() == 0 && final(self).queue()
                    == old(self).queue(),
            },
            final(self).found() == old(self).found(),
    {
        if self.queue.len() == 0 {
            return None;
        }
        let ghost before = self.queue();
        let d = self.queue.remove(0);
        proof {
            assert(self.queue() =~= before.drop_first());
        }
        Some(d)
    }

    /// Takes in what a directory holds.
    pub fn visit(&mut self, entries: &Vec<DirEntry>)
        ensures
            final(self).queue() == old(self).queue() + paths_with(
                entries@,
                EntryAction::Descend,
            ),
            final(self).found() == old(self).found() + paths_with(entries@, EntryAction::Take),
    {
        let ghost queue = self.queue();
        let ghost found = self.found();
        proof {
            assert(entries@.take(0) =~= Seq::empty());
            assert(queue + Seq::empty() =~= queue);
            assert(found + Seq::empty() =~= found);
        }
        for i in 0..entries.len()
            invariant
                self.queue() == queue + paths_with(
                    entries@.take(i as int),
                    EntryAction::Descend,
                ),
                self.found() == found + paths_with(entries@.take(i as int), EntryAction::Take),
        {
            let ghost q = self.queue();
            let ghost f = self.found();
            proof {
                assert(entries@.take(i + 1).drop_last() =~= entries@.take(i as int));
                assert(entries@.take(i + 1).last() == entries@[i as int]);
            }
            match classify_entry(&entries[i]) {
                EntryAction::Pass => {},
                EntryAction::Descend => {
                    self.queue.push(entries[i].path.clone());
                    proof {
                        assert(self.queue() =~= q.push(entries@[i as int].path@));
                        assert(self.queue() =~= queue + paths_with(
                            entries@.take(i + 1),
                            EntryAction::Descend,
                        ));
                    }
                },
                EntryAction::Take => {
                    self.found.push(entries[i].path.clone());
                    proof {
                        assert(self.found() =~= f.push(entries@[i as int].path@));
                        assert(self.found() =~= found + paths_with(
                            entries@.take(i + 1),
                            EntryAction::Take,
                        ));
                    }
                },
            }
        }
        proof {
            assert(entries@.take(entries@.len() as int) =~= entries@);
        }
    }

    /// The markdown files that were found, in the order in which they were met.
    pub fn into_found(self) -> (r: Vec<String>)
        ensures
            texts(r@) == self.found(),
    {
        self.found
    }
}

// ---------------------------------------------------------------------------
// One file
// ---------------------------------------------------------------------------

/// The sections that hold something visible.
pub open spec fn visible_sections(
    sections: Seq<parser::SectionText>,
) -> Seq<parser::SectionText>
    decreases sections.len(),
{
    if sections.len() == 0 {
        Seq::empty()
    } else {
        let before = visible_sections(sections.drop_last());
        if text::blank(sections.last().content) {
            before
        } else {
            before.push(sections.last())
        }
    }
}

/// What is to be done with a file that was read.
#[derive(Debug)]
pub enum IndexPlan {
    /// It has not changed.
    Skip,
    /// It is to be stored, with the sections that have an embedding each.
    Store { is_new: bool, para_folder: Option<String>, kept: ParsedFile },
}

/// The file without its blank sections; all else as it was.
pub open spec fn is_kept(kept: ParsedFile, parsed: ParsedFile) -> bool {
    &&& kept.frontmatter == parsed.frontmatter
    &&& parser::section_texts(kept.sections@) == visible_sections(
        parser::section_texts(parsed.sections@),
    )
    &&& kept.content_hash == parsed.content_hash
    &&& kept.total_tokens == parsed.total_tokens
}

/// Decides what to do with a file whose stored hash is `existing_hash`: nothing
/// where the hash is the same; else it is stored without its blank sections.
pub fn plan_index(rel_path: &str, parsed: ParsedFile, existing_hash: &Option<String>) -> (r:
    IndexPlan)
    ensures
        match r {
            IndexPlan::Skip => existing_hash matches Some(h) && h@ == parsed.content_hash@,
            IndexPlan::Store { is_new, para_folder, kept } => {
                &&& existing_hash matches Some(h) ==> h@ != parsed.content_hash@
                &&& is_new == (existing_hash is None)
                &&& para_folder is Some <==> known_folder(top_folder(rel_path@))
                &&& para_folder matches Some(f) ==> f@ == top_folder(rel_path@)
                &&& is_kept(kept, parsed)
            },
        },
{
    let mut is_new: bool = true;
    if let Some(h) = existing_hash {
        if str_eq(h.as_str(), parsed.content_hash.as_str()) {
            return IndexPlan::Skip;
        }
        is_new = false;
    }
    let ghost all = parser::section_texts(parsed.sections@);
    let ghost given = parsed;
    let ParsedFile { frontmatter, sections, content_hash, total_tokens } = parsed;
    let mut kept: Vec<Section> = Vec::new();
    proof {
        assert(all.take(0) =~= Seq::empty());
        assert(parser::section_texts(kept@) =~= Seq::empty());
    }
    for i in 0..sections.len()
        invariant
            all == parser::section_texts(sections@),
            parser::section_texts(kept@) == visible_sections(all.take(i as int)),
    {
        let ghost before = parser::section_texts(kept@);
        proof {
            assert(all.take(i + 1).drop_last() =~= all.take(i as int));
            assert(all.take(i + 1).last() == sections@[i as int]@);
        }
        if !is_blank(sections[i].content.as_str()) {
            kept.push(copy_section(&sections[i]));
            proof {
                assert(parser::section_texts(kept@) =~= before.push(sections@[i as int]@));
            }
        }
    }
    proof {
        assert(all.take(all.len() as int) =~= all);
    }
    IndexPlan::Store {
        is_new,
        para_folder: detect_para_folder(rel_path),
        kept: ParsedFile { frontmatter, sections: kept, content_hash, total_tokens },
    }
}

/// A copy of a section.
pub fn copy_section(s: &Section) -> (r: Section)
    ensures
        r@ == s@,
{
    Section {
        heading: crate::text::copy_option(&s.heading),
        content: s.content.clone(),
        level: s.level,
        tokens: s.tokens,
    }
}

/// The person that a file of the folder of people describes.
pub fn plan_person<'a>(
    rel_path: &str,
    para_folder: &Option<String>,
    file: &'a ParsedFile,
) -> (r: Result<Option<VaultPerson<'a>>, CoreError>)
    ensures
        r is Ok,
        r->Ok_0 is Some <==> (para_folder matches Some(f) && f@ == "05-People"@) && (
        file.frontmatter matches Some(v) && people::is_person(v)),
        r->Ok_0 matches Some(p) ==> people::describes(p, rel_path@, file.frontmatter->0),
{
    if let Some(f) = para_folder {
        if str_eq(f.as_str(), "05-People") {
            if let Some(v) = &file.frontmatter {
                return extract_person(rel_path, v);
            }
        }
    }
    Ok(None)
}

} // verus!
