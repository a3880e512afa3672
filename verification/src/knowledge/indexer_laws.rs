//! What holds of the files of a vault, whatever it holds.
use vstd::prelude::*;

use crate::error::CoreError;
use crate::knowledge::indexer;
use crate::knowledge::indexer::{DirEntry, EntryAction, IndexOutcome, IndexingReport};
use crate::knowledge::parser;
use crate::knowledge::parser::ParsedFile;
use crate::text;

verus! {

// ---------------------------------------------------------------------------
// Reports
// ---------------------------------------------------------------------------

proof fn lemma_one_more(
    outcomes: Seq<Result<IndexOutcome, CoreError>>,
    next: Result<IndexOutcome, CoreError>,
    p: spec_fn(Result<IndexOutcome, CoreError>) -> bool,
)
    ensures
        indexer::count_where(outcomes.push(next), p) == indexer::count_where(outcomes, p) + if p(
            next,
        ) {
            1nat
        } else {
            0nat
        },
        indexer::count_where(outcomes, p) <= outcomes.len(),
    decreases outcomes.len(),
{
    assert(outcomes.push(next).drop_last() =~= outcomes);
    if outcomes.len() > 0 {
        lemma_one_more(outcomes.drop_last(), outcomes.last(), p);
        assert(outcomes.drop_last().push(outcomes.last()) =~= outcomes);
    }
}

/// A file more changes the counts that it belongs to by one, and no others: a new
/// one those of the indexed, one that was indexed before those of the indexed again,
/// one that had not changed those of the skipped, one that failed those of the
/// failed; one that describes a person also those of the people.
pub proof fn a_file_more_is_counted(
    outcomes: Seq<Result<IndexOutcome, CoreError>>,
    next: Result<IndexOutcome, CoreError>,
)
    requires
        outcomes.len() < usize::MAX,
    ensures
        ({
            let before = indexer::report_of(outcomes);
            let after = indexer::report_of(outcomes.push(next));
            &&& after.files_scanned == before.files_scanned + 1
            &&& after.files_indexed - before.files_indexed == if next
                matches Ok(IndexOutcome::Indexed { is_new, is_person }) && is_new {
                1int
            } else {
                0
            }
            &&& after.files_reindexed - before.files_reindexed == if next
                matches Ok(IndexOutcome::Indexed { is_new, is_person }) && !is_new {
                1int
            } else {
                0
            }
            &&& after.files_skipped - before.files_skipped == if next
                matches Ok(IndexOutcome::Skipped) {
                1int
            } else {
                0
            }
            &&& after.files_failed - before.files_failed == if next is Err {
                1int
            } else {
                0
            }
            &&& after.people_indexed - before.people_indexed == if next
                matches Ok(IndexOutcome::Indexed { is_new, is_person }) && is_person {
                1int
            } else {
                0
            }
        }),
{
    lemma_one_more(outcomes, next, indexer::indexed_as(true));
    lemma_one_more(outcomes, next, indexer::indexed_as(false));
    lemma_one_more(outcomes, next, indexer::was_skipped());
    lemma_one_more(outcomes, next, indexer::has_failed());
    lemma_one_more(outcomes, next, indexer::was_person());
}

/// Before the first file all counts are zero.
pub proof fn nothing_is_counted_at_first()
    ensures
        indexer::report_of(Seq::empty()) == (IndexingReport {
            files_scanned: 0,
            files_indexed: 0,
            files_reindexed: 0,
            files_skipped: 0,
            files_failed: 0,
            people_indexed: 0,
        }),
{
}

// ---------------------------------------------------------------------------
// Paths
// ---------------------------------------------------------------------------

/// A file belongs to the folder that its path starts with.
pub proof fn a_file_belongs_to_its_folder(folder: Seq<char>, rest: Seq<char>)
    requires
        !folder.contains('/'),
    ensures
        indexer::top_folder(folder + seq!['/'] + rest) == folder,
        indexer::top_folder(folder) == folder,
{
    let s = folder + seq!['/'] + rest;
    let n = folder.len() as int;
    assert forall|i: int| 0 <= i < n implies #[trigger] s[i] != '/' by {
        assert(s[i] == folder[i]);
    }
    assert forall|i: int| 0 <= i < n implies #[trigger] folder[i] != '/' by {
        assert(folder.contains(folder[i]));
    }
    assert(s[n] == '/');
    text::lemma_first_index(s, '/', n);
    text::lemma_first_index(folder, '/', n);
    assert(s.take(n) =~= folder);
    assert(folder.take(n) =~= folder);
}

/// The eight folders that sort a vault are known, and no other.
pub proof fn eight_folders_are_known(f: Seq<char>)
    ensures
        indexer::known_folder(f) <==> seq![
            "00-Inbox"@,
            "01-Projects"@,
            "02-Areas"@,
            "03-Resources"@,
            "04-Archive"@,
            "05-People"@,
            "06-Meetings"@,
            "07-Daily"@,
        ].contains(f),
{
    let all = seq![
        "00-Inbox"@,
        "01-Projects"@,
        "02-Areas"@,
        "03-Resources"@,
        "04-Archive"@,
        "05-People"@,
        "06-Meetings"@,
        "07-Daily"@,
    ];
    assert(all[0] == "00-Inbox"@ && all[1] == "01-Projects"@ && all[2] == "02-Areas"@);
    assert(all[3] == "03-Resources"@ && all[4] == "04-Archive"@ && all[5] == "05-People"@);
    assert(all[6] == "06-Meetings"@ && all[7] == "07-Daily"@);
}

/// A stored path has a slash where the file's path has a backslash, and is the same
/// elsewhere.
pub proof fn backslashes_become_slashes(path: Seq<char>, i: int)
    requires
        0 <= i < path.len(),
    ensures
        text::replace_all(path, "\\"@, "/"@).len() == path.len(),
        text::replace_all(path, "\\"@, "/"@)[i] == if path[i] == '\\' {
            '/'
        } else {
            path[i]
        },
    decreases path.len(),
{
    reveal_strlit("\\");
    reveal_strlit("/");
    let p = "\\"@;
    let q = "/"@;
    assert(p =~= seq!['\\']);
    assert(q =~= seq!['/']);
    let rest = path.drop_first();
    assert(path.skip(1) =~= rest);
    assert(text::occurs_at(path, p, 0) <==> path[0] == '\\') by {
        if path[0] == '\\' {
            assert(path.subrange(0, 1) =~= p);
        } else {
            assert(path.subrange(0, 1)[0] == path[0]);
        }
    }
    if rest.len() > 0 {
        backslashes_become_slashes(
            rest,
            if i > 0 {
                i - 1
            } else {
                0
            },
        );
        if i > 0 {
            assert(rest[i - 1] == path[i]);
        }
    } else {
        assert(!text::occurs_at(rest, p, 0));
        assert(text::replace_all(rest, p, q) =~= Seq::empty());
    }
}

// ---------------------------------------------------------------------------
// The walk
// ---------------------------------------------------------------------------

/// `e` is hidden: its name starts with a dot.
pub open spec fn hidden(e: DirEntry) -> bool {
    e.name matches Some(n) && n@.len() > 0 && n@[0] == '.'
}

/// `e` is a markdown file by its extension.
pub open spec fn markdown_file(e: DirEntry) -> bool {
    !e.is_dir && (e.extension matches Some(x) && x@ == "md"@)
}

/// A visible directory is looked into and a visible markdown file is taken, each
/// behind those that were met before it; all else is passed over.
pub proof fn an_entry_more_is_walked(entries: Seq<DirEntry>, next: DirEntry)
    ensures
        indexer::paths_with(entries.push(next), EntryAction::Descend) == indexer::paths_with(
            entries,
            EntryAction::Descend,
        ) + if next.is_dir && !hidden(next) {
            seq![next.path@]
        } else {
            Seq::empty()
        },
        indexer::paths_with(entries.push(next), EntryAction::Take) == indexer::paths_with(
            entries,
            EntryAction::Take,
        ) + if markdown_file(next) && !hidden(next) {
            seq![next.path@]
        } else {
            Seq::empty()
        },
{
    assert(entries.push(next).drop_last() =~= entries);
    let d = indexer::paths_with(entries, EntryAction::Descend);
    let t = indexer::paths_with(entries, EntryAction::Take);
    assert(d + Seq::<Seq<char>>::empty() =~= d);
    assert(t + Seq::<Seq<char>>::empty() =~= t);
    assert(d.push(next.path@) =~= d + seq![next.path@]);
    assert(t.push(next.path@) =~= t + seq![next.path@]);
}

/// Every visible markdown file of a directory is taken, and what is taken is one.
pub proof fn markdown_files_are_taken(entries: Seq<DirEntry>, path: Seq<char>)
    ensures
        indexer::paths_with(entries, EntryAction::Take).contains(path) <==> exists|i: int|
            0 <= i < entries.len() && markdown_file(#[trigger] entries[i]) && !hidden(entries[i])
                && entries[i].path@ == path,
    decreases entries.len(),
{
    let all = indexer::paths_with(entries, EntryAction::Take);
    if entries.len() > 0 {
        let rest = entries.drop_last();
        let last = entries.last();
        let before = indexer::paths_with(rest, EntryAction::Take);
        markdown_files_are_taken(rest, path);
        an_entry_more_is_walked(rest, last);
        assert(rest.push(last) =~= entries);
        if all.contains(path) {
            let k = choose|k: int| 0 <= k < all.len() && all[k] == path;
            if k < before.len() {
                assert(before[k] == path);
                let i = choose|i: int|
                    0 <= i < rest.len() && markdown_file(#[trigger] rest[i]) && !hidden(rest[i])
                        && rest[i].path@ == path;
                assert(entries[i] == rest[i]);
            } else {
                assert(entries[entries.len() - 1] == last);
            }
        }
        if exists|i: int|
            0 <= i < entries.len() && markdown_file(#[trigger] entries[i]) && !hidden(entries[i])
                && entries[i].path@ == path {
            let i = choose|i: int|
                0 <= i < entries.len() && markdown_file(#[trigger] entries[i]) && !hidden(
                    entries[i],
                ) && entries[i].path@ == path;
            if i < rest.len() {
                assert(rest[i] == entries[i]);
                let k = choose|k: int| 0 <= k < before.len() && before[k] == path;
                assert(all[k] == path);
            } else {
                assert(all[all.len() - 1] == path);
            }
        }
    }
}

// ---------------------------------------------------------------------------
// Sections
// ---------------------------------------------------------------------------

/// A section more is kept behind those before it where it holds something other
/// than white space, and else left out.
pub proof fn a_section_more_is_kept(
    sections: Seq<parser::SectionText>,
    next: parser::SectionText,
)
    ensures
        indexer::visible_sections(sections.push(next)) == indexer::visible_sections(sections)
            + if exists|i: int|
            0 <= i < next.content.len() && !text::white_space(#[trigger] next.content[i]) {
            seq![next]
        } else {
            Seq::empty()
        },
{
    assert(sections.push(next).drop_last() =~= sections);
    let v = indexer::visible_sections(sections);
    assert(v + Seq::<parser::SectionText>::empty() =~= v);
    assert(v.push(next) =~= v + seq![next]);
}

/// What is stored of a file is the file without its blank sections: its frontmatter,
/// its hash and its tokens are those that were read.
pub proof fn a_file_is_kept_without_blank_sections(kept: ParsedFile, parsed: ParsedFile, i: int)
    requires
        indexer::is_kept(kept, parsed),
        0 <= i < parsed.sections@.len(),
    ensures
        kept.frontmatter == parsed.frontmatter,
        kept.content_hash == parsed.content_hash,
        kept.total_tokens == parsed.total_tokens,
        parser::section_texts(kept.sections@).contains(parsed.sections@[i]@) || text::blank(
            parsed.sections@[i].content@,
        ),
{
    lemma_visible_kept(parser::section_texts(parsed.sections@), i);
}

proof fn lemma_visible_kept(sections: Seq<parser::SectionText>, i: int)
    requires
        0 <= i < sections.len(),
    ensures
        indexer::visible_sections(sections).contains(sections[i]) || text::blank(
            sections[i].content,
        ),
    decreases sections.len(),
{
    let rest = sections.drop_last();
    let before = indexer::visible_sections(rest);
    let all = indexer::visible_sections(sections);
    if i < rest.len() {
        lemma_visible_kept(rest, i);
        assert(rest[i] == sections[i]);
        if before.contains(rest[i]) {
            let k = choose|k: int| 0 <= k < before.len() && before[k] == rest[i];
            assert(all[k] == sections[i]);
        }
    } else if !text::blank(sections[i].content) {
        assert(all[all.len() - 1] == sections[i]);
    }
}

} // verus!
