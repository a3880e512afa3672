//! What holds of the changes in a vault, whatever changes.
use vstd::prelude::*;

use crate::knowledge::watcher;
use crate::knowledge::watcher::{ChangeKind, WatchAction};
use crate::text;

verus! {

proof fn lemma_last_index(s: Seq<char>, c: char, n: int)
    requires
        0 <= n < s.len(),
        s[n] == c,
        forall|i: int| n < i < s.len() ==> #[trigger] s[i] != c,
    ensures
        watcher::last_index(s, c) == n,
    decreases s.len(),
{
    if n < s.len() - 1 {
        let t = s.drop_last();
        assert forall|i: int| n < i < t.len() implies #[trigger] t[i] != c by {
            assert(t[i] == s[i]);
        }
        lemma_last_index(t, c, n);
    }
}

proof fn lemma_no_last_index(s: Seq<char>, c: char)
    requires
        forall|i: int| 0 <= i < s.len() ==> #[trigger] s[i] != c,
    ensures
        watcher::last_index(s, c) == -1,
    decreases s.len(),
{
    if s.len() > 0 {
        let t = s.drop_last();
        assert forall|i: int| 0 <= i < t.len() implies #[trigger] t[i] != c by {
            assert(t[i] == s[i]);
        }
        lemma_no_last_index(t, c);
    }
}

/// A file has the extension that stands behind the last dot of its name, whatever
/// directory it lies in.
pub proof fn an_extension_stands_behind_the_last_dot(
    dir: Seq<char>,
    stem: Seq<char>,
    ext: Seq<char>,
)
    requires
        stem.len() > 0,
        !stem.contains('/'),
        ext.len() > 0,
        !ext.contains('/'),
        !ext.contains('.'),
    ensures
        watcher::extension(dir + seq!['/'] + stem + seq!['.'] + ext) == Some(ext),
        watcher::extension(stem + seq!['.'] + ext) == Some(ext),
{
    let name = stem + seq!['.'] + ext;
    let d = stem.len() as int;
    assert forall|i: int| d < i < name.len() implies #[trigger] name[i] != '.' by {
        assert(name[i] == ext[i - d - 1]);
        assert(ext.contains(ext[i - d - 1]));
    }
    assert(name[d] == '.');
    lemma_last_index(name, '.', d);
    assert(name.skip(d + 1) =~= ext);
    assert forall|i: int| 0 <= i < name.len() implies #[trigger] name[i] != '/' by {
        if i < d {
            assert(name[i] == stem[i]);
        } else if i > d {
            assert(name[i] == ext[i - d - 1]);
        }
    }
    lemma_no_last_index(name, '/');
    assert(name.skip(0) =~= name);
    assert(name.last() == ext.last());
    assert(ext.contains(ext.last()));
    assert(watcher::trimmed_path(name) == name);
    reveal_strlit(".");
    reveal_strlit("..");
    assert(name != "."@ && name != ".."@) by {
        assert("."@.len() == 1);
        assert(".."@.len() == 2 && ".."@[1] == '.');
    }
    let path = dir + seq!['/'] + stem + seq!['.'] + ext;
    assert(path =~= dir + seq!['/'] + name);
    let k = dir.len() as int;
    assert(path[k] == '/');
    assert forall|i: int| k < i < path.len() implies #[trigger] path[i] != '/' by {
        assert(path[i] == name[i - k - 1]);
    }
    lemma_last_index(path, '/', k);
    assert(path.skip(k + 1) =~= name);
    assert(path.last() == ext.last());
    assert(watcher::trimmed_path(path) == path);
}

/// A file whose name has no dot but at its start has no extension.
pub proof fn a_name_without_a_dot_has_no_extension(name: Seq<char>)
    requires
        name.len() > 0,
        forall|i: int| 0 < i < name.len() ==> #[trigger] name[i] != '.',
    ensures
        watcher::name_extension(name) is None,
{
    if name[0] == '.' {
        lemma_last_index(name, '.', 0);
    } else {
        lemma_no_last_index(name, '.');
    }
}

/// Markdown files are those with the two letters `md` as their extension, each in
/// either case.
pub proof fn markdown_files_end_in_md(ext: Seq<char>)
    ensures
        watcher::markdown_extension(Some(ext)) <==> ext.len() == 2 && (ext[0] == 'm' || ext[0]
            == 'M') && (ext[1] == 'd' || ext[1] == 'D'),
        !watcher::markdown_extension(None),
{
    reveal_strlit("md");
    let low = text::ascii_lowercase(ext);
    assert(low.len() == ext.len());
    if ext.len() == 2 {
        assert(low[0] == text::ascii_lower(ext[0]) && low[1] == text::ascii_lower(ext[1]));
        assert("md"@[0] == 'm' && "md"@[1] == 'd');
        assert(low == "md"@ <==> low[0] == 'm' && low[1] == 'd') by {
            if low[0] == 'm' && low[1] == 'd' {
                assert(low =~= "md"@);
            }
        }
    } else {
        assert("md"@.len() == 2);
    }
}

/// A markdown file that came or changed is indexed, one that went is removed, and
/// nothing is done for any other file or change.
pub proof fn changes_to_markdown_files_count(kind: ChangeKind)
    ensures
        watcher::action_for(ChangeKind::Create, true) == WatchAction::Index,
        watcher::action_for(ChangeKind::Modify, true) == WatchAction::Index,
        watcher::action_for(ChangeKind::Remove, true) == WatchAction::Remove,
        watcher::action_for(ChangeKind::Other, true) == WatchAction::Ignore,
        watcher::action_for(kind, false) == WatchAction::Ignore,
{
}

} // verus!
