//! What a change in the vault asks for.
use vstd::prelude::*;

use crate::text;
use crate::text::{ascii_lowercase_chars, chars_eq, to_chars};

verus! {

/// The index of the last `c` in `s`; minus one if there is none.
pub open spec fn last_index(s: Seq<char>, c: char) -> int
    decreases s.len(),
{
    if s.len() == 0 {
        -1
    } else if s.last() == c {
        s.len() - 1
    } else {
        last_index(s.drop_last(), c)
    }
}

/// The part of a path after its last slash.
pub open spec fn last_component(path: Seq<char>) -> Seq<char> {
    path.skip(last_index(path, '/') + 1)
}

/// The path without the slashes at its end, nor steps that stay where they are.
pub open spec fn trimmed_path(path: Seq<char>) -> Seq<char>
    decreases path.len(),
{
    let n = path.len();
    if n > 0 && path[n - 1] == '/' {
        trimmed_path(path.drop_last())
    } else if n > 1 && path[n - 1] == '.' && path[n - 2] == '/' {
        trimmed_path(path.drop_last())
    } else {
        path
    }
}

/// The file name that a path ends in; none where it ends in a step to where one
/// is, or up.
pub open spec fn file_name(path: Seq<char>) -> Option<Seq<char>> {
    let last = last_component(trimmed_path(path));
    if last.len() == 0 || last == "."@ || last == ".."@ {
        None
    } else {
        Some(last)
    }
}

/// The path means the same on every system: it has no backslash, no colon in
/// second place, and does not start with two slashes.
pub open spec fn plain_path(path: Seq<char>) -> bool {
    &&& !path.contains('\\')
    &&& !(path.len() >= 2 && path[1] == ':')
    &&& !(path.len() >= 2 && path[0] == '/' && path[1] == '/')
}

/// The part of a file name after its last dot; none where there is no dot but
/// at its start.
pub open spec fn name_extension(name: Seq<char>) -> Option<Seq<char>> {
    let d = last_index(name, '.');
    if d > 0 {
        Some(name.skip(d + 1))
    } else {
        None
    }
}

/// The extension of the file name that a path ends in.
pub open spec fn extension(path: Seq<char>) -> Option<Seq<char>> {
    match file_name(path) {
        Some(name) => name_extension(name),
        None => None,
    }
}

/// `std::path::Path::extension`, as UTF-8 text: the part of the file name after
/// its last dot. Slashes at the end of a path do not count, nor do `.` steps
/// there. Of a path that is not plain nothing is said, since systems differ on
/// what separates components.
#[verifier::external_body]
fn path_extension(path: &str) -> (r: Option<String>)
    ensures
        plain_path(path@) ==> (r is Some <==> extension(path@) is Some),
        plain_path(path@) && r is Some ==> r->0@ == extension(path@)->0,
{
    std::path::Path::new(path).extension().and_then(|e| e.to_str()).map(|e| e.to_owned())
}

/// The extension is that of markdown files, whatever its case.
pub open spec fn markdown_extension(extension: Option<Seq<char>>) -> bool {
    extension matches Some(e) && text::ascii_lowercase(e) == "md"@
}

/// The path is that of a markdown file.
pub open spec fn markdown_path(path: Seq<char>) -> bool {
    markdown_extension(extension(path))
}

/// Whether an extension is that of markdown files.
pub fn is_markdown_extension(extension: Option<&str>) -> (b: bool)
    ensures
        b == markdown_extension(
            match extension {
                Some(e) => Some(e@),
                None => None,
            },
        ),
{
    match extension {
        Some(e) => {
            let c = to_chars(e);
            let low = ascii_lowercase_chars(c.as_slice());
            let md = to_chars("md");
            chars_eq(low.as_slice(), md.as_slice())
        },
        None => false,
    }
}

/// Whether a path is that of a markdown file.
pub fn is_markdown(path: &str) -> (b: bool)
    ensures
        plain_path(path@) ==> b == markdown_path(path@),
{
    match path_extension(path) {
        Some(e) => is_markdown_extension(Some(e.as_str())),
        None => is_markdown_extension(None),
    }
}

/// The path is plain, and that of a markdown file.
pub open spec fn plain_markdown(path: Seq<char>) -> bool {
    plain_path(path) && markdown_path(path)
}

/// Whether one of the paths of an event is that of a markdown file. A plain path
/// of one is enough, whatever the others are; where there is none, only a path on
/// which systems differ can make up for it.
pub fn event_is_markdown(paths: &Vec<String>) -> (b: bool)
    ensures
        (exists|i: int| 0 <= i < paths@.len() && plain_markdown((#[trigger] paths@[i])@)) ==> b,
        b ==> exists|i: int|
            0 <= i < paths@.len() && (markdown_path((#[trigger] paths@[i])@) || !plain_path(
                paths@[i]@,
            )),
{
    for i in 0..paths.len()
        invariant
            forall|k: int| 0 <= k < i ==> !plain_markdown((#[trigger] paths@[k])@),
    {
        if is_markdown(paths[i].as_str()) {
            proof {
                assert(markdown_path(paths@[i as int]@) || !plain_path(paths@[i as int]@));
            }
            return true;
        }
    }
    false
}

/// The kinds of change that the file system reports.
#[derive(Clone, Copy, Debug, PartialEq, Eq, Structural)]
pub enum ChangeKind {
    Create,
    Modify,
    Remove,
    Other,
}

/// What is to be done for a changed path.
#[derive(Clone, Copy, Debug, PartialEq, Eq, Structural)]
pub enum WatchAction {
    Index,
    Remove,
    Ignore,
}

/// A markdown file that came or changed is indexed, one that went is removed;
/// nothing else matters.
pub open spec fn action_for(kind: ChangeKind, markdown: bool) -> WatchAction {
    if !markdown {
        WatchAction::Ignore
    } else {
        match kind {
            ChangeKind::Create => WatchAction::Index,
            ChangeKind::Modify => WatchAction::Index,
            ChangeKind::Remove => WatchAction::Remove,
            ChangeKind::Other => WatchAction::Ignore,
        }
    }
}

/// What is to be done for a changed path.
pub fn watch_action(kind: ChangeKind, markdown: bool) -> (r: WatchAction)
    ensures
        r == action_for(kind, markdown),
{
    if !markdown {
        return WatchAction::Ignore;
    }
    match kind {
        ChangeKind::Create => WatchAction::Index,
        ChangeKind::Modify => WatchAction::Index,
        ChangeKind::Remove => WatchAction::Remove,
        ChangeKind::Other => WatchAction::Ignore,
    }
}

} // verus!
