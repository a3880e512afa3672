//! The user's own description.
use vstd::prelude::*;
use vstd::string::StringExecFns;

use crate::text;
use crate::text::{from_chars, is_blank, to_chars};
use vstd::slice::slice_subrange;

verus! {

/// What the user wrote about themselves, for every prompt.
#[derive(Debug)]
pub struct UserProfile {
    pub content: String,
}

/// The most characters of a profile that go into a prompt.
pub const MAX_PROFILE_CHARS: usize = 4000;

/// A profile as it goes into prompts: a long one is cut, and says so.
pub open spec fn profile_text(raw: Seq<char>) -> Seq<char> {
    if raw.len() > MAX_PROFILE_CHARS {
        raw.take(MAX_PROFILE_CHARS - 12) + "[truncated]"@
    } else {
        raw
    }
}

impl UserProfile {
    /// The profile that a file holds; an empty one where the file could not be
    /// read.
    pub fn load(read: Option<String>) -> (r: UserProfile)
        ensures
            r.content@ == match read {
                Some(raw) => profile_text(raw@),
                None => Seq::empty(),
            },
    {
        match read {
            Some(raw) => {
                let v = to_chars(raw.as_str());
                if v.len() > MAX_PROFILE_CHARS {
                    let mut content = from_chars(
                        slice_subrange(v.as_slice(), 0, MAX_PROFILE_CHARS - 12),
                    );
                    content.append("[truncated]");
                    UserProfile { content }
                } else {
                    UserProfile { content: raw }
                }
            },
            None => {
                let content = String::new();
                proof {
                    assert(content@ =~= Seq::empty());
                }
                UserProfile { content }
            },
        }
    }

    /// Whether the profile holds anything visible.
    pub fn has_content(&self) -> (r: bool)
        ensures
            r == !text::blank(self.content@),
    {
        !is_blank(self.content.as_str())
    }
}

/// No profile is longer than its budget.
pub proof fn profile_fits_its_budget(raw: Seq<char>)
    ensures
        profile_text(raw).len() <= MAX_PROFILE_CHARS,
{
    reveal_strlit("[truncated]");
}

} // verus!
