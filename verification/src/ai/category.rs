//! The categories of messages.
use vstd::prelude::*;

use crate::text;
use crate::text::{ascii_lowercase_chars, from_chars, str_eq, to_chars, trim_chars};

verus! {

/// The categories that a message can be given.
#[derive(Clone, Copy, Debug, PartialEq, Eq, Structural)]
pub enum Category {
    Work,
    Personal,
    Finance,
    Family,
    Notifications,
    Newsletters,
    Spam,
}

/// The text of a category.
pub open spec fn category_text(c: Category) -> Seq<char> {
    match c {
        Category::Work => "work"@,
        Category::Personal => "personal"@,
        Category::Finance => "finance"@,
        Category::Family => "family"@,
        Category::Notifications => "notifications"@,
        Category::Newsletters => "newsletters"@,
        Category::Spam => "spam"@,
    }
}

/// The text that decides on a category: without white space at its ends, and in
/// lower case.
pub open spec fn category_key(s: Seq<char>) -> Seq<char> {
    text::ascii_lowercase(text::trim(s))
}

/// No two categories have the same text.
pub proof fn category_text_is_injective(a: Category, b: Category)
    requires
        category_text(a) == category_text(b),
    ensures
        a == b,
{
    reveal_strlit("work");
    reveal_strlit("personal");
    reveal_strlit("finance");
    reveal_strlit("family");
    reveal_strlit("notifications");
    reveal_strlit("newsletters");
    reveal_strlit("spam");
    assert("work"@.len() == 4 && "personal"@.len() == 8 && "finance"@.len() == 7);
    assert("family"@.len() == 6 && "notifications"@.len() == 13 && "newsletters"@.len() == 11);
    assert("spam"@.len() == 4 && "spam"@[0] == 's' && "work"@[0] == 'w');
    assert(category_text(a).len() == category_text(b).len());
    assert(category_text(a)[0] == category_text(b)[0]);
    match a {
        Category::Work => assert(b is Work),
        Category::Personal => assert(b is Personal),
        Category::Finance => assert(b is Finance),
        Category::Family => assert(b is Family),
        Category::Notifications => assert(b is Notifications),
        Category::Newsletters => assert(b is Newsletters),
        Category::Spam => assert(b is Spam),
    }
}

impl Category {
    /// The text of the category.
    pub fn as_str(&self) -> (r: &'static str)
        ensures
            r@ == category_text(*self),
    {
        match self {
            Category::Work => "work",
            Category::Personal => "personal",
            Category::Finance => "finance",
            Category::Family => "family",
            Category::Notifications => "notifications",
            Category::Newsletters => "newsletters",
            Category::Spam => "spam",
        }
    }

    /// The category that `s` names, whatever its case and the white space round
    /// it.
    pub fn from_str(s: &str) -> (r: Option<Category>)
        ensures
            r matches Some(c) ==> category_text(c) == category_key(s@),
            r is None ==> forall|c: Category| #[trigger] category_text(c) != category_key(s@),
            forall|c: Category| #[trigger] category_text(c) == category_key(s@) ==> r == Some(c),
    {
        let v = to_chars(s);
        let low = ascii_lowercase_chars(trim_chars(v.as_slice()));
        let key = from_chars(low.as_slice());
        let k = key.as_str();
        proof {
            assert forall|a: Category, b: Category|
                #[trigger] category_text(a) == #[trigger] category_text(b) implies a == b by {
                category_text_is_injective(a, b);
            }
        }
        if str_eq(k, "work") {
            assert(category_text(Category::Work) == k@);
            Some(Category::Work)
        } else if str_eq(k, "personal") {
            assert(category_text(Category::Personal) == k@);
            Some(Category::Personal)
        } else if str_eq(k, "finance") {
            assert(category_text(Category::Finance) == k@);
            Some(Category::Finance)
        } else if str_eq(k, "family") {
            assert(category_text(Category::Family) == k@);
            Some(Category::Family)
        } else if str_eq(k, "notifications") {
            assert(category_text(Category::Notifications) == k@);
            Some(Category::Notifications)
        } else if str_eq(k, "newsletters") {
            assert(category_text(Category::Newsletters) == k@);
            Some(Category::Newsletters)
        } else if str_eq(k, "spam") {
            assert(category_text(Category::Spam) == k@);
            Some(Category::Spam)
        } else {
            None
        }
    }

    /// The texts of all categories.
    pub fn all_strs() -> (r: [&'static str; 7])
        ensures
            r@[0]@ == category_text(Category::Work),
            r@[1]@ == category_text(Category::Personal),
            r@[2]@ == category_text(Category::Finance),
            r@[3]@ == category_text(Category::Family),
            r@[4]@ == category_text(Category::Notifications),
            r@[5]@ == category_text(Category::Newsletters),
            r@[6]@ == category_text(Category::Spam),
    {
        ["work", "personal", "finance", "family", "notifications", "newsletters", "spam"]
    }
}

/// The text of a category names that category.
pub proof fn category_text_names_itself(c: Category)
    ensures
        category_key(category_text(c)) == category_text(c),
{
    reveal_strlit("work");
    reveal_strlit("personal");
    reveal_strlit("finance");
    reveal_strlit("family");
    reveal_strlit("notifications");
    reveal_strlit("newsletters");
    reveal_strlit("spam");
    let t = category_text(c);
    lemma_small_letters(c);
    text::lemma_first_visible(t, 0);
    assert(t.skip(0) =~= t);
    text::lemma_visible_end(t, t.len() as int);
    assert(t.take(t.len() as int) =~= t);
    assert(text::ascii_lowercase(t) =~= t);
}

/// The text of a category is made of small letters.
proof fn lemma_small_letters(c: Category)
    ensures
        category_text(c).len() > 0,
        forall|i: int|
            0 <= i < category_text(c).len() ==> 'a' <= (#[trigger] category_text(c)[i]) <= 'z',
{
    reveal_strlit("work");
    reveal_strlit("personal");
    reveal_strlit("finance");
    reveal_strlit("family");
    reveal_strlit("notifications");
    reveal_strlit("newsletters");
    reveal_strlit("spam");
}

/// Two texts that differ only in the case of ASCII letters and in the white
/// space round them name the same category, or both none.
pub proof fn category_ignores_case(a: Seq<char>, b: Seq<char>, c: Category)
    requires
        text::ascii_lowercase(text::trim(a)) == text::ascii_lowercase(text::trim(b)),
    ensures
        category_text(c) == category_key(a) <==> category_text(c) == category_key(b),
{
}

} // verus!
