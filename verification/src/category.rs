//! The joke categories that a request may name.

use crate::text::same_text;
use vstd::prelude::*;

verus! {

/// A joke category. Each has a name, by which a request selects it.
#[derive(Clone, Copy, Debug, PartialEq, Eq, Structural)]
pub enum Category {
    Any,
    Programming,
    Misc,
    Dark,
    Pun,
    Spooky,
    Christmas,
}

impl Category {
    /// The name of the category, in lower case.
    pub open spec fn name(self) -> Seq<char> {
        match self {
            Category::Any => "any"@,
            Category::Programming => "programming"@,
            Category::Misc => "misc"@,
            Category::Dark => "dark"@,
            Category::Pun => "pun"@,
            Category::Spooky => "spooky"@,
            Category::Christmas => "christmas"@,
        }
    }

    /// The category that `token` names, if it names one. The match is exact:
    /// a name in another case, or with anything around it, names nothing.
    pub open spec fn named(token: Seq<char>) -> Option<Category> {
        if token == Category::Any.name() {
            Some(Category::Any)
        } else if token == Category::Programming.name() {
            Some(Category::Programming)
        } else if token == Category::Misc.name() {
            Some(Category::Misc)
        } else if token == Category::Dark.name() {
            Some(Category::Dark)
        } else if token == Category::Pun.name() {
            Some(Category::Pun)
        } else if token == Category::Spooky.name() {
            Some(Category::Spooky)
        } else if token == Category::Christmas.name() {
            Some(Category::Christmas)
        } else {
            None
        }
    }

    /// The name of the category.
    pub fn as_str(self) -> (name: &'static str)
        ensures
            name@ == self.name(),
    {
        match self {
            Category::Any => "any",
            Category::Programming => "programming",
            Category::Misc => "misc",
            Category::Dark => "dark",
            Category::Pun => "pun",
            Category::Spooky => "spooky",
            Category::Christmas => "christmas",
        }
    }

    /// Reads a category from its name: `Some` exactly when `token` is the
    /// name of a category, and then that category.
    pub fn parse(token: &str) -> (category: Option<Category>)
        ensures
            category == Category::named(token@),
    {
        if same_text(token, Category::Any.as_str()) {
            Some(Category::Any)
        } else if same_text(token, Category::Programming.as_str()) {
            Some(Category::Programming)
        } else if same_text(token, Category::Misc.as_str()) {
            Some(Category::Misc)
        } else if same_text(token, Category::Dark.as_str()) {
            Some(Category::Dark)
        } else if same_text(token, Category::Pun.as_str()) {
            Some(Category::Pun)
        } else if same_text(token, Category::Spooky.as_str()) {
            Some(Category::Spooky)
        } else if same_text(token, Category::Christmas.as_str()) {
            Some(Category::Christmas)
        } else {
            None
        }
    }
}

/// No two categories share a name.
pub proof fn names_are_distinct(a: Category, b: Category)
    requires
        a.name() == b.name(),
    ensures
        a == b,
{
    reveal_strlit("any");
    reveal_strlit("programming");
    reveal_strlit("misc");
    reveal_strlit("dark");
    reveal_strlit("pun");
    reveal_strlit("spooky");
    reveal_strlit("christmas");
    if a != b {
        let x = a.name();
        let y = b.name();
        assert(x.len() != y.len() || x[0] != y[0]);
    }
}

/// A token names a category exactly when it is that category's name; so
/// every category is read back from its own name.
pub proof fn named_is_by_name(token: Seq<char>, category: Category)
    ensures
        Category::named(token) == Some(category) <==> token == category.name(),
        Category::named(category.name()) == Some(category),
{
    if token == category.name() {
        match Category::named(token) {
            Some(found) => {
                names_are_distinct(found, category);
            },
            None => {},
        }
    }
    match Category::named(category.name()) {
        Some(found) => {
            names_are_distinct(found, category);
        },
        None => {},
    }
}

/// A token that names no category differs from every category's name.
pub proof fn unnamed_matches_nothing(token: Seq<char>, category: Category)
    requires
        Category::named(token) is None,
    ensures
        token != category.name(),
{
}

/// A category's name is a single word of lower-case letters.
pub proof fn names_are_lower_case_words(category: Category)
    ensures
        category.name().len() > 0,
        forall|i: int|
            0 <= i < category.name().len() ==> 'a' <= #[trigger] category.name()[i] <= 'z',
{
    reveal_strlit("any");
    reveal_strlit("programming");
    reveal_strlit("misc");
    reveal_strlit("dark");
    reveal_strlit("pun");
    reveal_strlit("spooky");
    reveal_strlit("christmas");
}

} // verus!
