//! Policy-list entries: a variable name, optionally constrained by a glob
//! pattern on the variable's value.

use vstd::prelude::*;
use crate::glob::{glob_matches, glob_match, str_eq};

verus! {

/// The mathematical content of one policy-list entry. Two entries are the
/// same member of a list exactly when their name and pattern agree.
#[verifier::ext_equal]
pub struct EntryModel {
    pub name: Seq<char>,
    pub pattern: Option<Seq<char>>,
}

/// One policy-list entry: either a bare variable name, matched by
/// presence, or a name together with a glob pattern that the variable's
/// value must match.
pub struct Entry {
    pub name: String,
    pub pattern: Option<String>,
}

impl View for Entry {
    type V = EntryModel;

    open spec fn view(&self) -> EntryModel {
        EntryModel {
            name: self.name@,
            pattern: match self.pattern {
                Some(p) => Some(p@),
                None => None,
            },
        }
    }
}

/// Whether the entry matches a variable of the given name and value: a
/// bare name matches by name alone; a name with a pattern additionally
/// requires the value to match the pattern.
pub open spec fn entry_matches(e: EntryModel, name: Seq<char>, value: Seq<char>) -> bool {
    match e.pattern {
        None => e.name == name,
        Some(p) => e.name == name && glob_matches(p, value),
    }
}

impl Entry {
    /// An entry that matches a variable by name alone.
    pub fn bare(name: &str) -> (e: Entry)
        ensures
            e@ == (EntryModel { name: name@, pattern: None }),
    {
        Entry { name: name.to_owned(), pattern: None }
    }

    /// An entry that matches a variable by name and constrains its value
    /// by a glob pattern.
    pub fn with_pattern(name: &str, pattern: &str) -> (e: Entry)
        ensures
            e@ == (EntryModel { name: name@, pattern: Some(pattern@) }),
    {
        Entry { name: name.to_owned(), pattern: Some(pattern.to_owned()) }
    }

    /// A copy of the entry with the same name and pattern.
    pub fn clone_entry(&self) -> (e: Entry)
        ensures
            e@ == self@,
    {
        let e = Entry {
            name: self.name.clone(),
            pattern: match &self.pattern {
                Some(p) => Some(p.clone()),
                None => None,
            },
        };
        proof {
            assert(e@ =~= self@);
        }
        e
    }

    /// Whether this entry and `other` are the same list member.
    pub fn same_entry(&self, other: &Entry) -> (r: bool)
        ensures
            r == (self@ == other@),
    {
        let names_equal = str_eq(self.name.as_str(), other.name.as_str());
        let r = match (&self.pattern, &other.pattern) {
            (None, None) => names_equal,
            (Some(p), Some(q)) => names_equal && str_eq(p.as_str(), q.as_str()),
            _ => false,
        };
        proof {
            if r {
                assert(self@ =~= other@);
            }
        }
        r
    }

    /// Whether this entry matches a variable of the given name and value.
    pub fn matches(&self, name: &str, value: &str) -> (r: bool)
        ensures
            r == entry_matches(self@, name@, value@),
    {
        match &self.pattern {
            None => str_eq(self.name.as_str(), name),
            Some(p) => str_eq(self.name.as_str(), name) && glob_match(p.as_str(), value),
        }
    }
}

} // verus!
