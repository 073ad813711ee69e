//! The one search box: a text that is looked for in the names and, where it
//! writes a number, also taken as an id.

use crate::text::{chars_of, contains, contains_chars, parse_i32, parse_i32_spec};
use vstd::prelude::*;

verus! {

/// Whether a record with this id and name answers the search text: the
/// name contains the text, upper and lower case kept apart, or the text
/// writes the id. The empty text is part of every name.
pub open spec fn search_accepts(search: Seq<char>, id: i32, name: Seq<char>) -> bool {
    contains(name, search) || parse_i32_spec(search) == Some(id)
}

/// A search text made ready to be held against many records.
pub struct SearchFilter {
    pattern: Vec<char>,
    id: Option<i32>,
}

impl SearchFilter {
    /// The search text.
    pub closed spec fn search(&self) -> Seq<char> {
        self.pattern@
    }

    #[verifier::type_invariant]
    spec fn well_formed(self) -> bool {
        self.id == parse_i32_spec(self.pattern@)
    }

    /// Composes the filter of a search text.
    pub fn new(search: &str) -> (filter: SearchFilter)
        ensures
            filter.search() == search@,
    {
        SearchFilter { pattern: chars_of(search), id: parse_i32(search) }
    }

    /// The id that the search text writes, if it writes one.
    pub fn id(&self) -> (id: Option<i32>)
        ensures
            id == parse_i32_spec(self.search()),
    {
        proof {
            use_type_invariant(self);
        }
        self.id
    }

    /// Whether a record with this id and name answers the search.
    pub fn accepts(&self, id: i32, name: &str) -> (r: bool)
        ensures
            r == search_accepts(self.search(), id, name@),
    {
        proof {
            use_type_invariant(self);
        }
        let name_chars: Vec<char> = chars_of(name);
        if contains_chars(&name_chars, &self.pattern) {
            return true;
        }
        match self.id {
            Some(wanted) => wanted == id,
            None => false,
        }
    }
}

/// The empty search accepts every record.
pub proof fn lemma_empty_search_accepts(id: i32, name: Seq<char>)
    ensures
        search_accepts(Seq::<char>::empty(), id, name),
{
    let empty = Seq::<char>::empty();
    assert(name.subrange(0, 0) =~= empty);
    assert(crate::text::occurs_at(name, empty, 0));
}

} // verus!
