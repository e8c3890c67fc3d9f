use vstd::prelude::*;
use core::cmp::Ordering;
use crate::value::{compare_text, text_order};

verus! {

/// Opaque, stable name of an addressable UI element.
///
/// Equality is that of the underlying text; no escaping or normalisation
/// is ever applied.
#[derive(Debug, Hash)]
pub struct Id(String);

impl View for Id {
    type V = Seq<char>;

    closed spec fn view(&self) -> Seq<char> {
        self.0@
    }
}

impl Id {
    /// Builds an identifier holding a copy of `text`.
    pub fn new(text: &str) -> (r: Id)
        ensures
            r@ == text@,
    {
        Id(text.to_string())
    }

    /// The identifier's text.
    pub fn as_str(&self) -> (r: &str)
        ensures
            r@ == self@,
    {
        self.0.as_str()
    }

    /// Whether two identifiers name the same element.
    pub fn same(&self, other: &Id) -> (r: bool)
        ensures
            r == (self@ == other@),
    {
        self.0 == other.0
    }
}

impl Clone for Id {
    fn clone(&self) -> (r: Id)
        ensures
            r == *self,
    {
        Id(self.0.clone())
    }
}

impl PartialEq for Id {
    fn eq(&self, other: &Id) -> (r: bool) {
        self.0 == other.0
    }
}

impl vstd::std_specs::cmp::PartialEqSpecImpl for Id {
    open spec fn obeys_eq_spec() -> bool {
        true
    }

    open spec fn eq_spec(&self, other: &Id) -> bool {
        self@ == other@
    }
}

impl Eq for Id {
}

impl Default for Id {
    /// The sentinel identifier: the empty text, which no identifier built
    /// from a non-empty text can equal.
    fn default() -> (r: Id)
        ensures
            r@.len() == 0,
    {
        Id(String::new())
    }
}

impl PartialOrd for Id {
    fn partial_cmp(&self, other: &Id) -> (r: Option<Ordering>) {
        Some(compare_text(&self.0, &other.0))
    }
}

impl vstd::std_specs::cmp::PartialOrdSpecImpl for Id {
    open spec fn obeys_partial_cmp_spec() -> bool {
        true
    }

    open spec fn partial_cmp_spec(&self, other: &Id) -> Option<Ordering> {
        Some(text_order(self@, other@))
    }
}

/// The default identifier is one fixed value, and differs from every
/// identifier built from a non-empty text.
pub proof fn lemma_default_sentinel(d: Id, e: Id, text: &str, id: Id)
    requires
        call_ensures(<Id as Default>::default, (), d),
        call_ensures(<Id as Default>::default, (), e),
        call_ensures(Id::new, (text,), id),
        text@.len() > 0,
    ensures
        d@ == e@,
        id@ != d@,
{
    assert(d@ =~= e@);
}

} // verus!
