//! Identifiers.

use vstd::prelude::*;

use crate::utils::text::{decimal, push_decimal};

verus! {

/// An identifier: the text the programmer wrote, and a number that tells
/// apart identifiers with the same text (none for a plain identifier).
#[derive(Debug, PartialEq, Eq)]
pub struct Name {
    pub sym: String,
    pub id: Option<u64>,
}

/// What a `Name` stands for.
pub struct NameView {
    pub sym: Seq<char>,
    pub id: Option<u64>,
}

impl View for Name {
    type V = NameView;

    open spec fn view(&self) -> NameView {
        NameView { sym: self.sym@, id: self.id }
    }
}

pub open spec fn names_view(ns: Seq<Name>) -> Seq<NameView> {
    ns.map_values(|n: Name| n@)
}

pub proof fn lemma_names_view_push(ns: Seq<Name>, n: Name)
    ensures
        names_view(ns.push(n)) == names_view(ns).push(n@),
{
    assert(names_view(ns.push(n)) =~= names_view(ns).push(n@));
}

impl NameView {
    /// How the name is written in generated text: its text, followed by an
    /// underscore and its number when it has one.
    pub open spec fn text(self) -> Seq<char> {
        match self.id {
            None => self.sym,
            Some(n) => self.sym + "_"@ + decimal(n as nat),
        }
    }
}

impl Name {
    /// A plain name with the given text.
    pub fn new(sym: String) -> (r: Name)
        ensures
            r@ == (NameView { sym: sym@, id: None }),
    {
        Name { sym, id: None }
    }

    /// A name with the given text and number.
    pub fn sym_str(s: &str, n: u64) -> (r: Name)
        ensures
            r@ == (NameView { sym: s@, id: Some(n) }),
    {
        Name { sym: s.to_string(), id: Some(n) }
    }

    pub fn get_str(&self) -> (r: &String)
        ensures
            r@ == self@.sym,
    {
        &self.sym
    }

    /// Whether the two names are the same name.
    pub fn eq_name(&self, other: &Name) -> (r: bool)
        ensures
            r == (self@ == other@),
    {
        let same_sym = self.sym == other.sym;
        let same_id = match (self.id, other.id) {
            (None, None) => true,
            (Some(a), Some(b)) => a == b,
            _ => false,
        };
        same_sym && same_id
    }

    /// The name as it is written in generated text.
    pub fn pprint(&self) -> (r: String)
        ensures
            r@ == self@.text(),
    {
        let mut s = self.sym.clone();
        match self.id {
            None => {},
            Some(n) => {
                s.append("_");
                push_decimal(&mut s, n);
            },
        }
        s
    }
}

impl Clone for Name {
    fn clone(&self) -> (r: Name)
        ensures
            r@ == self@,
    {
        Name { sym: self.sym.clone(), id: self.id }
    }
}

} // verus!
