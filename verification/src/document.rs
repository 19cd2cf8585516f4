//! The configuration document: a tree of plain values.
//!
//! A token store is built from a structured key/value document. The tree
//! here holds exactly what the configuration model reads: text, integers,
//! lists and tables (ordered key/value pairs). Lookups in a table return
//! the value of the first pair whose key matches.

use crate::store::assoc_find;
use crate::store::map_get;
use vstd::prelude::*;

verus! {

/// One node of a configuration document.
#[derive(Debug)]
pub enum Doc {
    /// An absent or unusable value.
    Null,
    /// A boolean value.
    Flag(bool),
    /// An integer value.
    Int(i64),
    /// A text value.
    Text(String),
    /// An ordered list of values.
    List(Vec<Doc>),
    /// An ordered table of key/value pairs.
    Table(Vec<(String, Doc)>),
}

impl Doc {
    /// The table entries when the node is a table; the empty sequence
    /// otherwise.
    pub open spec fn entries(self) -> Seq<(String, Doc)> {
        match self {
            Doc::Table(t) => t@,
            _ => Seq::empty(),
        }
    }

    /// The node's text when it holds text.
    pub open spec fn text(self) -> Option<Seq<char>> {
        match self {
            Doc::Text(s) => Some(s@),
            _ => None,
        }
    }

    /// The value found under `k` when the node is a table that holds the
    /// key.
    pub open spec fn find(self, k: Seq<char>) -> Option<Doc> {
        assoc_find(self.entries(), k)
    }

    /// Look a key up in a table node. Returns nothing when the node is
    /// not a table or no pair carries the key.
    pub fn get<'a>(&'a self, key: &str) -> (r: Option<&'a Doc>)
        ensures
            match r {
                Some(d) => self.find(key@) == Some(*d),
                None => self.find(key@) is None,
            },
    {
        match self {
            Doc::Table(t) => map_get(t, key),
            _ => None,
        }
    }

    /// The node's text, when it holds text.
    pub fn as_text<'a>(&'a self) -> (r: Option<&'a String>)
        ensures
            match r {
                Some(s) => self.text() == Some(s@),
                None => self.text() is None,
            },
    {
        match self {
            Doc::Text(s) => Some(s),
            _ => None,
        }
    }
}

} // verus!
