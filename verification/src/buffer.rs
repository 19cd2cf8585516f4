//! The output sink that receives generated CSS rule text.
//!
//! The engine never opens or manages a destination itself: it writes each
//! rule to an abstract [`Buffer`] injected by the caller. [`RuleBuffer`]
//! is the in-memory sink, which keeps every written rule and hands them
//! back for inspection.

use vstd::prelude::*;

verus! {

/// A line-oriented writer capability: each call hands one complete rule
/// text to the sink.
pub trait Buffer {
    /// The texts written to the sink so far, in order.
    spec fn contents(&self) -> Seq<Seq<char>>;

    /// Send one rule text to the sink.
    fn write(&mut self, data: &str)
        ensures
            final(self).contents() == old(self).contents().push(data@),
    ;
}

/// An in-memory sink: keeps every written rule as its own string.
#[derive(Debug)]
pub struct RuleBuffer {
    rules: Vec<String>,
}

impl RuleBuffer {
    /// An empty sink.
    pub fn new() -> (r: Self)
        ensures
            r.contents() == Seq::<Seq<char>>::empty(),
    {
        let r = RuleBuffer { rules: Vec::new() };
        proof {
            assert(r.contents() =~= Seq::<Seq<char>>::empty());
        }
        r
    }

    /// The number of rules written so far.
    pub fn rule_count(&self) -> (n: usize)
        ensures
            n == self.contents().len(),
    {
        self.rules.len()
    }

    /// The `i`-th rule written.
    pub fn rule_at<'a>(&'a self, i: usize) -> (s: &'a String)
        requires
            i < self.contents().len(),
        ensures
            s@ == self.contents()[i as int],
    {
        &self.rules[i]
    }

    /// Hand back every rule written, in order.
    pub fn into_rules(self) -> (v: Vec<String>)
        ensures
            v@.map_values(|s: String| s@) == self.contents(),
    {
        self.rules
    }
}

impl Buffer for RuleBuffer {
    closed spec fn contents(&self) -> Seq<Seq<char>> {
        self.rules@.map_values(|s: String| s@)
    }

    fn write(&mut self, data: &str) {
        self.rules.push(data.to_owned());
        proof {
            assert(self.contents() =~= old(self).contents().push(data@));
        }
    }
}

} // verus!
