//! Escaping of class-name selectors.
//!
//! CSS class selectors may not contain a literal `.` or `/`; keys derived
//! from fractional or slash-delimited tokens (`1.5`, `1/2`) get those
//! characters escaped as `\.` and `\/` before they are emitted.

use vstd::prelude::*;

verus! {

/// Relies on std's `String::push`: appends the character to the end of
/// the string.
pub assume_specification[ String::push ](s: &mut String, c: char)
    ensures
        final(s)@ == old(s)@.push(c),
;

/// The escaped form of a single selector character.
pub open spec fn escape_char(c: char) -> Seq<char> {
    if c == '.' {
        seq!['\\', '.']
    } else if c == '/' {
        seq!['\\', '/']
    } else {
        seq![c]
    }
}

/// The escaped form of a selector: every `.` becomes `\.` and every `/`
/// becomes `\/`; all other characters are kept as they are.
pub open spec fn escape_seq(s: Seq<char>) -> Seq<char>
    decreases s.len(),
{
    if s.len() == 0 {
        Seq::empty()
    } else {
        escape_seq(s.drop_last()) + escape_char(s.last())
    }
}

/// Escaping a string that contains no `.` and no `/` leaves it unchanged.
pub proof fn lemma_escape_id(s: Seq<char>)
    requires
        forall|i: int| 0 <= i < s.len() ==> s[i] != '.' && s[i] != '/',
    ensures
        escape_seq(s) == s,
    decreases s.len(),
{
    if s.len() == 0 {
        assert(escape_seq(s) =~= s);
    } else {
        lemma_escape_id(s.drop_last());
        assert(escape_seq(s) =~= s.drop_last() + seq![s.last()]);
        assert(s.drop_last() + seq![s.last()] =~= s);
    }
}

/// Produce the escaped form of a class-name selector.
pub trait EscapeClassName: View<V = Seq<char>> {
    /// Return the text with `.` and `/` escaped for use in a selector.
    fn escape_class_name(&self) -> (r: String)
        ensures
            r@ == escape_seq(self.view()),
    ;
}

impl EscapeClassName for String {
    fn escape_class_name(&self) -> (r: String) {
        escape_str(self.as_str())
    }
}

impl EscapeClassName for str {
    fn escape_class_name(&self) -> (r: String) {
        escape_str(self)
    }
}

/// Return `s` with `.` and `/` escaped for use in a selector.
pub fn escape_str(s: &str) -> (r: String)
    ensures
        r@ == escape_seq(s@),
{
    let n = s.unicode_len();
    let mut out = String::new();
    let mut i: usize = 0;
    while i < n
        invariant
            i <= n,
            n == s@.len(),
            out@ == escape_seq(s@.subrange(0, i as int)),
        decreases n - i,
    {
        let c = s.get_char(i);
        if c == '.' {
            out.push('\\');
            out.push('.');
        } else if c == '/' {
            out.push('\\');
            out.push('/');
        } else {
            out.push(c);
        }
        proof {
            let pre = s@.subrange(0, i as int);
            let cur = s@.subrange(0, i + 1);
            assert(cur.drop_last() =~= pre);
            assert(cur.last() == s@[i as int]);
            assert(out@ =~= escape_seq(cur));
        }
        i = i + 1;
    }
    proof {
        assert(s@.subrange(0, n as int) =~= s@);
    }
    out
}

} // verus!
