//! Collection of class-name tokens from markup attribute text.
//!
//! A `class` attribute holds whitespace-separated tokens; the collector
//! splits them out and keeps each distinct token once, in order of first
//! appearance.

use crate::strutil::str_eq;
use vstd::prelude::*;

verus! {

/// A whitespace character that separates class-name tokens.
pub open spec fn is_space(c: char) -> bool {
    c == ' ' || c == '\t' || c == '\n' || c == '\r'
}

/// The words of attribute text already begun with `cur`: maximal runs of
/// non-whitespace characters, in order.
pub open spec fn words_rec(s: Seq<char>, cur: Seq<char>) -> Seq<Seq<char>>
    decreases s.len(),
{
    let flushed: Seq<Seq<char>> = if cur.len() == 0 {
        Seq::empty()
    } else {
        seq![cur]
    };
    if s.len() == 0 {
        flushed
    } else if is_space(s[0]) {
        flushed + words_rec(s.drop_first(), Seq::empty())
    } else {
        words_rec(s.drop_first(), cur.push(s[0]))
    }
}

/// The whitespace-separated words of attribute text, in order.
pub open spec fn words_of(s: Seq<char>) -> Seq<Seq<char>> {
    words_rec(s, Seq::empty())
}

/// The collection holds a token that reads `w`.
pub open spec fn contains_token(v: Seq<String>, w: Seq<char>) -> bool {
    exists|i: int| 0 <= i < v.len() && v[i]@ == w
}

/// No two tokens of the collection read the same.
pub open spec fn distinct_tokens(v: Seq<String>) -> bool {
    forall|i: int, j: int| 0 <= i < j < v.len() ==> v[i]@ != v[j]@
}

/// The collected class-name tokens of a document.
#[derive(Debug)]
pub struct Css {
    /// The tokens seen so far, each once, in order of first appearance.
    pub source: Vec<String>,
}

/// Report whether the collection holds a token reading like `w`.
fn holds_token(v: &Vec<String>, w: &str) -> (r: bool)
    ensures
        r == contains_token(v@, w@),
{
    let n = v.len();
    let mut i: usize = 0;
    while i < n
        invariant
            i <= n,
            n == v@.len(),
            forall|j: int| 0 <= j < i ==> v@[j]@ != w@,
        decreases n - i,
    {
        if str_eq(v[i].as_str(), w) {
            return true;
        }
        i = i + 1;
    }
    false
}

/// Add a token unless one reading the same is already held.
fn insert_unique(v: &mut Vec<String>, w: String)
    ensures
        forall|x: Seq<char>|
            #[trigger] contains_token(final(v)@, x) <==> (contains_token(old(v)@, x) || x == w@),
        distinct_tokens(old(v)@) ==> distinct_tokens(final(v)@),
{
    if holds_token(v, w.as_str()) {
        return;
    }
    let ghost before = v@;
    v.push(w);
    proof {
        assert forall|x: Seq<char>|
            #[trigger] contains_token(v@, x) <==> (contains_token(before, x) || x == w@) by {
            if contains_token(before, x) {
                let i = choose|i: int| 0 <= i < before.len() && before[i]@ == x;
                assert(v@[i]@ == x);
            }
            if x == w@ {
                assert(v@[before.len() as int]@ == x);
            }
            if contains_token(v@, x) {
                let i = choose|i: int| 0 <= i < v@.len() && v@[i]@ == x;
                if i < before.len() {
                    assert(before[i]@ == x);
                }
            }
        }
    }
}

impl Css {
    /// An empty collection.
    pub fn new() -> (r: Self)
        ensures
            r.source@.len() == 0,
            distinct_tokens(r.source@),
    {
        Css { source: Vec::new() }
    }

    /// Split attribute text on whitespace and add each word that is not
    /// yet held.
    pub fn push(&mut self, class: &str)
        ensures
            forall|x: Seq<char>|
                #[trigger] contains_token(final(self).source@, x) <==> (contains_token(
                    old(self).source@,
                    x,
                ) || words_of(class@).contains(x)),
            distinct_tokens(old(self).source@) ==> distinct_tokens(final(self).source@),
    {
        let n = class.unicode_len();
        let mut cur = String::new();
        let ghost mut done: Seq<Seq<char>> = Seq::empty();
        proof {
            assert(class@.skip(0) =~= class@);
            assert(done + words_rec(class@, cur@) =~= words_rec(class@, cur@));
        }
        let mut i: usize = 0;
        while i < n
            invariant
                i <= n,
                n == class@.len(),
                words_of(class@) == done + words_rec(class@.skip(i as int), cur@),
                forall|x: Seq<char>|
                    #[trigger] contains_token(self.source@, x) <==> (contains_token(
                        old(self).source@,
                        x,
                    ) || done.contains(x)),
                distinct_tokens(old(self).source@) ==> distinct_tokens(self.source@),
            decreases n - i,
        {
            let c = class.get_char(i);
            let ghost rest = class@.skip(i as int);
            let ghost rest1 = class@.skip(i + 1);
            proof {
                assert(rest.len() > 0);
                assert(rest[0] == class@[i as int]);
                assert(rest.drop_first() =~= rest1);
                assert(words_rec(rest.drop_first(), Seq::empty()) == words_rec(
                    rest1,
                    Seq::empty(),
                ));
            }
            if c == ' ' || c == '\t' || c == '\n' || c == '\r' {
                assert(is_space(rest[0]));
                if cur.unicode_len() > 0 {
                    let ghost word = cur@;
                    let ghost before_done = done;
                    proof {
                        assert(words_rec(rest, word) == seq![word] + words_rec(
                            rest1,
                            Seq::empty(),
                        ));
                        done = done.push(word);
                        assert(done + words_rec(rest1, Seq::empty()) =~= before_done + (seq![word]
                            + words_rec(rest1, Seq::empty())));
                        assert forall|x: Seq<char>|
                            done.contains(x) <==> (before_done.contains(x) || x == word) by {
                            if before_done.contains(x) {
                                let k = choose|k: int|
                                    0 <= k < before_done.len() && before_done[k] == x;
                                assert(done[k] == x);
                            }
                            if x == word {
                                assert(done[before_done.len() as int] == x);
                            }
                            if done.contains(x) {
                                let k = choose|k: int| 0 <= k < done.len() && done[k] == x;
                                if k < before_done.len() {
                                    assert(before_done[k] == x);
                                }
                            }
                        }
                    }
                    insert_unique(&mut self.source, cur);
                    cur = String::new();
                } else {
                    proof {
                        assert(cur@ =~= Seq::<char>::empty());
                        assert(words_rec(rest, cur@) == Seq::<Seq<char>>::empty() + words_rec(
                            rest.drop_first(),
                            Seq::empty(),
                        ));
                        assert(Seq::<Seq<char>>::empty() + words_rec(rest1, Seq::empty())
                            =~= words_rec(rest1, Seq::empty()));
                        assert(words_rec(rest, cur@) == words_rec(rest1, cur@));
                    }
                }
            } else {
                let ghost oldcur = cur@;
                cur.push(c);
                proof {
                    assert(!is_space(rest[0]));
                    assert(words_rec(rest, oldcur) == words_rec(
                        rest.drop_first(),
                        oldcur.push(rest[0]),
                    ));
                    assert(words_rec(rest.drop_first(), oldcur.push(rest[0])) == words_rec(
                        rest1,
                        cur@,
                    ));
                }
            }
            i = i + 1;
        }
        proof {
            assert(class@.skip(n as int) =~= Seq::<char>::empty());
        }
        if cur.unicode_len() > 0 {
            let ghost word = cur@;
            let ghost before_done = done;
            proof {
                assert(words_rec(class@.skip(n as int), word) == seq![word]);
                done = done.push(word);
                assert(done =~= before_done + seq![word]);
                assert(words_of(class@) == done);
                assert forall|x: Seq<char>|
                    done.contains(x) <==> (before_done.contains(x) || x == word) by {
                    if before_done.contains(x) {
                        let k = choose|k: int| 0 <= k < before_done.len() && before_done[k] == x;
                        assert(done[k] == x);
                    }
                    if x == word {
                        assert(done[before_done.len() as int] == x);
                    }
                    if done.contains(x) {
                        let k = choose|k: int| 0 <= k < done.len() && done[k] == x;
                        if k < before_done.len() {
                            assert(before_done[k] == x);
                        }
                    }
                }
            }
            insert_unique(&mut self.source, cur);
        } else {
            proof {
                assert(words_rec(class@.skip(n as int), cur@) =~= Seq::<Seq<char>>::empty());
                assert(words_of(class@) =~= done);
            }
        }
    }
}

} // verus!
