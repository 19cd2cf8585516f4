//! Small verified helpers over strings: equality, prefix tests, and the
//! dash-delimited shape of a utility class name.

use vstd::prelude::*;

verus! {

/// Compare two string slices for equality of their character sequences.
pub fn str_eq(a: &str, b: &str) -> (r: bool)
    ensures
        r == (a@ == b@),
{
    let owned_a = a.to_owned();
    let owned_b = b.to_owned();
    owned_a == owned_b
}

/// `s` begins with the characters of `p`.
pub open spec fn has_prefix_spec(s: Seq<char>, p: Seq<char>) -> bool {
    p.len() <= s.len() && s.subrange(0, p.len() as int) == p
}

/// Test whether `s` begins with prefix `p`.
pub fn has_prefix(s: &str, p: &str) -> (r: bool)
    ensures
        r == has_prefix_spec(s@, p@),
{
    let n = s.unicode_len();
    let m = p.unicode_len();
    if m > n {
        return false;
    }
    let head = s.substring_char(0, m);
    str_eq(head, p)
}

/// The number of occurrences of `c` in `s`.
pub open spec fn count_char(s: Seq<char>, c: char) -> nat
    decreases s.len(),
{
    if s.len() == 0 {
        0
    } else {
        count_char(s.drop_last(), c) + if s.last() == c {
            1nat
        } else {
            0nat
        }
    }
}

/// The index of the last occurrence of `c` in `s`; meaningful only when
/// `count_char(s, c) > 0`.
pub open spec fn last_index_of(s: Seq<char>, c: char) -> int
    decreases s.len(),
{
    if s.len() == 0 {
        -1
    } else if s.last() == c {
        s.len() - 1
    } else {
        last_index_of(s.drop_last(), c)
    }
}

/// When `c` occurs in `s`, its last index is in range, holds `c`, and no
/// later position holds `c`.
pub proof fn lemma_last_index_of(s: Seq<char>, c: char)
    requires
        count_char(s, c) > 0,
    ensures
        0 <= last_index_of(s, c) < s.len(),
        s[last_index_of(s, c)] == c,
        forall|j: int| last_index_of(s, c) < j < s.len() ==> s[j] != c,
    decreases s.len(),
{
    if s.len() > 0 && s.last() != c {
        lemma_last_index_of(s.drop_last(), c);
        assert(forall|j: int| 0 <= j < s.len() - 1 ==> s[j] == s.drop_last()[j]);
    }
}

/// When `c` does not occur in `s`, no position holds `c`.
pub proof fn lemma_count_char_zero(s: Seq<char>, c: char)
    requires
        count_char(s, c) == 0,
    ensures
        forall|j: int| 0 <= j < s.len() ==> s[j] != c,
    decreases s.len(),
{
    if s.len() > 0 {
        lemma_count_char_zero(s.drop_last(), c);
        assert(forall|j: int| 0 <= j < s.len() - 1 ==> s[j] == s.drop_last()[j]);
    }
}

/// Count the occurrences of `c` in `s` and report the index of the last
/// one, if any.
pub fn scan_char(s: &str, c: char) -> (r: (usize, Option<usize>))
    ensures
        r.0 == count_char(s@, c),
        match r.1 {
            Some(i) => count_char(s@, c) > 0 && i == last_index_of(s@, c),
            None => count_char(s@, c) == 0,
        },
{
    let n = s.unicode_len();
    let mut count: usize = 0;
    let mut last: Option<usize> = None;
    let mut i: usize = 0;
    while i < n
        invariant
            i <= n,
            n == s@.len(),
            count == count_char(s@.subrange(0, i as int), c),
            count <= i,
            match last {
                Some(k) => count > 0 && k == last_index_of(s@.subrange(0, i as int), c),
                None => count == 0,
            },
        decreases n - i,
    {
        let ch = s.get_char(i);
        proof {
            let pre = s@.subrange(0, i as int);
            let cur = s@.subrange(0, i + 1);
            assert(cur.drop_last() =~= pre);
            assert(cur.last() == s@[i as int]);
        }
        if ch == c {
            count = count + 1;
            last = Some(i);
        }
        i = i + 1;
    }
    proof {
        assert(s@.subrange(0, n as int) =~= s@);
    }
    (count, last)
}

/// The characters of `s` after the last occurrence of `c`; the whole of
/// `s` when `c` does not occur.
pub open spec fn tail_after_last(s: Seq<char>, c: char) -> Seq<char> {
    if count_char(s, c) == 0 {
        s
    } else {
        s.subrange(last_index_of(s, c) + 1, s.len() as int)
    }
}

/// The characters of `s` before the last occurrence of `c`; meaningful
/// only when `c` occurs in `s`.
pub open spec fn head_before_last(s: Seq<char>, c: char) -> Seq<char> {
    s.subrange(0, last_index_of(s, c))
}

/// Occurrence counts add up over concatenation.
pub proof fn lemma_count_char_concat(a: Seq<char>, b: Seq<char>, c: char)
    ensures
        count_char(a + b, c) == count_char(a, c) + count_char(b, c),
    decreases b.len(),
{
    if b.len() == 0 {
        assert(a + b =~= a);
    } else {
        lemma_count_char_concat(a, b.drop_last(), c);
        assert((a + b).drop_last() =~= a + b.drop_last());
        assert((a + b).last() == b.last());
    }
}

/// When `a` ends with the separator and `b` is free of it, the last
/// separator of `a + b` closes `a`: the tail is `b` and the head is `a`
/// without its final separator.
pub proof fn lemma_split_at_concat(a: Seq<char>, b: Seq<char>, c: char)
    requires
        a.len() > 0,
        a.last() == c,
        count_char(b, c) == 0,
    ensures
        count_char(a + b, c) >= 1,
        last_index_of(a + b, c) == a.len() - 1,
        tail_after_last(a + b, c) == b,
        head_before_last(a + b, c) == a.drop_last(),
    decreases b.len(),
{
    lemma_count_char_concat(a, b, c);
    if b.len() == 0 {
        assert(a + b =~= a);
        assert(last_index_of(a, c) == a.len() - 1);
    } else {
        lemma_split_at_concat(a, b.drop_last(), c);
        assert(count_char(b.drop_last(), c) == 0);
        assert((a + b).drop_last() =~= a + b.drop_last());
        assert((a + b).last() == b.last());
        lemma_count_char_zero(b, c);
        assert(b.last() != c);
        assert(last_index_of(a + b, c) == last_index_of(a + b.drop_last(), c));
    }
    assert(tail_after_last(a + b, c) =~= b);
    assert(head_before_last(a + b, c) =~= a.drop_last());
}

/// The decimal digit character for a value below ten.
pub open spec fn dec_digit(n: int) -> char {
    if n == 0 {
        '0'
    } else if n == 1 {
        '1'
    } else if n == 2 {
        '2'
    } else if n == 3 {
        '3'
    } else if n == 4 {
        '4'
    } else if n == 5 {
        '5'
    } else if n == 6 {
        '6'
    } else if n == 7 {
        '7'
    } else if n == 8 {
        '8'
    } else {
        '9'
    }
}

/// The decimal digits of a natural number, most significant first.
pub open spec fn dec_rec(n: nat) -> Seq<char>
    decreases n,
{
    if n < 10 {
        seq![dec_digit(n as int)]
    } else {
        dec_rec(n / 10).push(dec_digit((n % 10) as int))
    }
}

/// The decimal text of an integer: a minus sign and the digits of its
/// magnitude when negative, the digits alone otherwise.
pub open spec fn int_text(n: int) -> Seq<char> {
    if n < 0 {
        seq!['-'] + dec_rec((-n) as nat)
    } else {
        dec_rec(n as nat)
    }
}

/// The digit character of a value below ten.
fn digit_char(n: u64) -> (c: char)
    requires
        n < 10,
    ensures
        c == dec_digit(n as int),
{
    if n == 0 {
        '0'
    } else if n == 1 {
        '1'
    } else if n == 2 {
        '2'
    } else if n == 3 {
        '3'
    } else if n == 4 {
        '4'
    } else if n == 5 {
        '5'
    } else if n == 6 {
        '6'
    } else if n == 7 {
        '7'
    } else if n == 8 {
        '8'
    } else {
        '9'
    }
}

/// Write a natural number in decimal.
pub fn u64_to_string(n: u64) -> (r: String)
    ensures
        r@ == dec_rec(n as nat),
{
    let mut digits: Vec<char> = Vec::new();
    let mut rest: u64 = n;
    loop
        invariant_except_break
            dec_rec(n as nat) == dec_rec(rest as nat) + digits@.reverse(),
        ensures
            dec_rec(n as nat) == digits@.reverse(),
        decreases rest,
    {
        let ghost before = digits@;
        if rest < 10 {
            digits.push(digit_char(rest));
            proof {
                assert(digits@.reverse() =~= seq![dec_digit(rest as int)] + before.reverse());
                assert(dec_rec(n as nat) =~= dec_rec(rest as nat) + before.reverse());
                assert(dec_rec(rest as nat) == seq![dec_digit(rest as int)]);
                assert(dec_rec(n as nat) =~= digits@.reverse());
            }
            break ;
        }
        digits.push(digit_char(rest % 10));
        proof {
            assert(digits@.reverse() =~= seq![dec_digit((rest % 10) as int)] + before.reverse());
            assert(dec_rec(rest as nat) == dec_rec((rest / 10) as nat).push(
                dec_digit((rest % 10) as int),
            ));
            assert(dec_rec((rest / 10) as nat) + digits@.reverse() =~= dec_rec(rest as nat)
                + before.reverse());
        }
        rest = rest / 10;
    }
    let count = digits.len();
    let mut out = String::new();
    let mut j: usize = 0;
    while j < count
        invariant
            j <= count,
            count == digits@.len(),
            dec_rec(n as nat) == digits@.reverse(),
            out@ == digits@.reverse().subrange(0, j as int),
        decreases count - j,
    {
        out.push(digits[count - 1 - j]);
        proof {
            assert(digits@.reverse()[j as int] == digits@[count - 1 - j]);
            assert(out@ =~= digits@.reverse().subrange(0, j + 1));
        }
        j = j + 1;
    }
    proof {
        assert(digits@.reverse().subrange(0, count as int) =~= digits@.reverse());
    }
    out
}

/// Write an integer in decimal.
pub fn i64_to_string(n: i64) -> (r: String)
    ensures
        r@ == int_text(n as int),
{
    if n >= 0 {
        u64_to_string(n as u64)
    } else {
        let mag: u64 = ((-(n + 1)) as u64) + 1;
        assert(mag as int == -(n as int));
        let digits = u64_to_string(mag);
        let mut out = String::from_str("-");
        out.append(digits.as_str());
        proof {
            reveal_strlit("-");
            assert("-"@ =~= seq!['-']);
            assert(out@ =~= int_text(n as int));
        }
        out
    }
}

/// The last dash-delimited segment of a class name: the characters after
/// the last `-`, or the whole string when it has no `-`.
pub fn key_of<'a>(line: &'a str) -> (r: &'a str)
    ensures
        r@ == tail_after_last(line@, '-'),
{
    let n = line.unicode_len();
    let (_count, last) = scan_char(line, '-');
    match last {
        Some(i) => {
            proof {
                lemma_last_index_of(line@, '-');
            }
            line.substring_char(i + 1, n)
        },
        None => line,
    }
}

} // verus!
