//! Character-level helpers on strings: searching and decimal numbers.

use vstd::prelude::*;

verus! {

pub open spec fn is_digit(c: char) -> bool {
    '0' <= c && c <= '9'
}

pub open spec fn digit_value(c: char) -> int {
    c as int - '0' as int
}

pub open spec fn all_digits(s: Seq<char>) -> bool {
    forall|i: int| 0 <= i < s.len() ==> #[trigger] is_digit(s[i])
}

/// The value of a string of decimal digits, most significant first.
pub open spec fn digits_value(s: Seq<char>) -> int
    decreases s.len(),
{
    if s.len() == 0 {
        0
    } else {
        digits_value(s.drop_last()) * 10 + digit_value(s.last())
    }
}

/// The digits of an unsigned decimal number: an optional leading `+` is skipped.
pub open spec fn unsigned_digits(s: Seq<char>) -> Seq<char> {
    if s.len() > 0 && s[0] == '+' {
        s.drop_first()
    } else {
        s
    }
}

/// The `u32` that a string spells in decimal, as `str::parse::<u32>` reads it:
/// an optional `+`, then one or more ASCII digits whose value fits.
pub open spec fn decimal_u32(s: Seq<char>) -> Option<u32> {
    let d = unsigned_digits(s);
    if d.len() > 0 && all_digits(d) && digits_value(d) <= u32::MAX {
        Some(digits_value(d) as u32)
    } else {
        None
    }
}

/// `i` is where `c` first occurs in `s`.
pub open spec fn is_first_index(s: Seq<char>, c: char, i: int) -> bool {
    &&& 0 <= i < s.len()
    &&& s[i] == c
    &&& forall|j: int| 0 <= j < i ==> s[j] != c
}

/// The position of the first `c` in `s`, if any.
pub open spec fn first_index_of(s: Seq<char>, c: char) -> Option<int> {
    if exists|i: int| is_first_index(s, c, i) {
        Some(choose|i: int| is_first_index(s, c, i))
    } else {
        None
    }
}

/// Everything before the first `c`, or all of `s` when it holds none.
pub open spec fn before_first(s: Seq<char>, c: char) -> Seq<char> {
    match first_index_of(s, c) {
        Some(i) => s.subrange(0, i),
        None => s,
    }
}

/// Finds the first occurrence of `c` in `s`, counting in characters.
pub fn find_char(s: &str, c: char) -> (r: Option<usize>)
    ensures
        r matches Some(i) ==> first_index_of(s@, c) == Some(i as int),
        r is None ==> first_index_of(s@, c) is None,
{
    let n = s.unicode_len();
    let mut i: usize = 0;
    while i < n
        invariant
            n == s@.len(),
            i <= n,
            forall|j: int| 0 <= j < i ==> s@[j] != c,
        decreases n - i,
    {
        if s.get_char(i) == c {
            assert(is_first_index(s@, c, i as int));
            let ghost k = choose|k: int| is_first_index(s@, c, k);
            assert(k == i) by {
                if k < i {
                } else if k > i {
                    assert(s@[i as int] == c);
                }
            }
            return Some(i);
        }
        i = i + 1;
    }
    None
}

proof fn lemma_digits_value_snoc(s: Seq<char>, c: char)
    ensures
        digits_value(s.push(c)) == digits_value(s) * 10 + digit_value(c),
{
    assert(s.push(c).drop_last() =~= s);
}

/// Reads an unsigned decimal number as `str::parse::<u32>` does.
pub fn parse_u32(s: &str) -> (r: Option<u32>)
    ensures
        r == decimal_u32(s@),
{
    let n = s.unicode_len();
    let mut start: usize = 0;
    if n > 0 && s.get_char(0) == '+' {
        start = 1;
    }
    let ghost d = unsigned_digits(s@);
    assert(d =~= s@.subrange(start as int, n as int));
    if start == n {
        return None;
    }
    // the value read so far, held at `cap` once it passes `u32::MAX`
    let cap: u64 = 0x1_0000_0000;
    let mut acc: u64 = 0;
    let mut i: usize = start;
    while i < n
        invariant
            n == s@.len(),
            start <= i <= n,
            d =~= s@.subrange(start as int, n as int),
            d == unsigned_digits(s@),
            cap == 0x1_0000_0000,
            all_digits(s@.subrange(start as int, i as int)),
            acc as int == if digits_value(s@.subrange(start as int, i as int)) < cap {
                digits_value(s@.subrange(start as int, i as int))
            } else {
                cap as int
            },
        decreases n - i,
    {
        let c = s.get_char(i);
        if !('0' <= c && c <= '9') {
            assert(d[i - start] == c);
            assert(!is_digit(d[i - start]));
            assert(!all_digits(d));
            return None;
        }
        let ghost prev = s@.subrange(start as int, i as int);
        proof {
            assert(s@.subrange(start as int, i + 1) =~= prev.push(c));
            lemma_digits_value_snoc(prev, c);
            assert(digits_value(prev) >= 0) by {
                lemma_digits_value_nonneg(prev);
            }
        }
        let digit = (c as u32 - '0' as u32) as u64;
        if acc >= cap {
            acc = cap;
        } else {
            let next = acc * 10 + digit;
            acc = if next >= cap { cap } else { next };
        }
        i = i + 1;
    }
    if acc >= cap {
        None
    } else {
        Some(acc as u32)
    }
}

proof fn lemma_digits_value_nonneg(s: Seq<char>)
    requires
        all_digits(s),
    ensures
        digits_value(s) >= 0,
    decreases s.len(),
{
    if s.len() > 0 {
        assert(is_digit(s[s.len() - 1]));
        lemma_digits_value_nonneg(s.drop_last());
    }
}

} // verus!
