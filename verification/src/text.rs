//! Verified text utilities: ASCII case folding, substring search, string
//! equality and decimal rendering of counters.
//!
//! The scam-detection heuristics match fixed ASCII keywords against a
//! message, so folding is defined byte-wise: ASCII capitals map to their
//! lower-case forms and every other byte is left alone.

use vstd::prelude::*;

verus! {

/// ASCII case folding of one byte.
pub open spec fn lower_byte(b: u8) -> u8 {
    if 65 <= b <= 90 {
        (b + 32) as u8
    } else {
        b
    }
}

/// ASCII case folding of a byte string.
pub open spec fn lower_bytes(s: Seq<u8>) -> Seq<u8> {
    s.map_values(|b: u8| lower_byte(b))
}

/// Whether `pat` occurs in `hay` starting at position `i`.
pub open spec fn matches_at(hay: Seq<u8>, pat: Seq<u8>, i: int) -> bool {
    hay.subrange(i, i + pat.len()) == pat
}

/// Whether `pat` occurs anywhere in `hay`.
pub open spec fn contains_seq(hay: Seq<u8>, pat: Seq<u8>) -> bool {
    exists|i: int| 0 <= i <= hay.len() - pat.len() && matches_at(hay, pat, i)
}

/// Number of ASCII capital letters in a byte string.
pub open spec fn upper_count(s: Seq<u8>) -> int
    decreases s.len(),
{
    if s.len() == 0 {
        0
    } else {
        upper_count(s.drop_last()) + if 65 <= s.last() <= 90 {
            1int
        } else {
            0int
        }
    }
}

pub broadcast proof fn lemma_upper_count_bounds(s: Seq<u8>)
    ensures
        0 <= #[trigger] upper_count(s) <= s.len(),
    decreases s.len(),
{
    if s.len() > 0 {
        lemma_upper_count_bounds(s.drop_last());
    }
}

/// ASCII case folding of a byte slice.
pub fn to_lower(s: &[u8]) -> (r: Vec<u8>)
    ensures
        r@ == lower_bytes(s@),
{
    let n = s.len();
    let mut r: Vec<u8> = Vec::new();
    let mut i: usize = 0;
    while i < n
        invariant
            n == s@.len(),
            0 <= i <= n,
            r@ == lower_bytes(s@.take(i as int)),
        decreases n - i,
    {
        let b = s[i];
        let low = if 65 <= b && b <= 90 { b + 32 } else { b };
        r.push(low);
        proof {
            assert(s@.take(i + 1).drop_last() =~= s@.take(i as int));
            assert(r@ =~= lower_bytes(s@.take(i + 1)));
        }
        i = i + 1;
    }
    proof {
        assert(s@.take(n as int) =~= s@);
    }
    r
}

/// Whether `pat` occurs as a contiguous substring of `hay`.
pub fn contains_bytes(hay: &[u8], pat: &[u8]) -> (r: bool)
    ensures
        r == contains_seq(hay@, pat@),
{
    let hn = hay.len();
    let pn = pat.len();
    if pn > hn {
        return false;
    }
    let mut i: usize = 0;
    while i <= hn - pn
        invariant
            hn == hay@.len(),
            pn == pat@.len(),
            pn <= hn,
            0 <= i <= hn - pn + 1,
            forall|k: int| 0 <= k < i ==> !matches_at(hay@, pat@, k),
        decreases hn + 1 - pn - i,
    {
        let mut j: usize = 0;
        let mut hit = true;
        let ghost mut wit: int = 0;
        while j < pn
            invariant
                hn == hay@.len(),
                pn == pat@.len(),
                0 <= i <= hn - pn,
                0 <= j <= pn,
                hit ==> forall|m: int| 0 <= m < j ==> hay@[i + m] == pat@[m],
                !hit ==> 0 <= wit < pn && hay@[i + wit] != pat@[wit],
            decreases pn - j,
        {
            if hay[i + j] != pat[j] {
                proof {
                    wit = j as int;
                }
                hit = false;
                j = pn;
            } else {
                j = j + 1;
            }
        }
        if hit {
            proof {
                assert(hay@.subrange(i as int, i + pn) =~= pat@);
                assert(matches_at(hay@, pat@, i as int));
            }
            return true;
        }
        proof {
            assert(hay@.subrange(i as int, i + pn)[wit] == hay@[i + wit]);
            assert(!matches_at(hay@, pat@, i as int));
        }
        i = i + 1;
    }
    false
}

/// String equality as equality of the character sequences.
pub fn str_eq(a: &str, b: &str) -> (r: bool)
    ensures
        r == (a@ == b@),
{
    let sa = a.to_owned();
    let sb = b.to_owned();
    sa == sb
}

/// View of a list of strings.
pub open spec fn strs_view(v: Seq<String>) -> Seq<Seq<char>> {
    v.map_values(|s: String| s@)
}

/// Copies a list of strings.
pub fn dup_strings(v: &Vec<String>) -> (r: Vec<String>)
    ensures
        strs_view(r@) == strs_view(v@),
{
    let n = v.len();
    let mut r: Vec<String> = Vec::new();
    let mut i: usize = 0;
    while i < n
        invariant
            n == v@.len(),
            0 <= i <= n,
            r@.len() == i,
            forall|j: int| 0 <= j < i ==> r@[j]@ == v@[j]@,
        decreases n - i,
    {
        r.push(v[i].clone());
        i = i + 1;
    }
    proof {
        assert(strs_view(r@) =~= strs_view(v@));
    }
    r
}

/// The character for one decimal digit.
pub open spec fn digit_char(d: int) -> char {
    if d == 0 {
        '0'
    } else if d == 1 {
        '1'
    } else if d == 2 {
        '2'
    } else if d == 3 {
        '3'
    } else if d == 4 {
        '4'
    } else if d == 5 {
        '5'
    } else if d == 6 {
        '6'
    } else if d == 7 {
        '7'
    } else if d == 8 {
        '8'
    } else {
        '9'
    }
}

/// Decimal rendering of a non-negative integer, most significant digit
/// first, with no leading zeros (except for the number 0 itself).
pub open spec fn dec_str(n: int) -> Seq<char>
    decreases n,
{
    if n < 10 {
        seq![digit_char(n)]
    } else {
        dec_str(n / 10).push(digit_char(n % 10))
    }
}

fn digit_str(d: u64) -> (r: &'static str)
    requires
        d < 10,
    ensures
        r@ == seq![digit_char(d as int)],
{
    if d == 0 {
        proof { reveal_strlit("0"); }
        proof { assert("0"@ =~= seq![digit_char(0)]); }
        "0"
    } else if d == 1 {
        proof { reveal_strlit("1"); }
        proof { assert("1"@ =~= seq![digit_char(1)]); }
        "1"
    } else if d == 2 {
        proof { reveal_strlit("2"); }
        proof { assert("2"@ =~= seq![digit_char(2)]); }
        "2"
    } else if d == 3 {
        proof { reveal_strlit("3"); }
        proof { assert("3"@ =~= seq![digit_char(3)]); }
        "3"
    } else if d == 4 {
        proof { reveal_strlit("4"); }
        proof { assert("4"@ =~= seq![digit_char(4)]); }
        "4"
    } else if d == 5 {
        proof { reveal_strlit("5"); }
        proof { assert("5"@ =~= seq![digit_char(5)]); }
        "5"
    } else if d == 6 {
        proof { reveal_strlit("6"); }
        proof { assert("6"@ =~= seq![digit_char(6)]); }
        "6"
    } else if d == 7 {
        proof { reveal_strlit("7"); }
        proof { assert("7"@ =~= seq![digit_char(7)]); }
        "7"
    } else if d == 8 {
        proof { reveal_strlit("8"); }
        proof { assert("8"@ =~= seq![digit_char(8)]); }
        "8"
    } else {
        proof { reveal_strlit("9"); }
        proof { assert("9"@ =~= seq![digit_char(9)]); }
        "9"
    }
}

/// Renders a counter in decimal.
pub fn u64_to_string(n: u64) -> (r: String)
    ensures
        r@ == dec_str(n as int),
    decreases n,
{
    if n < 10 {
        digit_str(n).to_owned()
    } else {
        let mut s = u64_to_string(n / 10);
        s.append(digit_str(n % 10));
        s
    }
}

} // verus!
