//! Character-level helpers shared by the pattern compiler and the response
//! builders: white-space classification, string/char-vector conversion, and
//! decimal rendering of lengths.

use vstd::prelude::*;
use vstd::string::StrSliceExecFns;

verus! {

/// The white-space characters that `str::trim` removes: the Unicode
/// `White_Space` set.
pub open spec fn is_space(c: char) -> bool {
    let u = c as u32;
    (0x09 <= u && u <= 0x0d) || u == 0x20 || u == 0x85 || u == 0xa0 || u == 0x1680 || (0x2000
        <= u && u <= 0x200a) || u == 0x2028 || u == 0x2029 || u == 0x202f || u == 0x205f || u
        == 0x3000
}

/// Executable white-space test, mirroring `is_space`.
pub fn space(c: char) -> (r: bool)
    ensures
        r == is_space(c),
{
    let u = c as u32;
    (0x09 <= u && u <= 0x0d) || u == 0x20 || u == 0x85 || u == 0xa0 || u == 0x1680 || (0x2000
        <= u && u <= 0x200a) || u == 0x2028 || u == 0x2029 || u == 0x202f || u == 0x205f || u
        == 0x3000
}

/// Collects the characters of a string slice into a vector.
pub fn str_to_chars(s: &str) -> (r: Vec<char>)
    ensures
        r@ == s@,
{
    let n = s.unicode_len();
    let mut v: Vec<char> = Vec::new();
    let mut i: usize = 0;
    while i < n
        invariant
            i <= n,
            n == s@.len(),
            v@ == s@.take(i as int),
        decreases n - i,
    {
        v.push(s.get_char(i));
        i = i + 1;
        proof {
            assert(v@ =~= s@.take(i as int));
        }
    }
    proof {
        assert(v@ =~= s@);
    }
    v
}

/// Relies on `String: FromIterator<char>` (`Iterator::collect`): the string
/// made of exactly the given characters, in order.
#[verifier::external_body]
pub(crate) fn chars_to_string(v: &Vec<char>) -> (r: String)
    ensures
        r@ == v@,
{
    v.iter().collect()
}

/// The decimal digit for a value below ten.
pub open spec fn digit_char(d: nat) -> char {
    if d == 0 {
        '0'
    } else if d == 1 {
        '1'
    } else if d == 2 {
        '2'
    } else if d == 3 {
        '3'
    } else if d == 4 {
        '4'
    } else if d == 5 {
        '5'
    } else if d == 6 {
        '6'
    } else if d == 7 {
        '7'
    } else if d == 8 {
        '8'
    } else {
        '9'
    }
}

/// The decimal rendering of a natural number, most significant digit first.
pub open spec fn dec_str(n: nat) -> Seq<char>
    decreases n,
{
    if n < 10 {
        seq![digit_char(n)]
    } else {
        dec_str(n / 10).push(digit_char(n % 10))
    }
}

fn digit_char_exec(d: u64) -> (r: char)
    requires
        d < 10,
    ensures
        r == digit_char(d as nat),
{
    if d == 0 {
        '0'
    } else if d == 1 {
        '1'
    } else if d == 2 {
        '2'
    } else if d == 3 {
        '3'
    } else if d == 4 {
        '4'
    } else if d == 5 {
        '5'
    } else if d == 6 {
        '6'
    } else if d == 7 {
        '7'
    } else if d == 8 {
        '8'
    } else {
        '9'
    }
}

/// Renders a number in decimal, as a character vector.
pub fn dec_chars(n: u64) -> (r: Vec<char>)
    ensures
        r@ == dec_str(n as nat),
{
    let mut low_first: Vec<char> = Vec::new();
    low_first.push(digit_char_exec(n % 10));
    let mut m: u64 = n / 10;
    proof {
        if m > 0 {
            assert(dec_str(n as nat) == dec_str(m as nat).push(digit_char((n % 10) as nat)));
            assert(dec_str(m as nat) + low_first@.reverse() =~= dec_str(n as nat));
        } else {
            assert(low_first@.reverse() =~= seq![digit_char((n % 10) as nat)]);
        }
    }
    while m > 0
        invariant
            m > 0 ==> dec_str(n as nat) == dec_str(m as nat) + low_first@.reverse(),
            m == 0 ==> dec_str(n as nat) == low_first@.reverse(),
        decreases m,
    {
        let d = m % 10;
        let next = m / 10;
        let ghost prev = low_first@;
        low_first.push(digit_char_exec(d));
        proof {
            assert(low_first@.reverse() =~= seq![digit_char(d as nat)] + prev.reverse());
            if next > 0 {
                assert(dec_str(m as nat) == dec_str(next as nat).push(digit_char(d as nat)));
                assert(dec_str(next as nat) + low_first@.reverse() =~= dec_str(m as nat)
                    + prev.reverse());
            } else {
                assert(m < 10);
                assert(dec_str(m as nat) == seq![digit_char(d as nat)]);
                assert(low_first@.reverse() =~= dec_str(m as nat) + prev.reverse());
            }
        }
        m = next;
    }
    let k = low_first.len();
    let mut r: Vec<char> = Vec::new();
    let mut i: usize = 0;
    while i < k
        invariant
            i <= k,
            k == low_first@.len(),
            dec_str(n as nat) == low_first@.reverse(),
            r@ == low_first@.reverse().take(i as int),
        decreases k - i,
    {
        proof {
            assert(low_first@.reverse()[i as int] == low_first@[k - 1 - i]);
        }
        r.push(low_first[k - 1 - i]);
        i = i + 1;
        proof {
            assert(r@ =~= low_first@.reverse().take(i as int));
        }
    }
    proof {
        assert(r@ =~= low_first@.reverse());
    }
    r
}

/// Compares a stored string with a borrowed key.
pub fn string_eq_str(s: &String, t: &str) -> (r: bool)
    ensures
        r == (s@ == t@),
{
    let owned = t.to_owned();
    *s == owned
}

} // verus!
