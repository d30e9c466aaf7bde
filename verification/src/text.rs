//! Shared helpers over characters and decimal digit strings: classification,
//! digit values, and rendering of unsigned integers as decimal text.

use vstd::prelude::*;
use vstd::string::StringExecFns;
use vstd::string::StrSliceExecFns;

verus! {

/// True for the ASCII digits `'0'..='9'`.
pub open spec fn is_digit(c: char) -> bool {
    48 <= c as u32 <= 57
}

/// True for ASCII lowercase letters.
pub open spec fn is_lower(c: char) -> bool {
    97 <= c as u32 <= 122
}

/// True for ASCII uppercase letters.
pub open spec fn is_upper(c: char) -> bool {
    65 <= c as u32 <= 90
}

/// Numeric value of an ASCII digit.
pub open spec fn digit_val(c: char) -> nat {
    (c as u32 - 48) as nat
}

pub fn char_is_digit(c: char) -> (r: bool)
    ensures
        r == is_digit(c),
{
    let u = c as u32;
    48 <= u && u <= 57
}

pub fn char_is_lower(c: char) -> (r: bool)
    ensures
        r == is_lower(c),
{
    let u = c as u32;
    97 <= u && u <= 122
}

pub fn char_is_upper(c: char) -> (r: bool)
    ensures
        r == is_upper(c),
{
    let u = c as u32;
    65 <= u && u <= 90
}

/// The character for a digit value below ten.
pub open spec fn digit_char(d: nat) -> char {
    if d == 0 {
        '0'
    } else if d == 1 {
        '1'
    } else if d == 2 {
        '2'
    } else if d == 3 {
        '3'
    } else if d == 4 {
        '4'
    } else if d == 5 {
        '5'
    } else if d == 6 {
        '6'
    } else if d == 7 {
        '7'
    } else if d == 8 {
        '8'
    } else {
        '9'
    }
}

pub fn char_of_digit(d: u64) -> (c: char)
    requires
        d < 10,
    ensures
        c == digit_char(d as nat),
{
    if d == 0 {
        '0'
    } else if d == 1 {
        '1'
    } else if d == 2 {
        '2'
    } else if d == 3 {
        '3'
    } else if d == 4 {
        '4'
    } else if d == 5 {
        '5'
    } else if d == 6 {
        '6'
    } else if d == 7 {
        '7'
    } else if d == 8 {
        '8'
    } else {
        '9'
    }
}

/// The value of a digit string, most significant digit first.
pub open spec fn digits_val(s: Seq<char>) -> nat
    decreases s.len(),
{
    if s.len() == 0 {
        0
    } else {
        digits_val(s.drop_last()) * 10 + digit_val(s.last())
    }
}

/// `digits_val` capped just above `u32::MAX`, so that overflow is
/// still observable.
pub open spec fn clamped_digits_val(s: Seq<char>) -> nat {
    if digits_val(s) > 0xFFFF_FFFF {
        0x1_0000_0000
    } else {
        digits_val(s)
    }
}

proof fn lemma_digits_val_grows(s: Seq<char>)
    requires
        s.len() > 0,
    ensures
        digits_val(s) >= digits_val(s.drop_last()),
{
}

/// Reads the digit characters `chars[start..end]` as a decimal value,
/// capped just above `u32::MAX`.
pub fn read_digits(chars: &Vec<char>, start: usize, end: usize) -> (r: u64)
    requires
        start <= end <= chars@.len(),
        forall|k: int| start <= k < end ==> is_digit(chars@[k]),
    ensures
        r == clamped_digits_val(chars@.subrange(start as int, end as int)),
{
    let mut acc: u64 = 0;
    let mut i: usize = start;
    proof {
        assert(chars@.subrange(start as int, start as int) =~= Seq::<char>::empty());
    }
    while i < end
        invariant
            start <= i <= end <= chars@.len(),
            forall|k: int| start <= k < end ==> is_digit(chars@[k]),
            acc == clamped_digits_val(chars@.subrange(start as int, i as int)),
            acc <= 0x1_0000_0000,
        decreases end - i,
    {
        let c = chars[i];
        let d: u64 = (c as u32) as u64 - 48;
        let next: u64 = acc * 10 + d;
        let ghost pre = chars@.subrange(start as int, i as int);
        let ghost cur = chars@.subrange(start as int, i as int + 1);
        proof {
            assert(cur.drop_last() =~= pre);
            assert(cur.last() == chars@[i as int]);
            lemma_digits_val_grows(cur);
        }
        if next > 0xFFFF_FFFF {
            acc = 0x1_0000_0000;
        } else {
            acc = next;
        }
        i = i + 1;
    }
    proof {
        assert(chars@.subrange(start as int, end as int) =~= chars@.subrange(
            start as int,
            i as int,
        ));
    }
    acc
}

/// The decimal digit sequence of `n`, empty when `n == 0`.
pub open spec fn dec_digits(n: nat) -> Seq<char>
    decreases n,
{
    if n == 0 {
        Seq::empty()
    } else {
        dec_digits(n / 10).push(digit_char(n % 10))
    }
}

/// The decimal rendering of `n`, `"0"` for zero.
pub open spec fn dec_string(n: nat) -> Seq<char> {
    if n == 0 {
        seq!['0']
    } else {
        dec_digits(n)
    }
}

/// Relies on String::push: appends one character at the end of the string.
#[verifier::external_body]
pub fn push_char(s: &mut String, c: char)
    ensures
        final(s)@ == old(s)@.push(c),
{
    s.push(c);
}

fn push_dec_digits(n: u64, out: &mut String)
    ensures
        final(out)@ == old(out)@ + dec_digits(n as nat),
    decreases n,
{
    if n == 0 {
        proof {
            assert(old(out)@ + dec_digits(0) =~= old(out)@);
        }
    } else {
        push_dec_digits(n / 10, out);
        push_char(out, char_of_digit(n % 10));
        proof {
            assert(old(out)@ + dec_digits(n as nat) =~= (old(out)@ + dec_digits(
                n as nat / 10,
            )).push(digit_char(n as nat % 10)));
        }
    }
}

/// Renders `n` as decimal text.
pub fn u64_to_string(n: u64) -> (s: String)
    ensures
        s@ == dec_string(n as nat),
{
    let mut s = String::new();
    if n == 0 {
        push_char(&mut s, '0');
        proof {
            assert(Seq::<char>::empty().push('0') =~= seq!['0']);
        }
    } else {
        push_dec_digits(n, &mut s);
        proof {
            assert(Seq::<char>::empty() + dec_digits(n as nat) =~= dec_digits(n as nat));
        }
    }
    s
}

/// Copies a string slice into an owned string.
pub fn string_from(s: &str) -> (r: String)
    ensures
        r@ == s@,
{
    String::from_str(s)
}

/// The characters of a string slice as a vector.
pub fn to_char_vec(s: &str) -> (v: Vec<char>)
    ensures
        v@ == s@,
{
    let n = s.unicode_len();
    let mut v: Vec<char> = Vec::new();
    let mut i: usize = 0;
    while i < n
        invariant
            n == s@.len(),
            i <= n,
            v@ == s@.subrange(0, i as int),
        decreases n - i,
    {
        v.push(s.get_char(i));
        proof {
            assert(v@ =~= s@.subrange(0, i as int + 1));
        }
        i = i + 1;
    }
    proof {
        assert(v@ =~= s@);
    }
    v
}

/// The first position at or after `i` that does not hold an ASCII digit.
pub open spec fn scan_digits(s: Seq<char>, i: nat) -> nat
    decreases s.len() - i,
{
    if i >= s.len() {
        s.len()
    } else if is_digit(s[i as int]) {
        scan_digits(s, i + 1)
    } else {
        i
    }
}

pub proof fn lemma_scan_digits_bounds(s: Seq<char>, i: nat)
    requires
        i <= s.len(),
    ensures
        i <= scan_digits(s, i) <= s.len(),
        forall|k: int| i <= k < scan_digits(s, i) ==> is_digit(s[k]),
        scan_digits(s, i) < s.len() ==> !is_digit(s[scan_digits(s, i) as int]),
    decreases s.len() - i,
{
    if i < s.len() && is_digit(s[i as int]) {
        lemma_scan_digits_bounds(s, i + 1);
    }
}

/// The first position at or after `i` that does not hold an ASCII lowercase
/// letter.
pub open spec fn scan_lower(s: Seq<char>, i: nat) -> nat
    decreases s.len() - i,
{
    if i >= s.len() {
        s.len()
    } else if is_lower(s[i as int]) {
        scan_lower(s, i + 1)
    } else {
        i
    }
}

pub proof fn lemma_scan_lower_bounds(s: Seq<char>, i: nat)
    requires
        i <= s.len(),
    ensures
        i <= scan_lower(s, i) <= s.len(),
        forall|k: int| i <= k < scan_lower(s, i) ==> is_lower(s[k]),
        scan_lower(s, i) < s.len() ==> !is_lower(s[scan_lower(s, i) as int]),
    decreases s.len() - i,
{
    if i < s.len() && is_lower(s[i as int]) {
        lemma_scan_lower_bounds(s, i + 1);
    }
}

/// Advances past ASCII digits from `i`.
pub fn skip_digits(chars: &Vec<char>, i: usize) -> (j: usize)
    requires
        i <= chars@.len(),
    ensures
        j == scan_digits(chars@, i as nat),
        i <= j <= chars@.len(),
        forall|k: int| i <= k < j ==> is_digit(chars@[k]),
        j < chars@.len() ==> !is_digit(chars@[j as int]),
{
    let mut j = i;
    while j < chars.len() && char_is_digit(chars[j])
        invariant
            i <= j <= chars@.len(),
            scan_digits(chars@, j as nat) == scan_digits(chars@, i as nat),
            forall|k: int| i <= k < j ==> is_digit(chars@[k]),
        decreases chars@.len() - j,
    {
        j = j + 1;
    }
    proof {
        lemma_scan_digits_bounds(chars@, i as nat);
    }
    j
}

/// Advances past ASCII lowercase letters from `i`.
pub fn skip_lower(chars: &Vec<char>, i: usize) -> (j: usize)
    requires
        i <= chars@.len(),
    ensures
        j == scan_lower(chars@, i as nat),
        i <= j <= chars@.len(),
        forall|k: int| i <= k < j ==> is_lower(chars@[k]),
        j < chars@.len() ==> !is_lower(chars@[j as int]),
{
    let mut j = i;
    while j < chars.len() && char_is_lower(chars[j])
        invariant
            i <= j <= chars@.len(),
            scan_lower(chars@, j as nat) == scan_lower(chars@, i as nat),
            forall|k: int| i <= k < j ==> is_lower(chars@[k]),
        decreases chars@.len() - j,
    {
        j = j + 1;
    }
    proof {
        lemma_scan_lower_bounds(chars@, i as nat);
    }
    j
}

/// Compares two string slices character by character.
pub fn str_eq(a: &str, b: &str) -> (r: bool)
    ensures
        r == (a@ == b@),
{
    let sa = String::from_str(a);
    let sb = String::from_str(b);
    sa == sb
}

} // verus!
