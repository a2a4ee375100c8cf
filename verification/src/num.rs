//! Decimal text: specifications and verified code for reading numbers out
//! of map-document tokens and for writing numbers into rendered artifacts.
//!
//! The specification side models a token as a `Seq<char>`: digit strings
//! and their value, the canonical decimal rendering of an integer, and the
//! token shapes accepted for unsigned 16-bit tile indices, signed 32-bit
//! coordinates, and decimal literals with a fractional part (whose floor is
//! taken, matching the editor's sub-pixel object positions).

use vstd::prelude::*;

use crate::error::BuildError;

verus! {

/// c is an ASCII decimal digit.
pub open spec fn is_digit(c: char) -> bool {
    48 <= c as u32 && c as u32 <= 57
}

/// The numeric value of a digit character.
pub open spec fn digit_val(c: char) -> int {
    c as u32 - 48
}

/// The digit character for d (meaningful for 0 <= d < 10).
pub open spec fn digit_char(d: int) -> char {
    ((48 + d) as u32) as char
}

/// Every character of s is a decimal digit.
pub open spec fn all_digits(s: Seq<char>) -> bool {
    forall|i: int| 0 <= i < s.len() ==> is_digit(#[trigger] s[i])
}

/// The value of a digit string, most significant digit first.
pub open spec fn digits_val(s: Seq<char>) -> int
    decreases s.len(),
{
    if s.len() == 0 {
        0
    } else {
        digits_val(s.drop_last()) * 10 + digit_val(s.last())
    }
}

/// The canonical decimal digit string of n: no leading zero unless n == 0.
pub open spec fn dec_digits(n: nat) -> Seq<char>
    decreases n,
{
    if n < 10 {
        seq![digit_char(n as int)]
    } else {
        dec_digits(n / 10).push(digit_char((n % 10) as int))
    }
}

/// The canonical decimal rendering of a signed integer.
pub open spec fn dec_int(i: int) -> Seq<char> {
    if i < 0 {
        seq!['-'] + dec_digits((-i) as nat)
    } else {
        dec_digits(i as nat)
    }
}

/// The index of the first occurrence of c in s, or -1 when there is none.
pub open spec fn first_at(s: Seq<char>, c: char) -> int
    decreases s.len(),
{
    if s.len() == 0 {
        -1
    } else if s[0] == c {
        0
    } else if first_at(s.drop_first(), c) < 0 {
        -1
    } else {
        first_at(s.drop_first(), c) + 1
    }
}

/// first_at finds exactly the first occurrence.
pub proof fn lemma_first_at(s: Seq<char>, c: char)
    ensures
        first_at(s, c) == -1 ==> forall|i: int| 0 <= i < s.len() ==> s[i] != c,
        first_at(s, c) != -1 ==> 0 <= first_at(s, c) < s.len() && s[first_at(s, c)] == c
            && forall|i: int| 0 <= i < first_at(s, c) ==> s[i] != c,
    decreases s.len(),
{
    if s.len() > 0 && s[0] != c {
        lemma_first_at(s.drop_first(), c);
        assert forall|i: int| 0 <= i < s.len() && first_at(s, c) == -1 implies s[i] != c by {
            if i > 0 {
                assert(s.drop_first()[i - 1] == s[i]);
            }
        }
        if first_at(s, c) != -1 {
            assert(s.drop_first()[first_at(s, c) - 1] == s[first_at(s, c)]);
            assert forall|i: int| 0 <= i < first_at(s, c) implies s[i] != c by {
                if i > 0 {
                    assert(s.drop_first()[i - 1] == s[i]);
                }
            }
        }
    }
}

/// Appending a digit multiplies the value by ten and adds the digit.
pub proof fn lemma_digits_val_push(s: Seq<char>, c: char)
    ensures
        digits_val(s.push(c)) == digits_val(s) * 10 + digit_val(c),
{
    assert(s.push(c).drop_last() =~= s);
    assert(s.push(c).last() == c);
}

/// The value of a digit string is non-negative.
pub proof fn lemma_digits_val_nonneg(s: Seq<char>)
    requires
        all_digits(s),
    ensures
        digits_val(s) >= 0,
    decreases s.len(),
{
    if s.len() > 0 {
        assert(all_digits(s.drop_last()));
        lemma_digits_val_nonneg(s.drop_last());
    }
}

/// s with one leading '+' removed: the sign shape of an unsigned token.
pub open spec fn strip_plus(s: Seq<char>) -> Seq<char> {
    if s.len() > 0 && s[0] == '+' {
        s.drop_first()
    } else {
        s
    }
}

/// s parses as a u16: an optional '+', then digits, value within range.
pub open spec fn is_u16_token(s: Seq<char>) -> bool {
    strip_plus(s).len() > 0 && all_digits(strip_plus(s)) && digits_val(strip_plus(s)) <= u16::MAX
}

/// The value of a valid u16 token.
pub open spec fn u16_token_val(s: Seq<char>) -> u16 {
    digits_val(strip_plus(s)) as u16
}

/// s starts with a '-' sign.
pub open spec fn has_minus(s: Seq<char>) -> bool {
    s.len() > 0 && s[0] == '-'
}

/// s with one leading '+' or '-' removed.
pub open spec fn strip_sign(s: Seq<char>) -> Seq<char> {
    if s.len() > 0 && (s[0] == '+' || s[0] == '-') {
        s.drop_first()
    } else {
        s
    }
}

/// s parses as an i32: an optional sign, then digits, value within range.
pub open spec fn is_i32_token(s: Seq<char>) -> bool {
    strip_sign(s).len() > 0 && all_digits(strip_sign(s)) && (if has_minus(s) {
        digits_val(strip_sign(s)) <= 0x8000_0000
    } else {
        digits_val(strip_sign(s)) <= 0x7fff_ffff
    })
}

/// The value of a valid i32 token.
pub open spec fn i32_token_val(s: Seq<char>) -> i32 {
    if has_minus(s) {
        (-digits_val(strip_sign(s))) as i32
    } else {
        digits_val(strip_sign(s)) as i32
    }
}

/// The digits of s before its first '.' (all of s when there is none).
pub open spec fn int_part(s: Seq<char>) -> Seq<char> {
    if first_at(s, '.') >= 0 {
        s.take(first_at(s, '.'))
    } else {
        s
    }
}

/// The digits of s after its first '.' (empty when there is none).
pub open spec fn frac_part(s: Seq<char>) -> Seq<char> {
    if first_at(s, '.') >= 0 {
        s.skip(first_at(s, '.') + 1)
    } else {
        Seq::empty()
    }
}

/// The floor of the decimal literal s: its integer part, decremented once
/// when s is negative with a non-zero fractional part.
pub open spec fn coord_floor_val(s: Seq<char>) -> int {
    if has_minus(s) {
        if digits_val(frac_part(strip_sign(s))) > 0 {
            -digits_val(int_part(strip_sign(s))) - 1
        } else {
            -digits_val(int_part(strip_sign(s)))
        }
    } else {
        digits_val(int_part(strip_sign(s)))
    }
}

/// s is a plain decimal literal: an optional sign, then digits with at most
/// one point and at least one digit in all, whose floor fits an i32.
pub open spec fn is_coord_token(s: Seq<char>) -> bool {
    int_part(strip_sign(s)).len() + frac_part(strip_sign(s)).len() > 0
        && all_digits(int_part(strip_sign(s)))
        && all_digits(frac_part(strip_sign(s)))
        && i32::MIN <= coord_floor_val(s) <= i32::MAX
}

/// Reads the digit run d == t@.subrange(start, end): its value when it
/// is a run of digits with value <= cap, too many when the value exceeds
/// cap, and the index of the first non-digit otherwise.
enum DigitsRead {
    Value(u64),
    TooBig,
    NonDigit(usize),
}

/// Scans t between start and end for a digit run, accumulating its value
/// while it stays within cap.
fn read_digits(t: &str, start: usize, end: usize, cap: u64) -> (r: DigitsRead)
    requires
        start <= end <= t@.len(),
        cap <= 0x8000_0000,
    ensures
        match r {
            DigitsRead::Value(v) => all_digits(t@.subrange(start as int, end as int))
                && v == digits_val(t@.subrange(start as int, end as int)) && v <= cap,
            DigitsRead::TooBig => all_digits(t@.subrange(start as int, end as int))
                && digits_val(t@.subrange(start as int, end as int)) > cap,
            DigitsRead::NonDigit(j) => start <= j < end && !is_digit(t@[j as int])
                && all_digits(t@.subrange(start as int, j as int)),
        },
{
    let n = end;
    let mut acc: u64 = 0;
    let mut too_big = false;
    let mut i = start;
    while i < n
        invariant
            start <= i <= n == end <= t@.len(),
            cap <= 0x8000_0000,
            all_digits(t@.subrange(start as int, i as int)),
            !too_big ==> acc == digits_val(t@.subrange(start as int, i as int)) && acc <= cap,
            too_big ==> digits_val(t@.subrange(start as int, i as int)) > cap,
        decreases n - i,
    {
        let c = t.get_char(i);
        let cv = c as u32;
        proof {
            assert(t@.subrange(start as int, i as int + 1)
                =~= t@.subrange(start as int, i as int).push(t@[i as int]));
            lemma_digits_val_push(t@.subrange(start as int, i as int), t@[i as int]);
        }
        if cv < 48 || cv > 57 {
            return DigitsRead::NonDigit(i);
        }
        if !too_big {
            acc = acc * 10 + (cv - 48) as u64;
            if acc > cap {
                too_big = true;
            }
        } else {
            proof {
                lemma_digits_val_nonneg(t@.subrange(start as int, i as int));
            }
        }
        i = i + 1;
    }
    if too_big {
        DigitsRead::TooBig
    } else {
        DigitsRead::Value(acc)
    }
}

/// Parses t as a u16 the way the tile decoder needs it: an optional '+',
/// then at least one digit, value within the 16-bit range.
pub fn parse_u16_token(t: &str) -> (r: Option<u16>)
    ensures
        match r {
            Some(v) => is_u16_token(t@) && v == u16_token_val(t@),
            None => !is_u16_token(t@),
        },
{
    let n = t.unicode_len();
    let start: usize = if n > 0 && t.get_char(0) == '+' {
        1
    } else {
        0
    };
    proof {
        assert(t@.subrange(start as int, n as int) =~= strip_plus(t@));
    }
    if n == start {
        return None;
    }
    match read_digits(t, start, n, 65535) {
        DigitsRead::Value(v) => Some(v as u16),
        DigitsRead::TooBig => None,
        DigitsRead::NonDigit(j) => {
            proof {
                assert(strip_plus(t@)[j - start] == t@[j as int]);
            }
            None
        },
    }
}

/// Parses t as an i32: an optional sign, then at least one digit, value
/// within the 32-bit range.
pub fn parse_i32_token(t: &str) -> (r: Option<i32>)
    ensures
        match r {
            Some(v) => is_i32_token(t@) && v == i32_token_val(t@),
            None => !is_i32_token(t@),
        },
{
    let n = t.unicode_len();
    let mut negative = false;
    let mut start: usize = 0;
    if n > 0 {
        let c0 = t.get_char(0);
        if c0 == '+' {
            start = 1;
        } else if c0 == '-' {
            start = 1;
            negative = true;
        }
    }
    proof {
        assert(t@.subrange(start as int, n as int) =~= strip_sign(t@));
        assert(negative == has_minus(t@));
    }
    if n == start {
        return None;
    }
    let cap: u64 = if negative {
        0x8000_0000
    } else {
        0x7fff_ffff
    };
    match read_digits(t, start, n, cap) {
        DigitsRead::Value(v) => {
            if negative {
                Some((-(v as i64)) as i32)
            } else {
                Some(v as i32)
            }
        },
        DigitsRead::TooBig => None,
        DigitsRead::NonDigit(j) => {
            proof {
                assert(strip_sign(t@)[j - start] == t@[j as int]);
            }
            None
        },
    }
}

/// Finds the first occurrence of c in t at or after start.
fn find_char(t: &str, start: usize, c: char) -> (r: Option<usize>)
    requires
        start <= t@.len(),
    ensures
        match r {
            Some(k) => start <= k < t@.len() && t@[k as int] == c && forall|j: int|
                start <= j < k ==> t@[j] != c,
            None => forall|j: int| start <= j < t@.len() ==> t@[j] != c,
        },
{
    let n = t.unicode_len();
    let mut i = start;
    while i < n
        invariant
            start <= i <= n,
            n == t@.len(),
            forall|j: int| start <= j < i ==> t@[j] != c,
        decreases n - i,
    {
        if t.get_char(i) == c {
            return Some(i);
        }
        i = i + 1;
    }
    None
}

/// Scans the suffix of t from start: whether it is all digits, and whether
/// the digit string's value is non-zero.
fn read_frac(t: &str, start: usize) -> (r: Option<bool>)
    requires
        start <= t@.len(),
    ensures
        match r {
            Some(nz) => all_digits(t@.skip(start as int)) && (nz <==> digits_val(
                t@.skip(start as int),
            ) > 0),
            None => !all_digits(t@.skip(start as int)),
        },
{
    let n = t.unicode_len();
    let mut nz = false;
    let mut i = start;
    while i < n
        invariant
            start <= i <= n,
            n == t@.len(),
            all_digits(t@.subrange(start as int, i as int)),
            nz <==> digits_val(t@.subrange(start as int, i as int)) > 0,
        decreases n - i,
    {
        let c = t.get_char(i);
        let cv = c as u32;
        proof {
            assert(t@.subrange(start as int, i as int + 1)
                =~= t@.subrange(start as int, i as int).push(t@[i as int]));
            lemma_digits_val_push(t@.subrange(start as int, i as int), t@[i as int]);
            lemma_digits_val_nonneg(t@.subrange(start as int, i as int));
        }
        if cv < 48 || cv > 57 {
            proof {
                assert(t@.skip(start as int)[i - start] == t@[i as int]);
            }
            return None;
        }
        if cv > 48 {
            nz = true;
        }
        i = i + 1;
    }
    proof {
        assert(t@.subrange(start as int, n as int) =~= t@.skip(start as int));
    }
    Some(nz)
}

/// The floor of the decimal literal t, when t is one and the floor fits.
fn coord_floor(t: &str) -> (r: Option<i32>)
    ensures
        match r {
            Some(v) => is_coord_token(t@) && v == coord_floor_val(t@),
            None => !is_coord_token(t@),
        },
{
    let n = t.unicode_len();
    let mut negative = false;
    let mut start: usize = 0;
    if n > 0 {
        let c0 = t.get_char(0);
        if c0 == '+' {
            start = 1;
        } else if c0 == '-' {
            start = 1;
            negative = true;
        }
    }
    let ghost b = strip_sign(t@);
    proof {
        assert(t@.skip(start as int) =~= b);
        assert(negative == has_minus(t@));
        lemma_first_at(b, '.');
    }
    let dot = find_char(t, start, '.');
    let ghost di = first_at(b, '.');
    // The end of the integer part, and whether the fraction is non-zero.
    let int_end: usize;
    let frac_nonzero: bool;
    match dot {
        Some(k) => {
            proof {
                assert(b[k - start] == t@[k as int]);
                if di < 0 {
                    assert(false);
                } else if di < k - start {
                    assert(t@[di + start] == b[di]);
                    assert(false);
                } else if di > k - start {
                    assert(false);
                }
                assert(di == k - start);
                assert(int_part(b) =~= t@.subrange(start as int, k as int));
                assert(frac_part(b) =~= t@.skip(k as int + 1));
            }
            int_end = k;
            match read_frac(t, k + 1) {
                Some(nz) => {
                    frac_nonzero = nz;
                },
                None => {
                    return None;
                },
            }
        },
        None => {
            proof {
                if di >= 0 {
                    assert(t@[di + start] == b[di]);
                    assert(false);
                }
                assert(int_part(b) =~= t@.subrange(start as int, n as int));
                assert(frac_part(b) =~= Seq::<char>::empty());
            }
            int_end = n;
            frac_nonzero = false;
        },
    }
    if start == int_end && !(int_end < n) {
        // neither integer nor fraction digits
        return None;
    }
    if start == int_end && int_end + 1 == n {
        // a lone point after the sign
        return None;
    }
    let m: u64;
    match read_digits(t, start, int_end, 0x8000_0000) {
        DigitsRead::Value(v) => {
            m = v;
        },
        DigitsRead::TooBig => {
            return None;
        },
        DigitsRead::NonDigit(j) => {
            proof {
                assert(int_part(b)[j - start] == t@[j as int]);
            }
            return None;
        },
    }
    if negative {
        if frac_nonzero {
            if m > 0x7fff_ffff {
                return None;
            }
            Some((-(m as i64) - 1) as i32)
        } else {
            Some((-(m as i64)) as i32)
        }
    } else {
        if m > 0x7fff_ffff {
            return None;
        }
        Some(m as i32)
    }
}

/// Parses t as a plain decimal literal and takes its floor: the shape the
/// editor uses for sub-pixel object positions. An optional sign, digits
/// with at most one point and at least one digit in all; the result is the
/// largest integer no greater than the written value, and must fit an i32.
/// Anything else is a parse error naming the text.
pub fn parse_coord(t: &str) -> (r: Result<i32, BuildError>)
    ensures
        match r {
            Ok(v) => is_coord_token(t@) && v == coord_floor_val(t@),
            Err(e) => !is_coord_token(t@) && match e {
                BuildError::BadCoordinate(s) => s@ == t@,
                _ => false,
            },
        },
{
    match coord_floor(t) {
        Some(v) => Ok(v),
        None => Err(BuildError::BadCoordinate(t.to_owned())),
    }
}

/// Relies on std's String::push: appends the given character to the end of
/// the string.
#[verifier::external_body]
pub(crate) fn push_char(s: &mut String, c: char)
    ensures
        final(s)@ == old(s)@.push(c),
{
    s.push(c);
}

/// One-character string slice for the digit d.
fn digit_str(d: u64) -> (r: &'static str)
    requires
        d < 10,
    ensures
        r@.len() == 1 && r@[0] == digit_char(d as int),
{
    proof {
        reveal_strlit("0");
        reveal_strlit("1");
        reveal_strlit("2");
        reveal_strlit("3");
        reveal_strlit("4");
        reveal_strlit("5");
        reveal_strlit("6");
        reveal_strlit("7");
        reveal_strlit("8");
        reveal_strlit("9");
    }
    match d {
        0 => "0",
        1 => "1",
        2 => "2",
        3 => "3",
        4 => "4",
        5 => "5",
        6 => "6",
        7 => "7",
        8 => "8",
        _ => "9",
    }
}

/// Appends the canonical decimal digits of n to out.
pub fn push_dec_u64(out: &mut String, n: u64)
    ensures
        final(out)@ == old(out)@ + dec_digits(n as nat),
    decreases n,
{
    let ghost pre = out@;
    if n >= 10 {
        push_dec_u64(out, n / 10);
    }
    out.append(digit_str(n % 10));
    proof {
        assert(out@ =~= pre + dec_digits(n as nat));
    }
}

/// The canonical decimal string of n.
pub fn u64_to_string(n: u64) -> (s: String)
    ensures
        s@ == dec_digits(n as nat),
{
    let mut s = String::new();
    push_dec_u64(&mut s, n);
    proof {
        assert(s@ =~= dec_digits(n as nat));
    }
    s
}

/// Appends the canonical decimal rendering of i to out.
pub fn push_dec_i32(out: &mut String, i: i32)
    ensures
        final(out)@ == old(out)@ + dec_int(i as int),
{
    let ghost pre = out@;
    if i < 0 {
        proof {
            reveal_strlit("-");
        }
        out.append("-");
        push_dec_u64(out, (-(i as i64)) as u64);
        proof {
            assert(out@ =~= pre + dec_int(i as int));
        }
    } else {
        push_dec_u64(out, i as u64);
    }
}

} // verus!
