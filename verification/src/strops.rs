//! String operations: UTF-8 byte lengths, decimal rendering of integers,
//! and the substring predicates. Substring search relies on `std`; prefix
//! and suffix tests are verified directly.
use vstd::prelude::*;

use crate::batch::{BoolColumn, Int32Column, StringColumn};

verus! {

/// The number of bytes of the UTF-8 encoding of one character.
pub open spec fn char_utf8_len(c: char) -> int {
    if (c as int) < 0x80 {
        1
    } else if (c as int) < 0x800 {
        2
    } else if (c as int) < 0x10000 {
        3
    } else {
        4
    }
}

/// The number of bytes of the UTF-8 encoding of a string.
pub open spec fn utf8_len(s: Seq<char>) -> int
    decreases s.len(),
{
    if s.len() == 0 {
        0
    } else {
        utf8_len(s.drop_last()) + char_utf8_len(s.last())
    }
}

/// An integer reduced to `i32` range the way an `as i32` conversion of a
/// byte count does it: by its low 32 bits.
pub open spec fn wrap_i32(n: int) -> int {
    let m = n % 0x1_0000_0000;
    if m >= 0x8000_0000 {
        m - 0x1_0000_0000
    } else {
        m
    }
}

/// UTF-8 byte length of a string, reduced to `i32` range.
#[verifier::loop_isolation(false)]
pub fn str_len_i32(s: &str) -> (r: i32)
    ensures
        r as int == wrap_i32(utf8_len(s@)),
{
    let n = s.unicode_len();
    let mut acc: u128 = 0;
    let mut i: usize = 0;
    while i < n
        invariant
            0 <= i <= n,
            n == s@.len(),
            acc == utf8_len(s@.take(i as int)),
            acc <= 4 * i,
        decreases n - i,
    {
        let c = s.get_char(i);
        let w: u128 = if (c as u32) < 0x80 {
            1
        } else if (c as u32) < 0x800 {
            2
        } else if (c as u32) < 0x10000 {
            3
        } else {
            4
        };
        proof {
            assert(s@.take(i + 1).drop_last() =~= s@.take(i as int));
            assert(s@.take(i + 1).last() == s@[i as int]);
        }
        acc = acc + w;
        i += 1;
    }
    proof {
        assert(s@.take(s@.len() as int) =~= s@);
    }
    let low: u64 = (acc % 0x1_0000_0000) as u64;
    if low >= 0x8000_0000 {
        ((low as i128) - 0x1_0000_0000) as i32
    } else {
        low as i32
    }
}

/// A `usize` count reduced to `i32` range by its low 32 bits.
pub fn len_wrap_i32(n: usize) -> (r: i32)
    ensures
        r as int == wrap_i32(n as int),
{
    let low: u64 = ((n as u128) % 0x1_0000_0000) as u64;
    if low >= 0x8000_0000 {
        ((low as i128) - 0x1_0000_0000) as i32
    } else {
        low as i32
    }
}

/// The character of one decimal digit.
pub open spec fn digit_char(d: int) -> char {
    ((48 + d) as u8) as char
}

/// The decimal digits of a non-negative integer, most significant first.
pub open spec fn dec_digits(n: int) -> Seq<char>
    recommends
        n >= 0,
    decreases n,
{
    if n < 10 {
        seq![digit_char(n)]
    } else {
        dec_digits(n / 10).push(digit_char(n % 10))
    }
}

/// The decimal rendering of an integer, with a leading minus when negative.
pub open spec fn dec_str(v: int) -> Seq<char> {
    if v < 0 {
        seq!['-'] + dec_digits(-v)
    } else {
        dec_digits(v)
    }
}

/// Relies on `String::from_utf8`: ASCII bytes decode to exactly those
/// characters (ASCII is valid UTF-8, so the conversion cannot fail).
#[verifier::external_body]
fn string_from_ascii(bytes: Vec<u8>) -> (r: String)
    requires
        forall|i: int| 0 <= i < bytes@.len() ==> #[trigger] bytes@[i] < 128,
    ensures
        r@.len() == bytes@.len(),
        forall|i: int| 0 <= i < bytes@.len() ==> #[trigger] r@[i] == bytes@[i] as char,
{
    String::from_utf8(bytes).unwrap_or_default()
}

/// The characters of a byte vector (used to relate digit buffers to
/// rendered strings).
pub open spec fn bytes_chars(b: Seq<u8>) -> Seq<char> {
    Seq::new(b.len(), |i: int| b[i] as char)
}

/// Renders an `i64` in decimal.
#[verifier::loop_isolation(false)]
pub fn int_to_string(v: i64) -> (s: String)
    ensures
        s@ == dec_str(v as int),
{
    let neg = v < 0;
    let mag: u64 = if v == i64::MIN {
        0x8000_0000_0000_0000u64
    } else if v < 0 {
        (-v) as u64
    } else {
        v as u64
    };
    let mut m: u64 = mag;
    let mut bytes: Vec<u8> = Vec::new();
    let mut done = false;
    while !done
        invariant
            m <= mag,
            forall|i: int| 0 <= i < bytes@.len() ==> #[trigger] bytes@[i] < 128,
            if done {
                dec_digits(mag as int) == bytes_chars(bytes@)
            } else {
                dec_digits(mag as int) == dec_digits(m as int) + bytes_chars(bytes@)
            },
        decreases
                (if done {
                    0int
                } else {
                    m + 1
                }),
    {
        let ghost old_bytes = bytes@;
        let ghost om = m as int;
        let d: u8 = (m % 10) as u8;
        bytes.insert(0, 48 + d);
        proof {
            assert(bytes_chars(bytes@) =~= seq![digit_char(m as int % 10)] + bytes_chars(
                old_bytes,
            ));
        }
        if m < 10 {
            done = true;
            proof {
                assert(dec_digits(m as int) == seq![digit_char(m as int)]);
                assert(dec_digits(m as int) =~= seq![digit_char(m as int % 10)]);
                assert(dec_digits(mag as int) =~= bytes_chars(bytes@));
            }
        } else {
            m = m / 10;
            proof {
                assert(dec_digits(om) == dec_digits(om / 10).push(digit_char(om % 10)));
                assert(dec_digits(m as int).push(digit_char(om % 10)) + bytes_chars(old_bytes)
                    =~= dec_digits(m as int) + (seq![digit_char(om % 10)] + bytes_chars(
                    old_bytes,
                )));
                assert(dec_digits(mag as int) =~= dec_digits(m as int) + bytes_chars(bytes@));
            }
        }
    }
    if neg {
        let ghost old_bytes = bytes@;
        bytes.insert(0, 45);
        proof {
            assert(bytes_chars(bytes@) =~= seq!['-'] + bytes_chars(old_bytes));
        }
    }
    let r = string_from_ascii(bytes);
    proof {
        assert(r@ =~= bytes_chars(bytes@));
    }
    r
}

/// Whether `p` is a prefix of `s`.
pub open spec fn starts_with_spec(s: Seq<char>, p: Seq<char>) -> bool {
    p.len() <= s.len() && s.subrange(0, p.len() as int) == p
}

/// Whether `p` is a suffix of `s`.
pub open spec fn ends_with_spec(s: Seq<char>, p: Seq<char>) -> bool {
    p.len() <= s.len() && s.subrange(s.len() - p.len(), s.len() as int) == p
}

/// Whether `sub` occurs contiguously in `s`.
pub open spec fn contains_spec(s: Seq<char>, sub: Seq<char>) -> bool {
    exists|i: int|
        0 <= i <= s.len() - sub.len() && #[trigger] s.subrange(i, i + sub.len()) == sub
}

#[verifier::loop_isolation(false)]
pub fn str_starts_with(s: &str, p: &str) -> (r: bool)
    ensures
        r == starts_with_spec(s@, p@),
{
    let sl = s.unicode_len();
    let pl = p.unicode_len();
    if pl > sl {
        return false;
    }
    let mut i: usize = 0;
    while i < pl
        invariant
            0 <= i <= pl,
            pl <= sl,
            sl == s@.len(),
            pl == p@.len(),
            forall|j: int| 0 <= j < i ==> s@[j] == p@[j],
        decreases pl - i,
    {
        if s.get_char(i) != p.get_char(i) {
            proof {
                assert(s@.subrange(0, p@.len() as int)[i as int] != p@[i as int]);
            }
            return false;
        }
        i += 1;
    }
    proof {
        assert(s@.subrange(0, p@.len() as int) =~= p@);
    }
    true
}

#[verifier::loop_isolation(false)]
pub fn str_ends_with(s: &str, p: &str) -> (r: bool)
    ensures
        r == ends_with_spec(s@, p@),
{
    let sl = s.unicode_len();
    let pl = p.unicode_len();
    if pl > sl {
        return false;
    }
    let off = sl - pl;
    let mut i: usize = 0;
    while i < pl
        invariant
            0 <= i <= pl,
            pl <= sl,
            sl == s@.len(),
            pl == p@.len(),
            off == sl - pl,
            forall|j: int| 0 <= j < i ==> s@[off + j] == p@[j],
        decreases pl - i,
    {
        if s.get_char(off + i) != p.get_char(i) {
            proof {
                assert(s@.subrange(s@.len() - p@.len(), s@.len() as int)[i as int] != p@[
                i as int]);
            }
            return false;
        }
        i += 1;
    }
    proof {
        assert(s@.subrange(s@.len() - p@.len(), s@.len() as int) =~= p@);
    }
    true
}

/// Relies on `str::contains` with a `&str` pattern: true exactly when the
/// needle occurs as a contiguous substring (UTF-8 is self-synchronizing, so
/// its byte-level match coincides with the character-level one).
#[verifier::external_body]
pub fn str_contains(s: &str, sub: &str) -> (r: bool)
    ensures
        r == contains_spec(s@, sub@),
{
    s.contains(sub)
}

/// Whether a string equals a literal.
pub fn eq_lit(s: &String, lit: &str) -> (r: bool)
    ensures
        r == (s@ == lit@),
{
    let t = String::from_str(lit);
    *s == t
}

/// The byte lengths of a string column (a null counts as zero), reduced to
/// `i32` range.
pub fn length_str_col(col: &StringColumn) -> (r: Int32Column)
    ensures
        r@.len() == col@.len(),
        forall|i: int|
            0 <= i < col@.len() ==> #[trigger] r@[i] == Some(
                (match col@[i] {
                    Some(s) => wrap_i32(utf8_len(s)),
                    None => 0int,
                }) as i32,
            ),
{
    let mut out: Vec<Option<i32>> = Vec::new();
    let mut i: usize = 0;
    while i < col.data.len()
        invariant
            0 <= i <= col@.len(),
            out@.len() == i,
            forall|j: int|
                0 <= j < i ==> #[trigger] out@[j] == Some(
                    (match col@[j] {
                        Some(s) => wrap_i32(utf8_len(s)),
                        None => 0int,
                    }) as i32,
                ),
        decreases col@.len() - i,
    {
        let v: i32 = match &col.data[i] {
            Some(s) => str_len_i32(s.as_str()),
            None => 0,
        };
        out.push(Some(v));
        i += 1;
    }
    Int32Column { data: out }
}

/// The decimal renderings of an integer column; nulls stay null.
pub fn to_string_i64_col(data: &Vec<Option<i64>>) -> (r: StringColumn)
    ensures
        r@.len() == data@.len(),
        forall|i: int|
            0 <= i < data@.len() ==> #[trigger] r@[i] == (match data@[i] {
                Some(v) => Some(dec_str(v as int)),
                None => None,
            }),
{
    let mut out: Vec<Option<String>> = Vec::new();
    let mut i: usize = 0;
    while i < data.len()
        invariant
            0 <= i <= data@.len(),
            out@.len() == i,
            forall|j: int|
                0 <= j < i ==> #[trigger] crate::batch::opt_str_v(out@[j]) == (match data@[j] {
                    Some(v) => Some(dec_str(v as int)),
                    None => None,
                }),
        decreases data@.len() - i,
    {
        let v: Option<String> = match data[i] {
            Some(v) => Some(int_to_string(v)),
            None => None,
        };
        out.push(v);
        i += 1;
    }
    let r = StringColumn { data: out };
    proof {
        assert forall|i: int| 0 <= i < data@.len() implies #[trigger] r@[i] == (match data@[i] {
            Some(v) => Some(dec_str(v as int)),
            None => None,
        }) by {
            assert(r@[i] == crate::batch::opt_str_v(r.data@[i]));
        }
    }
    r
}

/// A string-predicate mask over a column: each row holds the predicate's
/// value on its string and the constant (a null row yields false, not null).
#[derive(Clone, Copy)]
pub enum StrPred {
    Contains,
    StartsWith,
    EndsWith,
}

/// The value of one string predicate.
pub open spec fn str_pred_spec(p: StrPred, s: Seq<char>, c: Seq<char>) -> bool {
    match p {
        StrPred::Contains => contains_spec(s, c),
        StrPred::StartsWith => starts_with_spec(s, c),
        StrPred::EndsWith => ends_with_spec(s, c),
    }
}

/// The mask of a string predicate over a column.
pub open spec fn str_pred_mask(p: StrPred, col: Seq<Option<Seq<char>>>, c: Seq<char>) -> Seq<
    Option<bool>,
> {
    Seq::new(
        col.len(),
        |i: int|
            Some(
                match col[i] {
                    Some(s) => str_pred_spec(p, s, c),
                    None => false,
                },
            ),
    )
}

pub fn str_pred_col(p: StrPred, col: &StringColumn, c: &String) -> (r: BoolColumn)
    ensures
        r@ == str_pred_mask(p, col@, c@),
{
    let mut out: Vec<Option<bool>> = Vec::new();
    let mut i: usize = 0;
    while i < col.data.len()
        invariant
            0 <= i <= col@.len(),
            out@.len() == i,
            forall|j: int| 0 <= j < i ==> out@[j] == str_pred_mask(p, col@, c@)[j],
        decreases col@.len() - i,
    {
        let v: bool = match &col.data[i] {
            Some(s) => match p {
                StrPred::Contains => str_contains(s.as_str(), c.as_str()),
                StrPred::StartsWith => str_starts_with(s.as_str(), c.as_str()),
                StrPred::EndsWith => str_ends_with(s.as_str(), c.as_str()),
            },
            None => false,
        };
        out.push(Some(v));
        i += 1;
    }
    let r = BoolColumn { data: out };
    proof {
        assert(r@ =~= str_pred_mask(p, col@, c@));
    }
    r
}

} // verus!
