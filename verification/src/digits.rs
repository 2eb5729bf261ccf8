//! Decimal and hexadecimal digit strings: rendering and parsing, with the
//! arithmetic facts the round-trip proofs need.
use vstd::prelude::*;

use crate::strutil::{ascii_chars_of, ascii_string};

verus! {

/// The ASCII byte for a decimal digit value below ten.
pub open spec fn digit_byte(d: nat) -> u8
    recommends
        d < 10,
{
    (48 + d) as u8
}

/// The decimal digit string of `n`, without leading zeros, as bytes.
pub open spec fn dec_bytes(n: nat) -> Seq<u8>
    decreases n,
{
    if n < 10 {
        seq![digit_byte(n)]
    } else {
        dec_bytes(n / 10).push(digit_byte(n % 10))
    }
}

/// The decimal digit string of `n` as characters.
pub open spec fn dec_chars(n: nat) -> Seq<char> {
    ascii_chars_of(dec_bytes(n))
}

pub proof fn lemma_dec_bytes_digits(n: nat)
    ensures
        dec_bytes(n).len() >= 1,
        forall|i: int| 0 <= i < dec_bytes(n).len() ==> 48 <= #[trigger] dec_bytes(n)[i] <= 57,
    decreases n,
{
    if n >= 10 {
        lemma_dec_bytes_digits(n / 10);
    }
}

/// The digits of `m` still to be rendered, in front of what is already done.
pub open spec fn dec_partial(m: nat, acc: Seq<u8>) -> Seq<u8> {
    if m == 0 {
        acc
    } else {
        dec_bytes(m) + acc
    }
}

/// Reverses the order of a byte vector.
pub fn reverse_bytes(rev: &Vec<u8>) -> (v: Vec<u8>)
    ensures
        v@ == rev@.reverse(),
{
    let mut v: Vec<u8> = Vec::new();
    let mut i: usize = rev.len();
    while i > 0
        invariant
            i <= rev@.len(),
            v@ =~= rev@.subrange(i as int, rev@.len() as int).reverse(),
        decreases i,
    {
        i = i - 1;
        let b = rev[i];
        v.push(b);
        proof {
            assert(v@ =~= rev@.subrange(i as int, rev@.len() as int).reverse());
        }
    }
    proof {
        assert(rev@.subrange(0, rev@.len() as int) =~= rev@);
        assert(v@ =~= rev@.reverse());
    }
    v
}

/// Renders `n` in decimal, as bytes.
pub fn fmt_u64_bytes(n: u64) -> (v: Vec<u8>)
    ensures
        v@ == dec_bytes(n as nat),
{
    let mut rev: Vec<u8> = Vec::new();
    let mut m: u64 = n;
    let d0: u8 = (m % 10) as u8;
    rev.push(48 + d0);
    m = m / 10;
    proof {
        assert(rev@.reverse() =~= seq![digit_byte((n % 10) as nat)]);
        if n >= 10 {
            assert(dec_bytes(n as nat) == dec_bytes((n / 10) as nat).push(
                digit_byte((n % 10) as nat),
            ));
            assert(dec_bytes(n as nat) =~= dec_partial(m as nat, rev@.reverse()));
        } else {
            assert(dec_bytes(n as nat) =~= seq![digit_byte(n as nat)]);
            assert(dec_bytes(n as nat) =~= dec_partial(m as nat, rev@.reverse()));
        }
    }
    while m > 0
        invariant
            dec_bytes(n as nat) =~= dec_partial(m as nat, rev@.reverse()),
        decreases m,
    {
        let ghost prev = m as nat;
        let ghost acc0 = rev@.reverse();
        let d: u8 = (m % 10) as u8;
        rev.push(48 + d);
        m = m / 10;
        proof {
            assert(rev@.reverse() =~= seq![digit_byte((prev % 10) as nat)] + acc0);
            if prev >= 10 {
                assert(dec_bytes(prev) == dec_bytes(prev / 10).push(digit_byte(prev % 10)));
                assert(dec_bytes(prev) + acc0 =~= dec_bytes(prev / 10) + rev@.reverse());
            } else {
                assert(dec_bytes(prev) =~= seq![digit_byte(prev)]);
                assert(dec_bytes(prev) + acc0 =~= rev@.reverse());
            }
            assert(dec_bytes(n as nat) =~= dec_partial(m as nat, rev@.reverse()));
        }
    }
    reverse_bytes(&rev)
}

/// Renders `n` in decimal, as a string.
pub fn fmt_u64(n: u64) -> (s: String)
    ensures
        s@ == dec_chars(n as nat),
{
    let v = fmt_u64_bytes(n);
    proof {
        lemma_dec_bytes_digits(n as nat);
    }
    ascii_string(v)
}

pub open spec fn is_digit_char(c: char) -> bool {
    '0' <= c <= '9'
}

pub open spec fn digit_val(c: char) -> nat
    recommends
        is_digit_char(c),
{
    (c as u32 - 48) as nat
}

pub open spec fn all_digits(s: Seq<char>) -> bool {
    forall|i: int| 0 <= i < s.len() ==> is_digit_char(#[trigger] s[i])
}

/// The numeric value of a decimal digit string.
pub open spec fn dec_value(s: Seq<char>) -> nat
    decreases s.len(),
{
    if s.len() == 0 {
        0
    } else {
        dec_value(s.drop_last()) * 10 + digit_val(s.last())
    }
}

/// Rendering a number in decimal and reading the digits back yields the
/// number; the rendering is nonempty and all digits.
pub proof fn lemma_dec_chars_value(n: nat)
    ensures
        dec_chars(n).len() >= 1,
        all_digits(dec_chars(n)),
        dec_value(dec_chars(n)) == n,
    decreases n,
{
    lemma_dec_bytes_digits(n);
    if n < 10 {
        let c = digit_byte(n) as char;
        assert(dec_chars(n) =~= seq![c]);
        assert(c as u32 == digit_byte(n) as u32);
        assert(seq![c].drop_last() =~= Seq::<char>::empty());
        assert(dec_value(Seq::<char>::empty()) == 0);
        assert(seq![c].last() == c);
        assert(dec_value(seq![c]) == digit_val(c));
        assert(dec_value(dec_chars(n)) == n);
    } else {
        lemma_dec_chars_value(n / 10);
        assert(dec_chars(n) =~= dec_chars(n / 10).push(digit_byte(n % 10) as char));
        assert(dec_chars(n).drop_last() =~= dec_chars(n / 10));
        assert(dec_value(dec_chars(n)) == dec_value(dec_chars(n / 10)) * 10 + digit_val(
            digit_byte(n % 10) as char,
        ));
        assert(n == (n / 10) * 10 + n % 10);
    }
}

/// The decimal digit string of an `i64`: a minus sign where negative.
pub open spec fn dec_chars_i64(n: int) -> Seq<char> {
    if n >= 0 {
        dec_chars(n as nat)
    } else {
        seq!['-'] + dec_chars((-n) as nat)
    }
}

/// Renders a signed number in decimal.
pub fn fmt_i64(n: i64) -> (s: String)
    ensures
        s@ == dec_chars_i64(n as int),
{
    if n >= 0 {
        let s = fmt_u64(n as u64);
        s
    } else {
        let mag: u64 = ((-(n + 1)) as u64) + 1;
        proof {
            assert(mag as nat == (-(n as int)) as nat);
        }
        let mut v: Vec<u8> = Vec::new();
        v.push(45);
        let db = fmt_u64_bytes(mag);
        let mut i: usize = 0;
        while i < db.len()
            invariant
                i <= db@.len(),
                db@ == dec_bytes(mag as nat),
                v@ =~= seq![45u8] + db@.subrange(0, i as int),
            decreases db@.len() - i,
        {
            let b = db[i];
            v.push(b);
            i = i + 1;
            proof {
                assert(v@ =~= seq![45u8] + db@.subrange(0, i as int));
            }
        }
        proof {
            assert(db@.subrange(0, db@.len() as int) =~= db@);
            lemma_dec_bytes_digits(mag as nat);
            assert(ascii_chars_of(v@) =~= seq!['-'] + dec_chars(mag as nat));
        }
        ascii_string(v)
    }
}

/// The ASCII byte for a hexadecimal digit value below sixteen, lower case.
pub open spec fn hex_digit_byte(d: nat) -> u8
    recommends
        d < 16,
{
    if d < 10 {
        (48 + d) as u8
    } else {
        (87 + d) as u8
    }
}

/// The low `width` hexadecimal digits of `n`, zero-padded, as bytes.
pub open spec fn hex_bytes_fixed(n: nat, width: nat) -> Seq<u8>
    decreases width,
{
    if width == 0 {
        seq![]
    } else {
        hex_bytes_fixed(n / 16, (width - 1) as nat).push(hex_digit_byte(n % 16))
    }
}

pub proof fn lemma_hex_bytes_fixed_ascii(n: nat, width: nat)
    ensures
        hex_bytes_fixed(n, width).len() == width,
        forall|i: int|
            0 <= i < width ==> #[trigger] hex_bytes_fixed(n, width)[i] < 128
                && hex_bytes_fixed(n, width)[i] >= 48,
    decreases width,
{
    if width > 0 {
        lemma_hex_bytes_fixed_ascii(n / 16, (width - 1) as nat);
    }
}

/// Renders the low 128 bits of `n` as 32 lower-case hexadecimal digits.
pub fn fmt_u128_hex32(n: u128) -> (v: Vec<u8>)
    ensures
        v@ == hex_bytes_fixed(n as nat, 32),
{
    let mut rev: Vec<u8> = Vec::new();
    let mut m: u128 = n;
    let mut i: usize = 0;
    while i < 32
        invariant
            i <= 32,
            rev@.len() == i,
            hex_bytes_fixed(n as nat, 32) =~= hex_bytes_fixed(m as nat, (32 - i) as nat)
                + rev@.reverse(),
        decreases 32 - i,
    {
        let ghost prev = m as nat;
        let ghost acc0 = rev@.reverse();
        let ghost w = (32 - i) as nat;
        let d: u8 = (m % 16) as u8;
        let b: u8 = if d < 10 {
            48 + d
        } else {
            87 + d
        };
        rev.push(b);
        m = m / 16;
        i = i + 1;
        proof {
            assert(b == hex_digit_byte(prev % 16));
            assert(rev@.reverse() =~= seq![hex_digit_byte(prev % 16)] + acc0);
            assert(hex_bytes_fixed(prev, w) == hex_bytes_fixed(prev / 16, (w - 1) as nat).push(
                hex_digit_byte(prev % 16),
            ));
            assert(hex_bytes_fixed(prev, w) + acc0 =~= hex_bytes_fixed(m as nat, (w - 1) as nat)
                + rev@.reverse());
            assert(hex_bytes_fixed(n as nat, 32) =~= hex_bytes_fixed(m as nat, (32 - i) as nat)
                + rev@.reverse());
        }
    }
    proof {
        assert(hex_bytes_fixed(m as nat, 0) =~= Seq::<u8>::empty());
        assert(hex_bytes_fixed(n as nat, 32) =~= rev@.reverse());
    }
    reverse_bytes(&rev)
}

} // verus!
