//! The textual form of identifiers: 32 hexadecimal digits, hyphenated into
//! the familiar 8-4-4-4-12 groups.  Parsing also accepts the compact form.
use vstd::prelude::*;

use crate::db_stuff::Uuid;
use crate::digits::{hex_bytes_fixed, lemma_hex_bytes_fixed_ascii, fmt_u128_hex32};
use crate::strutil::{ascii_chars_of, ascii_string};

verus! {

pub open spec fn is_hex_char(c: char) -> bool {
    ('0' <= c <= '9') || ('a' <= c <= 'f') || ('A' <= c <= 'F')
}

/// The value of one hexadecimal digit; non-digits count as zero.
pub open spec fn hex_val(c: char) -> nat {
    if '0' <= c <= '9' {
        (c as u32 - 48) as nat
    } else if 'a' <= c <= 'f' {
        (c as u32 - 87) as nat
    } else if 'A' <= c <= 'F' {
        (c as u32 - 55) as nat
    } else {
        0
    }
}

pub open spec fn all_hex(s: Seq<char>) -> bool {
    forall|i: int| 0 <= i < s.len() ==> is_hex_char(#[trigger] s[i])
}

/// The numeric value of a hexadecimal digit string.
pub open spec fn hex_value(s: Seq<char>) -> nat
    decreases s.len(),
{
    if s.len() == 0 {
        0
    } else {
        hex_value(s.drop_last()) * 16 + hex_val(s.last())
    }
}

pub open spec fn pow16(k: nat) -> nat
    decreases k,
{
    if k == 0 {
        1
    } else {
        16 * pow16((k - 1) as nat)
    }
}


pub proof fn lemma_pow16_mono(a: nat, b: nat)
    requires
        a <= b,
    ensures
        pow16(a) <= pow16(b),
    decreases b,
{
    if a < b {
        lemma_pow16_mono(a, (b - 1) as nat);
        assert(pow16((b - 1) as nat) >= 1) by {
            lemma_pow16_pos((b - 1) as nat);
        }
    }
}

pub proof fn lemma_pow16_pos(k: nat)
    ensures
        pow16(k) >= 1,
    decreases k,
{
    if k > 0 {
        lemma_pow16_pos((k - 1) as nat);
    }
}

pub proof fn lemma_pow16_32()
    ensures
        pow16(32) == 0x100000000000000000000000000000000,
{
    reveal_with_fuel(pow16, 33);
}

/// Where the `j`-th hex digit of a hyphenated identifier stands in the text.
pub open spec fn hyphenated_src(j: int) -> int {
    if j < 8 {
        j
    } else if j < 12 {
        j + 1
    } else if j < 16 {
        j + 2
    } else if j < 20 {
        j + 3
    } else {
        j + 4
    }
}

/// The 32 hex digits of a 36-character hyphenated identifier.
pub open spec fn hyphenated_digits(s: Seq<char>) -> Seq<char> {
    Seq::new(32, |j: int| s[hyphenated_src(j)])
}

/// What an identifier string must parse to: either the hyphenated or the
/// compact hexadecimal form.
pub open spec fn spec_parse_uuid(s: Seq<char>) -> Option<Uuid> {
    if s.len() == 36 && s[8] == '-' && s[13] == '-' && s[18] == '-' && s[23] == '-' && all_hex(
        hyphenated_digits(s),
    ) {
        Option::Some(Uuid(hex_value(hyphenated_digits(s)) as u128))
    } else if s.len() == 32 && all_hex(s) {
        Option::Some(Uuid(hex_value(s) as u128))
    } else {
        Option::None
    }
}

fn hex_char_val(c: char) -> (r: Option<u8>)
    ensures
        r is Some <==> is_hex_char(c),
        r matches Some(v) ==> v as nat == hex_val(c),
{
    if '0' <= c && c <= '9' {
        Some((c as u32 as u8) - 48)
    } else if 'a' <= c && c <= 'f' {
        Some((c as u32 as u8) - 87)
    } else if 'A' <= c && c <= 'F' {
        Some((c as u32 as u8) - 55)
    } else {
        None
    }
}

/// Parses an identifier from its hyphenated (36-character) or compact
/// (32-character) hexadecimal form.
pub fn parse_uuid(s: &str) -> (r: Option<Uuid>)
    ensures
        r == spec_parse_uuid(s@),
{
    let len: usize = s.unicode_len();
    if len == 36 {
        if s.get_char(8) != '-' || s.get_char(13) != '-' || s.get_char(18) != '-' || s.get_char(23)
            != '-' {
            return None;
        }
        let ghost digits = hyphenated_digits(s@);
        let mut n: u128 = 0;
        let mut j: usize = 0;
        while j < 32
            invariant
                j <= 32,
                s@.len() == 36,
                digits == hyphenated_digits(s@),
                forall|k: int| 0 <= k < j ==> is_hex_char(#[trigger] digits[k]),
                n as nat == hex_value(digits.subrange(0, j as int)),
                (n as nat) < pow16(j as nat),
            decreases 32 - j,
        {
            let src: usize = if j < 8 {
                j
            } else if j < 12 {
                j + 1
            } else if j < 16 {
                j + 2
            } else if j < 20 {
                j + 3
            } else {
                j + 4
            };
            let c = s.get_char(src);
            proof {
                assert(digits[j as int] == s@[hyphenated_src(j as int)]);
            }
            let d = match hex_char_val(c) {
                Some(d) => d,
                None => {
                    proof {
                        assert(!all_hex(hyphenated_digits(s@)));
                    }
                    return None;
                },
            };
            proof {
                lemma_pow16_mono(j as nat, 31);
                lemma_pow16_32();
                assert(pow16(32) == 16 * pow16(31));
            }
            n = n * 16 + (d as u128);
            j = j + 1;
            proof {
                assert(digits.subrange(0, j as int).drop_last() =~= digits.subrange(
                    0,
                    j as int - 1,
                ));
                assert(digits.subrange(0, j as int).last() == digits[j as int - 1]);
                assert(pow16(j as nat) == 16 * pow16((j - 1) as nat));
            }
        }
        proof {
            assert(digits.subrange(0, 32) =~= digits);
        }
        Some(Uuid(n))
    } else if len == 32 {
        let mut n: u128 = 0;
        let mut j: usize = 0;
        while j < 32
            invariant
                j <= 32,
                s@.len() == 32,
                forall|k: int| 0 <= k < j ==> is_hex_char(#[trigger] s@[k]),
                n as nat == hex_value(s@.subrange(0, j as int)),
                (n as nat) < pow16(j as nat),
            decreases 32 - j,
        {
            let c = s.get_char(j);
            let d = match hex_char_val(c) {
                Some(d) => d,
                None => {
                    proof {
                        assert(!all_hex(s@));
                    }
                    return None;
                },
            };
            proof {
                lemma_pow16_mono(j as nat, 31);
                lemma_pow16_32();
                assert(pow16(32) == 16 * pow16(31));
            }
            n = n * 16 + (d as u128);
            j = j + 1;
            proof {
                assert(s@.subrange(0, j as int).drop_last() =~= s@.subrange(0, j as int - 1));
                assert(s@.subrange(0, j as int).last() == s@[j as int - 1]);
                assert(pow16(j as nat) == 16 * pow16((j - 1) as nat));
            }
        }
        proof {
            assert(s@.subrange(0, 32) =~= s@);
        }
        Some(Uuid(n))
    } else {
        None
    }
}

/// The hyphenated textual form of an identifier.
pub open spec fn uuid_chars(n: u128) -> Seq<char> {
    let h = ascii_chars_of(hex_bytes_fixed(n as nat, 32));
    h.subrange(0, 8) + seq!['-'] + h.subrange(8, 12) + seq!['-'] + h.subrange(12, 16) + seq!['-']
        + h.subrange(16, 20) + seq!['-'] + h.subrange(20, 32)
}

fn push_range(v: &mut Vec<u8>, h: &Vec<u8>, from: usize, to: usize)
    requires
        from <= to <= h@.len(),
    ensures
        final(v)@ == old(v)@ + h@.subrange(from as int, to as int),
{
    let mut i: usize = from;
    while i < to
        invariant
            from <= i <= to <= h@.len(),
            v@ =~= old(v)@ + h@.subrange(from as int, i as int),
        decreases to - i,
    {
        let b = h[i];
        v.push(b);
        i = i + 1;
        proof {
            assert(v@ =~= old(v)@ + h@.subrange(from as int, i as int));
        }
    }
}

/// Renders an identifier in its hyphenated hexadecimal form.
pub fn fmt_uuid(u: &Uuid) -> (s: String)
    ensures
        s@ == uuid_chars(u.0),
{
    let h = fmt_u128_hex32(u.0);
    proof {
        lemma_hex_bytes_fixed_ascii(u.0 as nat, 32);
    }
    let mut v: Vec<u8> = Vec::new();
    push_range(&mut v, &h, 0, 8);
    v.push(45);
    push_range(&mut v, &h, 8, 12);
    v.push(45);
    push_range(&mut v, &h, 12, 16);
    v.push(45);
    push_range(&mut v, &h, 16, 20);
    v.push(45);
    push_range(&mut v, &h, 20, 32);
    proof {
        assert(ascii_chars_of(v@) =~= uuid_chars(u.0));
    }
    ascii_string(v)
}

} // verus!
