//! Cookie header parsing and rendering.
//!
//! `parse_cookie` reads a `Cookie:` value into name/value pairs (last wins on
//! lookup); `parse_set_cookie` reads one `Set-Cookie:` value into a typed
//! record, and `render_set_cookie` writes one back.  Cookie names and values
//! are restricted to the RFC 6265 token alphabet.
use vstd::prelude::*;

use crate::digits::{dec_value, digit_val, is_digit_char};
use crate::strutil::str_eq;

verus! {

#[derive(Debug, Eq, PartialEq)]
pub struct Cookie {
    pub name: String,
    pub value: String,
    pub expires: Option<DateHeader>,
    pub max_age: Option<i64>,
    pub domain: Option<String>,
    pub path: Option<String>,
    pub secure: bool,
    pub http_only: bool,
    pub same_site: Option<SameSite>,
}

#[derive(Copy, Clone, Debug, Eq, PartialEq, Structural)]
pub enum SameSite {
    Strict,
    Lax,
    NoneValue,
}

/// An `Expires` timestamp, broken into its IMF-fixdate components.
#[derive(Clone, Copy, Debug, Eq, PartialEq, Structural)]
pub struct DateHeader {
    pub day_name: DayName,
    pub day: u8,
    pub month: u8,
    pub year: u16,
    pub hour: u8,
    pub minute: u8,
    pub second: u8,
}

#[derive(Copy, Clone, Debug, Eq, PartialEq, Structural)]
pub enum DayName {
    Mon,
    Tue,
    Wed,
    Thu,
    Fri,
    Sat,
    Sun,
}

/// The ghost image of a `Cookie`, with text as character sequences.
pub ghost struct SpecCookie {
    pub name: Seq<char>,
    pub value: Seq<char>,
    pub expires: Option<DateHeader>,
    pub max_age: Option<i64>,
    pub domain: Option<Seq<char>>,
    pub path: Option<Seq<char>>,
    pub secure: bool,
    pub http_only: bool,
    pub same_site: Option<SameSite>,
}

impl View for Cookie {
    type V = SpecCookie;

    open spec fn view(&self) -> SpecCookie {
        SpecCookie {
            name: self.name@,
            value: self.value@,
            expires: self.expires,
            max_age: self.max_age,
            domain: match self.domain {
                Option::Some(d) => Option::Some(d@),
                Option::None => Option::None,
            },
            path: match self.path {
                Option::Some(p) => Option::Some(p@),
                Option::None => Option::None,
            },
            secure: self.secure,
            http_only: self.http_only,
            same_site: self.same_site,
        }
    }
}

/// The RFC 6265 cookie token alphabet.
pub open spec fn is_cookie_char(c: char) -> bool {
    ||| ('A' <= c <= 'Z')
    ||| ('a' <= c <= 'z')
    ||| ('0' <= c <= '9')
    ||| c == '!'
    ||| ('#' <= c <= '\'')
    ||| ('*' <= c <= '+')
    ||| ('-' <= c <= '.')
    ||| c == '`'
    ||| c == '|'
    ||| c == '~'
}

pub fn cookie_char(c: char) -> (r: bool)
    ensures
        r == is_cookie_char(c),
{
    ('A' <= c && c <= 'Z') || ('a' <= c && c <= 'z') || ('0' <= c && c <= '9') || c == '!' || ('#'
        <= c && c <= '\'') || ('*' <= c && c <= '+') || ('-' <= c && c <= '.') || c == '`' || c
        == '|' || c == '~'
}

/// First position at or after `i` that does not hold a cookie token
/// character.
pub open spec fn token_end(s: Seq<char>, i: int) -> int
    recommends
        0 <= i <= s.len(),
    decreases s.len() - i,
{
    if i >= s.len() || !is_cookie_char(s[i]) {
        i
    } else {
        token_end(s, i + 1)
    }
}

pub proof fn lemma_token_end_range(s: Seq<char>, i: int)
    requires
        0 <= i <= s.len(),
    ensures
        i <= token_end(s, i) <= s.len(),
        forall|k: int| i <= k < token_end(s, i) ==> is_cookie_char(#[trigger] s[k]),
        token_end(s, i) < s.len() ==> !is_cookie_char(s[token_end(s, i)]),
    decreases s.len() - i,
{
    if i < s.len() && is_cookie_char(s[i]) {
        lemma_token_end_range(s, i + 1);
    }
}

/// Runs of cookie token characters: the scanner behind every name and value.
pub fn cookie_ascii(s: &str, from: usize) -> (e: usize)
    requires
        from <= s@.len(),
    ensures
        e == token_end(s@, from as int),
        from <= e <= s@.len(),
{
    let len: usize = s.unicode_len();
    let mut e: usize = from;
    while e < len && cookie_char(s.get_char(e))
        invariant
            from <= e <= len,
            len == s@.len(),
            token_end(s@, from as int) == token_end(s@, e as int),
        decreases len - e,
    {
        e = e + 1;
    }
    e
}

/// One `name=value` pair read at `i`: the pair and the position after it.
pub open spec fn spec_pair(s: Seq<char>, i: int) -> Option<(Seq<char>, Seq<char>, int)>
    recommends
        0 <= i <= s.len(),
{
    let ne = token_end(s, i);
    if ne == i {
        Option::None
    } else if ne >= s.len() || s[ne] != '=' {
        Option::None
    } else {
        let ve = token_end(s, ne + 1);
        if ve == ne + 1 {
            Option::None
        } else {
            Option::Some((s.subrange(i, ne), s.subrange(ne + 1, ve), ve))
        }
    }
}

/// The pairs of a `Cookie:` header from position `i` on, read greedily as
/// the original grammar does: pairs separated by `; `, with anything after
/// the last well-formed pair ignored.
pub open spec fn spec_cookie_pairs(s: Seq<char>, i: int) -> Seq<(Seq<char>, Seq<char>)>
    recommends
        0 <= i <= s.len(),
    decreases s.len() - i,
{
    match spec_pair(s, i) {
        Option::None => Seq::empty(),
        Option::Some((n, v, j)) => {
            let first = seq![(n, v)];
            if j + 2 <= s.len() && s[j] == ';' && s[j + 1] == ' ' && j + 2 > i {
                first + spec_cookie_pairs(s, j + 2)
            } else {
                first
            }
        },
    }
}

/// What `parse_cookie` must return: the pairs, or nothing when the header
/// does not begin with a pair.
pub open spec fn spec_parse_cookie(s: Seq<char>) -> Option<Seq<(Seq<char>, Seq<char>)>> {
    if spec_pair(s, 0) is Some {
        Option::Some(spec_cookie_pairs(s, 0))
    } else {
        Option::None
    }
}

/// Last-wins lookup among parsed pairs, as a map built by insertion reads.
pub open spec fn pairs_lookup(pairs: Seq<(Seq<char>, Seq<char>)>, name: Seq<char>) -> Option<
    Seq<char>,
>
    decreases pairs.len(),
{
    if pairs.len() == 0 {
        Option::None
    } else if pairs.last().0 == name {
        Option::Some(pairs.last().1)
    } else {
        pairs_lookup(pairs.drop_last(), name)
    }
}

/// The view of parsed pairs.
pub open spec fn pairs_view(pairs: Seq<(String, String)>) -> Seq<(Seq<char>, Seq<char>)> {
    pairs.map_values(|p: (String, String)| (p.0@, p.1@))
}

/// Parses a `Cookie:` header value into its name/value pairs.
pub fn parse_cookie(input: &str) -> (r: Option<Vec<(String, String)>>)
    ensures
        match r {
            Option::Some(pairs) => spec_parse_cookie(input@) == Option::Some(pairs_view(pairs@)),
            Option::None => spec_parse_cookie(input@) is None,
        },
{
    let len: usize = input.unicode_len();
    let mut pairs: Vec<(String, String)> = Vec::new();
    let mut i: usize = 0;
    let mut first: bool = true;
    loop
        invariant
            i <= len,
            len == input@.len(),
            first ==> i == 0 && pairs@.len() == 0,
            !first ==> spec_pair(input@, 0) is Some,
            !first ==> spec_cookie_pairs(input@, 0) == pairs_view(pairs@) + spec_cookie_pairs(
                input@,
                i as int,
            ),
            !first ==> spec_pair(input@, i as int) is Some,
        decreases len - i,
    {
        let ne = cookie_ascii(input, i);
        proof {
            lemma_token_end_range(input@, i as int);
        }
        if ne == i || ne >= len || input.get_char(ne) != '=' {
            proof {
                assert(spec_pair(input@, i as int) is None);
            }
            if first {
                return None;
            }
            proof {
                assert(spec_cookie_pairs(input@, i as int) =~= Seq::empty());
                assert(spec_cookie_pairs(input@, 0) =~= pairs_view(pairs@));
            }
            return Some(pairs);
        }
        let ve = cookie_ascii(input, ne + 1);
        proof {
            lemma_token_end_range(input@, ne as int + 1);
        }
        if ve == ne + 1 {
            proof {
                assert(spec_pair(input@, i as int) is None);
            }
            if first {
                return None;
            }
            proof {
                assert(spec_cookie_pairs(input@, i as int) =~= Seq::empty());
                assert(spec_cookie_pairs(input@, 0) =~= pairs_view(pairs@));
            }
            return Some(pairs);
        }
        let name = input.substring_char(i, ne).to_owned();
        let value = input.substring_char(ne + 1, ve).to_owned();
        proof {
            assert(spec_pair(input@, i as int) == Option::Some(
                (input@.subrange(i as int, ne as int), input@.subrange(ne as int + 1, ve as int), ve as int),
            ));
        }
        let ghost old_pairs = pairs_view(pairs@);
        pairs.push((name, value));
        proof {
            assert(pairs_view(pairs@) =~= old_pairs + seq![
                (input@.subrange(i as int, ne as int), input@.subrange(ne as int + 1, ve as int)),
            ]);
        }
        first = false;
        if ve < len && len - ve >= 2 && input.get_char(ve) == ';' && input.get_char(ve + 1) == ' ' {
            let next = ve + 2;
            let ne2 = cookie_ascii(input, next);
            proof {
                lemma_token_end_range(input@, next as int);
            }
            let more = if ne2 == next || ne2 >= len {
                false
            } else if input.get_char(ne2) != '=' {
                false
            } else {
                let ve2 = cookie_ascii(input, ne2 + 1);
                proof {
                    lemma_token_end_range(input@, ne2 as int + 1);
                }
                ve2 != ne2 + 1
            };
            if more {
                proof {
                    assert(spec_cookie_pairs(input@, i as int) =~= seq![
                        (
                            input@.subrange(i as int, ne as int),
                            input@.subrange(ne as int + 1, ve as int),
                        ),
                    ] + spec_cookie_pairs(input@, next as int));
                    assert(spec_cookie_pairs(input@, 0) =~= pairs_view(pairs@)
                        + spec_cookie_pairs(input@, next as int));
                }
                i = next;
                continue;
            }
            proof {
                assert(spec_pair(input@, next as int) is None);
                assert(spec_cookie_pairs(input@, next as int) =~= Seq::empty());
                assert(spec_cookie_pairs(input@, i as int) =~= seq![
                    (
                        input@.subrange(i as int, ne as int),
                        input@.subrange(ne as int + 1, ve as int),
                    ),
                ] + spec_cookie_pairs(input@, next as int));
                assert(spec_cookie_pairs(input@, 0) =~= pairs_view(pairs@));
            }
            return Some(pairs);
        }
        proof {
            assert(spec_cookie_pairs(input@, i as int) =~= seq![
                (
                    input@.subrange(i as int, ne as int),
                    input@.subrange(ne as int + 1, ve as int),
                ),
            ]);
            assert(spec_cookie_pairs(input@, 0) =~= pairs_view(pairs@));
        }
        return Some(pairs);
    }
}

/// Last-wins lookup of a cookie by name among parsed pairs.
pub fn cookie_get<'a>(pairs: &'a Vec<(String, String)>, name: &str) -> (r: Option<&'a String>)
    ensures
        match r {
            Option::Some(v) => pairs_lookup(pairs_view(pairs@), name@) == Option::Some(v@),
            Option::None => pairs_lookup(pairs_view(pairs@), name@) is None,
        },
{
    let mut i: usize = pairs.len();
    proof {
        assert(pairs_view(pairs@).subrange(0, pairs@.len() as int) =~= pairs_view(pairs@));
    }
    while i > 0
        invariant
            i <= pairs@.len(),
            pairs_lookup(pairs_view(pairs@), name@) == pairs_lookup(
                pairs_view(pairs@).subrange(0, i as int),
                name@,
            ),
        decreases i,
    {
        i = i - 1;
        if str_eq(pairs[i].0.as_str(), name) {
            proof {
                let pv = pairs_view(pairs@).subrange(0, i as int + 1);
                assert(pv.last() == (pairs@[i as int].0@, pairs@[i as int].1@));
            }
            return Some(&pairs[i].1);
        }
        proof {
            let pv = pairs_view(pairs@).subrange(0, i as int + 1);
            assert(pv.last() == (pairs@[i as int].0@, pairs@[i as int].1@));
            assert(pv.drop_last() =~= pairs_view(pairs@).subrange(0, i as int));
        }
    }
    proof {
        assert(pairs_view(pairs@).subrange(0, 0) =~= Seq::empty());
    }
    None
}

} // verus!
// The Set-Cookie grammar: date, number and attribute pieces, each exec
// function proved equal to its spec counterpart.
verus! {

pub open spec fn at_char(s: Seq<char>, i: int, c: char) -> bool {
    0 <= i < s.len() && s[i] == c
}

/// The weekday name at `i`, read from its three-letter form.
pub open spec fn spec_day_name(s: Seq<char>, i: int) -> Option<DayName> {
    if i + 3 > s.len() || i < 0 {
        Option::None
    } else if s[i] == 'M' && s[i + 1] == 'o' && s[i + 2] == 'n' {
        Option::Some(DayName::Mon)
    } else if s[i] == 'T' && s[i + 1] == 'u' && s[i + 2] == 'e' {
        Option::Some(DayName::Tue)
    } else if s[i] == 'W' && s[i + 1] == 'e' && s[i + 2] == 'd' {
        Option::Some(DayName::Wed)
    } else if s[i] == 'T' && s[i + 1] == 'h' && s[i + 2] == 'u' {
        Option::Some(DayName::Thu)
    } else if s[i] == 'F' && s[i + 1] == 'r' && s[i + 2] == 'i' {
        Option::Some(DayName::Fri)
    } else if s[i] == 'S' && s[i + 1] == 'a' && s[i + 2] == 't' {
        Option::Some(DayName::Sat)
    } else if s[i] == 'S' && s[i + 1] == 'u' && s[i + 2] == 'n' {
        Option::Some(DayName::Sun)
    } else {
        Option::None
    }
}

/// The month number at `i`, read from its three-letter name.
pub open spec fn spec_month(s: Seq<char>, i: int) -> Option<u8> {
    if i + 3 > s.len() || i < 0 {
        Option::None
    } else if s[i] == 'J' && s[i + 1] == 'a' && s[i + 2] == 'n' {
        Option::Some(1u8)
    } else if s[i] == 'F' && s[i + 1] == 'e' && s[i + 2] == 'b' {
        Option::Some(2u8)
    } else if s[i] == 'M' && s[i + 1] == 'a' && s[i + 2] == 'r' {
        Option::Some(3u8)
    } else if s[i] == 'A' && s[i + 1] == 'p' && s[i + 2] == 'r' {
        Option::Some(4u8)
    } else if s[i] == 'M' && s[i + 1] == 'a' && s[i + 2] == 'y' {
        Option::Some(5u8)
    } else if s[i] == 'J' && s[i + 1] == 'u' && s[i + 2] == 'n' {
        Option::Some(6u8)
    } else if s[i] == 'J' && s[i + 1] == 'u' && s[i + 2] == 'l' {
        Option::Some(7u8)
    } else if s[i] == 'A' && s[i + 1] == 'u' && s[i + 2] == 'g' {
        Option::Some(8u8)
    } else if s[i] == 'S' && s[i + 1] == 'e' && s[i + 2] == 'p' {
        Option::Some(9u8)
    } else if s[i] == 'O' && s[i + 1] == 'c' && s[i + 2] == 't' {
        Option::Some(10u8)
    } else if s[i] == 'N' && s[i + 1] == 'o' && s[i + 2] == 'v' {
        Option::Some(11u8)
    } else if s[i] == 'D' && s[i + 1] == 'e' && s[i + 2] == 'c' {
        Option::Some(12u8)
    } else {
        Option::None
    }
}

/// The value of exactly two decimal digits at `i`.
pub open spec fn spec_2digit(s: Seq<char>, i: int) -> Option<u8> {
    if 0 <= i && i + 2 <= s.len() && is_digit_char(s[i]) && is_digit_char(s[i + 1]) {
        Option::Some((digit_val(s[i]) * 10 + digit_val(s[i + 1])) as u8)
    } else {
        Option::None
    }
}

/// The value of exactly four decimal digits at `i`.
pub open spec fn spec_4digit(s: Seq<char>, i: int) -> Option<u16> {
    if 0 <= i && i + 4 <= s.len() && is_digit_char(s[i]) && is_digit_char(s[i + 1]) && is_digit_char(
        s[i + 2],
    ) && is_digit_char(s[i + 3]) {
        Option::Some(
            (digit_val(s[i]) * 1000 + digit_val(s[i + 1]) * 100 + digit_val(s[i + 2]) * 10
                + digit_val(s[i + 3])) as u16,
        )
    } else {
        Option::None
    }
}

/// An IMF-fixdate at `i` (for example `Wed, 21 Oct 2015 07:28:01 GMT`),
/// and the position after its 29 characters.
pub open spec fn spec_date(s: Seq<char>, i: int) -> Option<(DateHeader, int)> {
    if i < 0 || i + 29 > s.len() {
        Option::None
    } else {
        match (spec_day_name(s, i), spec_2digit(s, i + 5), spec_month(s, i + 8), spec_4digit(s, i + 12), spec_2digit(s, i + 17), spec_2digit(s, i + 20), spec_2digit(s, i + 23)) {
            (Option::Some(dn), Option::Some(day), Option::Some(month), Option::Some(year), Option::Some(hour), Option::Some(minute), Option::Some(second)) => {
                if at_char(s, i + 3, ',') && at_char(s, i + 4, ' ') && at_char(s, i + 7, ' ')
                    && at_char(s, i + 11, ' ') && at_char(s, i + 16, ' ') && at_char(s, i + 19, ':')
                    && at_char(s, i + 22, ':') && at_char(s, i + 25, ' ') && at_char(s, i + 26, 'G')
                    && at_char(s, i + 27, 'M') && at_char(s, i + 28, 'T') {
                    Option::Some(
                        (
                            DateHeader {
                                day_name: dn,
                                day,
                                month,
                                year,
                                hour,
                                minute,
                                second,
                            },
                            i + 29,
                        ),
                    )
                } else {
                    Option::None
                }
            },
            _ => Option::None,
        }
    }
}

fn exec_day_name(s: &str, i: usize) -> (r: Option<DayName>)
    requires
        i <= s@.len(),
    ensures
        r == spec_day_name(s@, i as int),
{
    let len: usize = s.unicode_len();
    if len - i < 3 {
        return None;
    }
    let c0 = s.get_char(i);
    let c1 = s.get_char(i + 1);
    let c2 = s.get_char(i + 2);
    if c0 == 'M' && c1 == 'o' && c2 == 'n' {
        Some(DayName::Mon)
    } else if c0 == 'T' && c1 == 'u' && c2 == 'e' {
        Some(DayName::Tue)
    } else if c0 == 'W' && c1 == 'e' && c2 == 'd' {
        Some(DayName::Wed)
    } else if c0 == 'T' && c1 == 'h' && c2 == 'u' {
        Some(DayName::Thu)
    } else if c0 == 'F' && c1 == 'r' && c2 == 'i' {
        Some(DayName::Fri)
    } else if c0 == 'S' && c1 == 'a' && c2 == 't' {
        Some(DayName::Sat)
    } else if c0 == 'S' && c1 == 'u' && c2 == 'n' {
        Some(DayName::Sun)
    } else {
        None
    }
}

fn exec_month(s: &str, i: usize) -> (r: Option<u8>)
    requires
        i <= s@.len(),
    ensures
        r == spec_month(s@, i as int),
{
    let len: usize = s.unicode_len();
    if len - i < 3 {
        return None;
    }
    let c0 = s.get_char(i);
    let c1 = s.get_char(i + 1);
    let c2 = s.get_char(i + 2);
    if c0 == 'J' && c1 == 'a' && c2 == 'n' {
        Some(1)
    } else if c0 == 'F' && c1 == 'e' && c2 == 'b' {
        Some(2)
    } else if c0 == 'M' && c1 == 'a' && c2 == 'r' {
        Some(3)
    } else if c0 == 'A' && c1 == 'p' && c2 == 'r' {
        Some(4)
    } else if c0 == 'M' && c1 == 'a' && c2 == 'y' {
        Some(5)
    } else if c0 == 'J' && c1 == 'u' && c2 == 'n' {
        Some(6)
    } else if c0 == 'J' && c1 == 'u' && c2 == 'l' {
        Some(7)
    } else if c0 == 'A' && c1 == 'u' && c2 == 'g' {
        Some(8)
    } else if c0 == 'S' && c1 == 'e' && c2 == 'p' {
        Some(9)
    } else if c0 == 'O' && c1 == 'c' && c2 == 't' {
        Some(10)
    } else if c0 == 'N' && c1 == 'o' && c2 == 'v' {
        Some(11)
    } else if c0 == 'D' && c1 == 'e' && c2 == 'c' {
        Some(12)
    } else {
        None
    }
}

fn digit_char_val(c: char) -> (r: Option<u8>)
    ensures
        r is Some <==> is_digit_char(c),
        r matches Some(v) ==> v as nat == digit_val(c),
{
    if '0' <= c && c <= '9' {
        Some((c as u32 as u8) - 48)
    } else {
        None
    }
}

fn exec_2digit(s: &str, i: usize) -> (r: Option<u8>)
    requires
        i <= s@.len(),
    ensures
        r == spec_2digit(s@, i as int),
{
    let len: usize = s.unicode_len();
    if len - i < 2 {
        return None;
    }
    let d0 = match digit_char_val(s.get_char(i)) {
        Some(d) => d,
        None => {
            return None;
        },
    };
    let d1 = match digit_char_val(s.get_char(i + 1)) {
        Some(d) => d,
        None => {
            return None;
        },
    };
    Some(d0 * 10 + d1)
}

fn exec_4digit(s: &str, i: usize) -> (r: Option<u16>)
    requires
        i <= s@.len(),
    ensures
        r == spec_4digit(s@, i as int),
{
    let len: usize = s.unicode_len();
    if len - i < 4 {
        return None;
    }
    let d0 = match digit_char_val(s.get_char(i)) {
        Some(d) => d,
        None => {
            return None;
        },
    };
    let d1 = match digit_char_val(s.get_char(i + 1)) {
        Some(d) => d,
        None => {
            return None;
        },
    };
    let d2 = match digit_char_val(s.get_char(i + 2)) {
        Some(d) => d,
        None => {
            return None;
        },
    };
    let d3 = match digit_char_val(s.get_char(i + 3)) {
        Some(d) => d,
        None => {
            return None;
        },
    };
    Some((d0 as u16) * 1000 + (d1 as u16) * 100 + (d2 as u16) * 10 + (d3 as u16))
}

/// Parses an IMF-fixdate; on success also returns the position after it.
pub fn parse_date(s: &str, from: usize) -> (r: Option<(DateHeader, usize)>)
    requires
        from <= s@.len(),
    ensures
        match r {
            Option::Some((d, j)) => spec_date(s@, from as int) == Option::Some((d, j as int))
                && from <= j <= s@.len(),
            Option::None => spec_date(s@, from as int) is None,
        },
{
    let len: usize = s.unicode_len();
    if len - from < 29 {
        return None;
    }
    let dn = match exec_day_name(s, from) {
        Some(v) => v,
        None => {
            return None;
        },
    };
    let day = match exec_2digit(s, from + 5) {
        Some(v) => v,
        None => {
            return None;
        },
    };
    let month = match exec_month(s, from + 8) {
        Some(v) => v,
        None => {
            return None;
        },
    };
    let year = match exec_4digit(s, from + 12) {
        Some(v) => v,
        None => {
            return None;
        },
    };
    let hour = match exec_2digit(s, from + 17) {
        Some(v) => v,
        None => {
            return None;
        },
    };
    let minute = match exec_2digit(s, from + 20) {
        Some(v) => v,
        None => {
            return None;
        },
    };
    let second = match exec_2digit(s, from + 23) {
        Some(v) => v,
        None => {
            return None;
        },
    };
    if s.get_char(from + 3) == ',' && s.get_char(from + 4) == ' ' && s.get_char(from + 7) == ' '
        && s.get_char(from + 11) == ' ' && s.get_char(from + 16) == ' ' && s.get_char(from + 19)
        == ':' && s.get_char(from + 22) == ':' && s.get_char(from + 25) == ' ' && s.get_char(
        from + 26,
    ) == 'G' && s.get_char(from + 27) == 'M' && s.get_char(from + 28) == 'T' {
        Some(
            (
                DateHeader { day_name: dn, day, month, year, hour, minute, second },
                from + 29,
            ),
        )
    } else {
        None
    }
}

} // verus!
// Signed decimal numbers (for Max-Age) and the attribute scanners.
verus! {

/// First position at or after `i` that does not hold a decimal digit.
pub open spec fn digits_end(s: Seq<char>, i: int) -> int
    recommends
        0 <= i <= s.len(),
    decreases s.len() - i,
{
    if i >= s.len() || !is_digit_char(s[i]) {
        i
    } else {
        digits_end(s, i + 1)
    }
}

pub proof fn lemma_digits_end_range(s: Seq<char>, i: int)
    requires
        0 <= i <= s.len(),
    ensures
        i <= digits_end(s, i) <= s.len(),
        forall|k: int| i <= k < digits_end(s, i) ==> is_digit_char(#[trigger] s[k]),
        digits_end(s, i) < s.len() ==> !is_digit_char(s[digits_end(s, i)]),
    decreases s.len() - i,
{
    if i < s.len() && is_digit_char(s[i]) {
        lemma_digits_end_range(s, i + 1);
    }
}

fn digit_at(s: &str, i: usize) -> (r: bool)
    requires
        i < s@.len(),
    ensures
        r == is_digit_char(s@[i as int]),
{
    let c = s.get_char(i);
    '0' <= c && c <= '9'
}

fn exec_digits_end(s: &str, from: usize) -> (e: usize)
    requires
        from <= s@.len(),
    ensures
        e == digits_end(s@, from as int),
        from <= e <= s@.len(),
{
    let len: usize = s.unicode_len();
    let mut e: usize = from;
    while e < len && digit_at(s, e)
        invariant
            from <= e <= len,
            len == s@.len(),
            digits_end(s@, from as int) == digits_end(s@, e as int),
        decreases len - e,
    {
        e = e + 1;
    }
    e
}

/// Appending one digit multiplies the value by ten and adds it.
pub proof fn lemma_dec_value_step(s: Seq<char>, j: int, k: int)
    requires
        0 <= j <= k < s.len(),
    ensures
        dec_value(s.subrange(j, k + 1)) == dec_value(s.subrange(j, k)) * 10 + digit_val(s[k]),
{
    let t = s.subrange(j, k + 1);
    assert(t.drop_last() =~= s.subrange(j, k));
    assert(t.last() == s[k]);
}

/// A longer digit run never has a smaller value.
pub proof fn lemma_dec_value_extend(s: Seq<char>, j: int, k: int, e: int)
    requires
        0 <= j <= k <= e <= s.len(),
    ensures
        dec_value(s.subrange(j, e)) >= dec_value(s.subrange(j, k)),
    decreases e - k,
{
    if k < e {
        lemma_dec_value_step(s, j, k);
        assert(dec_value(s.subrange(j, k + 1)) >= dec_value(s.subrange(j, k)));
        lemma_dec_value_extend(s, j, k + 1, e);
    }
}

/// A signed decimal number at `i`: an optional sign, one or more digits,
/// value in range for `i64`; and the position after the digits.
pub open spec fn spec_i64(s: Seq<char>, i: int) -> Option<(i64, int)>
    recommends
        0 <= i <= s.len(),
{
    let neg = i < s.len() && s[i] == '-';
    let signed = neg || (i < s.len() && s[i] == '+');
    let j = if signed {
        i + 1
    } else {
        i
    };
    let e = digits_end(s, j);
    if e == j {
        Option::None
    } else {
        let v = dec_value(s.subrange(j, e));
        if neg {
            if v <= 0x8000000000000000 {
                Option::Some(((-(v as int)) as i64, e))
            } else {
                Option::None
            }
        } else {
            if v < 0x8000000000000000 {
                Option::Some((v as i64, e))
            } else {
                Option::None
            }
        }
    }
}

/// Parses a signed decimal number, as the Max-Age attribute uses it.
pub fn parse_i64_at(s: &str, from: usize) -> (r: Option<(i64, usize)>)
    requires
        from <= s@.len(),
    ensures
        match r {
            Option::Some((v, j)) => spec_i64(s@, from as int) == Option::Some((v, j as int))
                && from <= j <= s@.len(),
            Option::None => spec_i64(s@, from as int) is None,
        },
{
    let len: usize = s.unicode_len();
    let mut neg: bool = false;
    let mut j: usize = from;
    if from < len {
        let c = s.get_char(from);
        if c == '-' {
            neg = true;
            j = from + 1;
        } else if c == '+' {
            j = from + 1;
        }
    }
    let e = exec_digits_end(s, j);
    proof {
        lemma_digits_end_range(s@, j as int);
    }
    if e == j {
        return None;
    }
    let limit: u64 = 0x8000000000000000;
    let mut acc: u64 = 0;
    let mut k: usize = j;
    while k < e
        invariant
            from <= j <= k <= e <= s@.len(),
            e == digits_end(s@, j as int),
            neg == (from < s@.len() && s@[from as int] == '-'),
            j as int == if from < s@.len() && (s@[from as int] == '-' || s@[from as int] == '+') {
                from as int + 1
            } else {
                from as int
            },
            forall|m: int| j <= m < e ==> is_digit_char(#[trigger] s@[m]),
            acc as nat == dec_value(s@.subrange(j as int, k as int)),
            acc <= 0x8000000000000000,
        decreases e - k,
    {
        let c = s.get_char(k);
        let d = match digit_char_val(c) {
            Some(d) => d,
            None => {
                proof {
                    assert(is_digit_char(s@[k as int]));
                }
                return None;
            },
        };
        proof {
            lemma_dec_value_step(s@, j as int, k as int);
            assert(digit_val(s@[k as int]) < 10);
            assert(d < 10);
        }
        if acc > (0x8000000000000000u64 - (d as u64)) / 10 {
            proof {
                assert((acc as nat) * 10 + (d as nat) > 0x8000000000000000) by (nonlinear_arith)
                    requires
                        acc as nat > (0x8000000000000000 - d as nat) / 10,
                        d < 10,
                ;
                lemma_dec_value_extend(s@, j as int, k as int + 1, e as int);
            }
            return None;
        }
        proof {
            assert((acc as nat) * 10 + (d as nat) <= 0x8000000000000000) by (nonlinear_arith)
                requires
                    acc as nat <= (0x8000000000000000 - d as nat) / 10,
                    d < 10,
            ;
        }
        acc = acc * 10 + (d as u64);
        k = k + 1;
    }
    proof {
        assert(s@.subrange(j as int, e as int) == s@.subrange(j as int, k as int));
    }
    if neg {
        if acc == limit {
            Some((i64::MIN, e))
        } else {
            Some((-(acc as i64), e))
        }
    } else {
        if acc == limit {
            None
        } else {
            Some((acc as i64, e))
        }
    }
}

} // verus!
// The attribute grammar of a Set-Cookie value, and the parser over it.
verus! {

pub open spec fn starts_at(s: Seq<char>, i: int, p: Seq<char>) -> bool {
    0 <= i && i + p.len() <= s.len() && s.subrange(i, i + p.len()) == p
}

pub fn starts_with_at(s: &str, i: usize, pat: &str) -> (r: bool)
    requires
        i <= s@.len(),
    ensures
        r == starts_at(s@, i as int, pat@),
{
    let plen: usize = pat.unicode_len();
    let len: usize = s.unicode_len();
    if len - i < plen {
        return false;
    }
    let mut j: usize = 0;
    while j < plen
        invariant
            j <= plen,
            plen == pat@.len(),
            len == s@.len(),
            i + plen <= len,
            forall|m: int| 0 <= m < j ==> s@[i + m] == pat@[m],
        decreases plen - j,
    {
        if s.get_char(i + j) != pat.get_char(j) {
            proof {
                assert(s@.subrange(i as int, i as int + pat@.len())[j as int] != pat@[j as int]);
            }
            return false;
        }
        j = j + 1;
    }
    proof {
        assert(s@.subrange(i as int, i as int + pat@.len()) =~= pat@);
    }
    true
}

/// The Domain attribute's value alphabet: ASCII alphanumerics and dots.
pub open spec fn is_domain_char(c: char) -> bool {
    ('A' <= c <= 'Z') || ('a' <= c <= 'z') || ('0' <= c <= '9') || c == '.'
}

/// The Path attribute's value alphabet: ASCII alphanumerics and slashes.
pub open spec fn is_path_char(c: char) -> bool {
    ('A' <= c <= 'Z') || ('a' <= c <= 'z') || ('0' <= c <= '9') || c == '/'
}

pub open spec fn domain_end(s: Seq<char>, i: int) -> int
    recommends
        0 <= i <= s.len(),
    decreases s.len() - i,
{
    if i >= s.len() || !is_domain_char(s[i]) {
        i
    } else {
        domain_end(s, i + 1)
    }
}

pub open spec fn path_end(s: Seq<char>, i: int) -> int
    recommends
        0 <= i <= s.len(),
    decreases s.len() - i,
{
    if i >= s.len() || !is_path_char(s[i]) {
        i
    } else {
        path_end(s, i + 1)
    }
}

pub proof fn lemma_domain_end_range(s: Seq<char>, i: int)
    requires
        0 <= i <= s.len(),
    ensures
        i <= domain_end(s, i) <= s.len(),
        forall|k: int| i <= k < domain_end(s, i) ==> is_domain_char(#[trigger] s[k]),
        domain_end(s, i) < s.len() ==> !is_domain_char(s[domain_end(s, i)]),
    decreases s.len() - i,
{
    if i < s.len() && is_domain_char(s[i]) {
        lemma_domain_end_range(s, i + 1);
    }
}

pub proof fn lemma_path_end_range(s: Seq<char>, i: int)
    requires
        0 <= i <= s.len(),
    ensures
        i <= path_end(s, i) <= s.len(),
        forall|k: int| i <= k < path_end(s, i) ==> is_path_char(#[trigger] s[k]),
        path_end(s, i) < s.len() ==> !is_path_char(s[path_end(s, i)]),
    decreases s.len() - i,
{
    if i < s.len() && is_path_char(s[i]) {
        lemma_path_end_range(s, i + 1);
    }
}

fn domain_char_at(s: &str, i: usize) -> (r: bool)
    requires
        i < s@.len(),
    ensures
        r == is_domain_char(s@[i as int]),
{
    let c = s.get_char(i);
    ('A' <= c && c <= 'Z') || ('a' <= c && c <= 'z') || ('0' <= c && c <= '9') || c == '.'
}

fn path_char_at(s: &str, i: usize) -> (r: bool)
    requires
        i < s@.len(),
    ensures
        r == is_path_char(s@[i as int]),
{
    let c = s.get_char(i);
    ('A' <= c && c <= 'Z') || ('a' <= c && c <= 'z') || ('0' <= c && c <= '9') || c == '/'
}

fn exec_domain_end(s: &str, from: usize) -> (e: usize)
    requires
        from <= s@.len(),
    ensures
        e == domain_end(s@, from as int),
        from <= e <= s@.len(),
{
    let len: usize = s.unicode_len();
    let mut e: usize = from;
    while e < len && domain_char_at(s, e)
        invariant
            from <= e <= len,
            len == s@.len(),
            domain_end(s@, from as int) == domain_end(s@, e as int),
        decreases len - e,
    {
        e = e + 1;
    }
    e
}

fn exec_path_end(s: &str, from: usize) -> (e: usize)
    requires
        from <= s@.len(),
    ensures
        e == path_end(s@, from as int),
        from <= e <= s@.len(),
{
    let len: usize = s.unicode_len();
    let mut e: usize = from;
    while e < len && path_char_at(s, e)
        invariant
            from <= e <= len,
            len == s@.len(),
            path_end(s@, from as int) == path_end(s@, e as int),
        decreases len - e,
    {
        e = e + 1;
    }
    e
}

/// The attribute list of a Set-Cookie value from position `i` on, folded
/// into the cookie record.  Attributes are separated by `; ` and tried in
/// the grammar's order; an unrecognized attribute fails the parse, while
/// text that does not start with `; ` ends it.
pub open spec fn spec_attrs(s: Seq<char>, i: int, c: SpecCookie) -> Option<SpecCookie>
    recommends
        0 <= i <= s.len(),
    decreases s.len() - i,
    when 0 <= i <= s.len()
{
    if !(i + 2 <= s.len() && s[i] == ';' && s[i + 1] == ' ') {
        Option::Some(c)
    } else {
        let a = i + 2;
        if starts_at(s, a, "Expires="@) {
            match spec_date(s, a + 8) {
                Option::Some((d, j)) => if i < j <= s.len() {
                    spec_attrs(s, j, SpecCookie { expires: Option::Some(d), ..c })
                } else {
                    Option::None
                },
                Option::None => Option::None,
            }
        } else if starts_at(s, a, "Max-Age="@) {
            match spec_i64(s, a + 8) {
                Option::Some((m, j)) => if i < j <= s.len() {
                    spec_attrs(s, j, SpecCookie { max_age: Option::Some(m), ..c })
                } else {
                    Option::None
                },
                Option::None => Option::None,
            }
        } else if starts_at(s, a, "Domain="@) {
            let e = domain_end(s, a + 7);
            if e > a + 7 && e <= s.len() {
                spec_attrs(
                    s,
                    e,
                    SpecCookie { domain: Option::Some(s.subrange(a + 7, e)), ..c },
                )
            } else {
                Option::None
            }
        } else if starts_at(s, a, "Path="@) {
            let e = path_end(s, a + 5);
            if e > a + 5 && e <= s.len() {
                spec_attrs(s, e, SpecCookie { path: Option::Some(s.subrange(a + 5, e)), ..c })
            } else {
                Option::None
            }
        } else if starts_at(s, a, "Secure"@) {
            if a + 6 <= s.len() {
                spec_attrs(s, a + 6, SpecCookie { secure: true, ..c })
            } else {
                Option::None
            }
        } else if starts_at(s, a, "HttpOnly"@) {
            if a + 8 <= s.len() {
                spec_attrs(s, a + 8, SpecCookie { http_only: true, ..c })
            } else {
                Option::None
            }
        } else if starts_at(s, a, "SameSite="@) {
            if starts_at(s, a + 9, "Strict"@) {
                if a + 15 <= s.len() {
                    spec_attrs(
                        s,
                        a + 15,
                        SpecCookie { same_site: Option::Some(SameSite::Strict), ..c },
                    )
                } else {
                    Option::None
                }
            } else if starts_at(s, a + 9, "Lax"@) {
                if a + 12 <= s.len() {
                    spec_attrs(s, a + 12, SpecCookie { same_site: Option::Some(SameSite::Lax), ..c })
                } else {
                    Option::None
                }
            } else if starts_at(s, a + 9, "None"@) {
                if a + 13 <= s.len() {
                    spec_attrs(
                        s,
                        a + 13,
                        SpecCookie { same_site: Option::Some(SameSite::NoneValue), ..c },
                    )
                } else {
                    Option::None
                }
            } else {
                Option::None
            }
        } else {
            Option::None
        }
    }
}

/// What `parse_set_cookie` must return: the `name=value` pair and the
/// folded attributes.
pub open spec fn spec_parse_set_cookie(s: Seq<char>) -> Option<SpecCookie> {
    match spec_pair(s, 0) {
        Option::None => Option::None,
        Option::Some((n, v, j)) => spec_attrs(
            s,
            j,
            SpecCookie {
                name: n,
                value: v,
                expires: Option::None,
                max_age: Option::None,
                domain: Option::None,
                path: Option::None,
                secure: false,
                http_only: false,
                same_site: Option::None,
            },
        ),
    }
}

/// Parses one `Set-Cookie:` header value into a typed cookie record.
pub fn parse_set_cookie(input: &str) -> (r: Option<Cookie>)
    ensures
        match r {
            Option::Some(c) => spec_parse_set_cookie(input@) == Option::Some(c@),
            Option::None => spec_parse_set_cookie(input@) is None,
        },
{
    let len: usize = input.unicode_len();
    let ne = cookie_ascii(input, 0);
    proof {
        lemma_token_end_range(input@, 0);
    }
    if ne == 0 || ne >= len || input.get_char(ne) != '=' {
        return None;
    }
    let ve = cookie_ascii(input, ne + 1);
    proof {
        lemma_token_end_range(input@, ne as int + 1);
    }
    if ve == ne + 1 {
        return None;
    }
    let mut cookie = Cookie {
        name: input.substring_char(0, ne).to_owned(),
        value: input.substring_char(ne + 1, ve).to_owned(),
        expires: None,
        max_age: None,
        domain: None,
        path: None,
        secure: false,
        http_only: false,
        same_site: None,
    };
    let mut i: usize = ve;
    while i < len && len - i >= 2 && input.get_char(i) == ';' && input.get_char(i + 1) == ' '
        invariant
            i <= len,
            len == input@.len(),
            spec_parse_set_cookie(input@) == spec_attrs(input@, i as int, cookie@),
        decreases len - i,
    {
        let ghost i0 = i as int;
        let ghost c0 = cookie@;
        let a = i + 2;
        if starts_with_at(input, a, "Expires=") {
            proof {
                reveal_strlit("Expires=");
            }
            let (d, j) = match parse_date(input, a + 8) {
                Some(v) => v,
                None => {
                    return None;
                },
            };
            cookie.expires = Some(d);
            i = j;
        } else if starts_with_at(input, a, "Max-Age=") {
            proof {
                reveal_strlit("Max-Age=");
            }
            let (m, j) = match parse_i64_at(input, a + 8) {
                Some(v) => v,
                None => {
                    return None;
                },
            };
            cookie.max_age = Some(m);
            i = j;
        } else if starts_with_at(input, a, "Domain=") {
            proof {
                reveal_strlit("Domain=");
            }
            let e = exec_domain_end(input, a + 7);
            if e == a + 7 {
                return None;
            }
            cookie.domain = Some(input.substring_char(a + 7, e).to_owned());
            i = e;
        } else if starts_with_at(input, a, "Path=") {
            proof {
                reveal_strlit("Path=");
            }
            let e = exec_path_end(input, a + 5);
            if e == a + 5 {
                return None;
            }
            cookie.path = Some(input.substring_char(a + 5, e).to_owned());
            i = e;
        } else if starts_with_at(input, a, "Secure") {
            proof {
                reveal_strlit("Secure");
            }
            cookie.secure = true;
            i = a + 6;
        } else if starts_with_at(input, a, "HttpOnly") {
            proof {
                reveal_strlit("HttpOnly");
            }
            cookie.http_only = true;
            i = a + 8;
        } else if starts_with_at(input, a, "SameSite=") {
            proof {
                reveal_strlit("SameSite=");
                reveal_strlit("Strict");
                reveal_strlit("Lax");
                reveal_strlit("None");
            }
            if starts_with_at(input, a + 9, "Strict") {
                cookie.same_site = Some(SameSite::Strict);
                i = a + 15;
            } else if starts_with_at(input, a + 9, "Lax") {
                cookie.same_site = Some(SameSite::Lax);
                i = a + 12;
            } else if starts_with_at(input, a + 9, "None") {
                cookie.same_site = Some(SameSite::NoneValue);
                i = a + 13;
            } else {
                return None;
            }
        } else {
            return None;
        }
        proof {
            assert(spec_attrs(input@, i0, c0) == spec_attrs(input@, i as int, cookie@));
        }
    }
    Some(cookie)
}

} // verus!
// Rendering a cookie record back into a Set-Cookie value.
verus! {

pub open spec fn two_digit_chars(n: nat) -> Seq<char> {
    seq![
        crate::digits::digit_byte(n / 10 % 10) as char,
        crate::digits::digit_byte(n % 10) as char,
    ]
}

pub open spec fn four_digit_chars(n: nat) -> Seq<char> {
    seq![
        crate::digits::digit_byte(n / 1000 % 10) as char,
        crate::digits::digit_byte(n / 100 % 10) as char,
        crate::digits::digit_byte(n / 10 % 10) as char,
        crate::digits::digit_byte(n % 10) as char,
    ]
}

pub open spec fn day_name_chars(d: DayName) -> Seq<char> {
    match d {
        DayName::Mon => "Mon"@,
        DayName::Tue => "Tue"@,
        DayName::Wed => "Wed"@,
        DayName::Thu => "Thu"@,
        DayName::Fri => "Fri"@,
        DayName::Sat => "Sat"@,
        DayName::Sun => "Sun"@,
    }
}

pub open spec fn month_chars(m: nat) -> Seq<char> {
    if m == 1 {
        "Jan"@
    } else if m == 2 {
        "Feb"@
    } else if m == 3 {
        "Mar"@
    } else if m == 4 {
        "Apr"@
    } else if m == 5 {
        "May"@
    } else if m == 6 {
        "Jun"@
    } else if m == 7 {
        "Jul"@
    } else if m == 8 {
        "Aug"@
    } else if m == 9 {
        "Sep"@
    } else if m == 10 {
        "Oct"@
    } else if m == 11 {
        "Nov"@
    } else if m == 12 {
        "Dec"@
    } else {
        Seq::empty()
    }
}

/// The IMF-fixdate text of a date record.
pub open spec fn date_chars(d: DateHeader) -> Seq<char> {
    day_name_chars(d.day_name) + ", "@ + two_digit_chars(d.day as nat) + " "@ + month_chars(
        d.month as nat,
    ) + " "@ + four_digit_chars(d.year as nat) + " "@ + two_digit_chars(d.hour as nat) + ":"@
        + two_digit_chars(d.minute as nat) + ":"@ + two_digit_chars(d.second as nat) + " GMT"@
}

pub open spec fn same_site_chars(s: SameSite) -> Seq<char> {
    match s {
        SameSite::Strict => "Strict"@,
        SameSite::Lax => "Lax"@,
        SameSite::NoneValue => "None"@,
    }
}

/// The Set-Cookie text of a cookie record, attributes in a fixed order.
#[verifier::opaque]
pub open spec fn spec_render(c: SpecCookie) -> Seq<char> {
    c.name + "="@ + c.value + (match c.expires {
        Option::Some(d) => "; Expires="@ + date_chars(d),
        Option::None => Seq::empty(),
    }) + (match c.max_age {
        Option::Some(m) => "; Max-Age="@ + crate::digits::dec_chars_i64(m as int),
        Option::None => Seq::empty(),
    }) + (match c.domain {
        Option::Some(d) => "; Domain="@ + d,
        Option::None => Seq::empty(),
    }) + (match c.path {
        Option::Some(p) => "; Path="@ + p,
        Option::None => Seq::empty(),
    }) + (if c.secure {
        "; Secure"@
    } else {
        Seq::empty()
    }) + (if c.http_only {
        "; HttpOnly"@
    } else {
        Seq::empty()
    }) + (match c.same_site {
        Option::Some(s) => "; SameSite="@ + same_site_chars(s),
        Option::None => Seq::empty(),
    })
}

fn fmt_2digit(n: u8) -> (s: String)
    ensures
        s@ == two_digit_chars(n as nat),
{
    let mut v: Vec<u8> = Vec::new();
    v.push(48 + (n / 10 % 10));
    v.push(48 + (n % 10));
    proof {
        assert(crate::strutil::ascii_chars_of(v@) =~= two_digit_chars(n as nat));
    }
    crate::strutil::ascii_string(v)
}

fn fmt_4digit(n: u16) -> (s: String)
    ensures
        s@ == four_digit_chars(n as nat),
{
    let mut v: Vec<u8> = Vec::new();
    v.push(48 + (n / 1000 % 10) as u8);
    v.push(48 + (n / 100 % 10) as u8);
    v.push(48 + (n / 10 % 10) as u8);
    v.push(48 + (n % 10) as u8);
    proof {
        assert(crate::strutil::ascii_chars_of(v@) =~= four_digit_chars(n as nat));
    }
    crate::strutil::ascii_string(v)
}

fn render_date(d: &DateHeader) -> (s: String)
    ensures
        s@ == date_chars(*d),
{
    let mut s = String::new();
    match d.day_name {
        DayName::Mon => s.append("Mon"),
        DayName::Tue => s.append("Tue"),
        DayName::Wed => s.append("Wed"),
        DayName::Thu => s.append("Thu"),
        DayName::Fri => s.append("Fri"),
        DayName::Sat => s.append("Sat"),
        DayName::Sun => s.append("Sun"),
    }
    s.append(", ");
    s.append(fmt_2digit(d.day).as_str());
    s.append(" ");
    match d.month {
        1u8 => s.append("Jan"),
        2u8 => s.append("Feb"),
        3u8 => s.append("Mar"),
        4u8 => s.append("Apr"),
        5u8 => s.append("May"),
        6u8 => s.append("Jun"),
        7u8 => s.append("Jul"),
        8u8 => s.append("Aug"),
        9u8 => s.append("Sep"),
        10u8 => s.append("Oct"),
        11u8 => s.append("Nov"),
        12u8 => s.append("Dec"),
        _ => (),
    }
    s.append(" ");
    s.append(fmt_4digit(d.year).as_str());
    s.append(" ");
    s.append(fmt_2digit(d.hour).as_str());
    s.append(":");
    s.append(fmt_2digit(d.minute).as_str());
    s.append(":");
    s.append(fmt_2digit(d.second).as_str());
    s.append(" GMT");
    proof {
        assert(s@ =~= date_chars(*d));
    }
    s
}

/// Renders a cookie record as one `Set-Cookie:` header value.
#[verifier::rlimit(100)]
#[verifier::spinoff_prover]
pub fn render_set_cookie(c: &Cookie) -> (s: String)
    ensures
        s@ == spec_render(c@),
{
    let mut s = String::new();
    s.append(c.name.as_str());
    s.append("=");
    s.append(c.value.as_str());
    match &c.expires {
        Some(d) => {
            let mut seg = String::new();
            seg.append("; Expires=");
            seg.append(render_date(d).as_str());
            s.append(seg.as_str());
        },
        None => (),
    }
    match &c.max_age {
        Some(m) => {
            let mut seg = String::new();
            seg.append("; Max-Age=");
            seg.append(crate::digits::fmt_i64(*m).as_str());
            s.append(seg.as_str());
        },
        None => (),
    }
    match &c.domain {
        Some(d) => {
            let mut seg = String::new();
            seg.append("; Domain=");
            seg.append(d.as_str());
            s.append(seg.as_str());
        },
        None => (),
    }
    match &c.path {
        Some(p) => {
            let mut seg = String::new();
            seg.append("; Path=");
            seg.append(p.as_str());
            s.append(seg.as_str());
        },
        None => (),
    }
    if c.secure {
        s.append("; Secure");
    }
    if c.http_only {
        s.append("; HttpOnly");
    }
    match &c.same_site {
        Some(ss) => {
            let mut seg = String::new();
            seg.append("; SameSite=");
            match ss {
                SameSite::Strict => seg.append("Strict"),
                SameSite::Lax => seg.append("Lax"),
                SameSite::NoneValue => seg.append("None"),
            }
            s.append(seg.as_str());
        },
        None => (),
    }
    proof {
        lemma_render_unfold(c@);
        assert(s@ =~= spec_render(c@));
    }
    s
}

/// `spec_render`, unfolded once.
#[verifier::rlimit(100)]
#[verifier::spinoff_prover]
pub proof fn lemma_render_unfold(c: SpecCookie)
    ensures
        spec_render(c) == c.name + "="@ + c.value + (match c.expires {
            Option::Some(d) => "; Expires="@ + date_chars(d),
            Option::None => Seq::<char>::empty(),
        }) + (match c.max_age {
            Option::Some(m) => "; Max-Age="@ + crate::digits::dec_chars_i64(m as int),
            Option::None => Seq::<char>::empty(),
        }) + (match c.domain {
            Option::Some(d) => "; Domain="@ + d,
            Option::None => Seq::<char>::empty(),
        }) + (match c.path {
            Option::Some(p) => "; Path="@ + p,
            Option::None => Seq::<char>::empty(),
        }) + (if c.secure {
            "; Secure"@
        } else {
            Seq::<char>::empty()
        }) + (if c.http_only {
            "; HttpOnly"@
        } else {
            Seq::<char>::empty()
        }) + (match c.same_site {
            Option::Some(ss) => "; SameSite="@ + same_site_chars(ss),
            Option::None => Seq::<char>::empty(),
        }),
{
    reveal(spec_render);
}

/// A cookie whose components the Set-Cookie grammar can carry exactly.
pub open spec fn cookie_in_range(c: SpecCookie) -> bool {
    &&& c.name.len() > 0
    &&& forall|i: int| 0 <= i < c.name.len() ==> is_cookie_char(#[trigger] c.name[i])
    &&& c.value.len() > 0
    &&& forall|i: int| 0 <= i < c.value.len() ==> is_cookie_char(#[trigger] c.value[i])
    &&& match c.domain {
        Option::Some(d) => d.len() > 0 && forall|i: int|
            0 <= i < d.len() ==> is_domain_char(#[trigger] d[i]),
        Option::None => true,
    }
    &&& match c.path {
        Option::Some(p) => p.len() > 0 && forall|i: int|
            0 <= i < p.len() ==> is_path_char(#[trigger] p[i]),
        Option::None => true,
    }
    &&& match c.expires {
        Option::Some(d) => d.day < 100 && 1 <= d.month <= 12 && d.year < 10000 && d.hour < 100
            && d.minute < 100 && d.second < 100,
        Option::None => true,
    }
}

} // verus!
// The render/parse round trip for in-range cookies.
verus! {

/// A run of token characters bounded by a non-token character parses back
/// to exactly its own extent.
proof fn lemma_token_end_is(s: Seq<char>, i: int, j: int)
    requires
        0 <= i <= j <= s.len(),
        forall|k: int| i <= k < j ==> is_cookie_char(#[trigger] s[k]),
        j < s.len() ==> !is_cookie_char(s[j]),
    ensures
        token_end(s, i) == j,
    decreases j - i,
{
    if i < j {
        lemma_token_end_is(s, i + 1, j);
    }
}

proof fn lemma_domain_end_is(s: Seq<char>, i: int, j: int)
    requires
        0 <= i <= j <= s.len(),
        forall|k: int| i <= k < j ==> is_domain_char(#[trigger] s[k]),
        j < s.len() ==> !is_domain_char(s[j]),
    ensures
        domain_end(s, i) == j,
    decreases j - i,
{
    if i < j {
        lemma_domain_end_is(s, i + 1, j);
    }
}

proof fn lemma_path_end_is(s: Seq<char>, i: int, j: int)
    requires
        0 <= i <= j <= s.len(),
        forall|k: int| i <= k < j ==> is_path_char(#[trigger] s[k]),
        j < s.len() ==> !is_path_char(s[j]),
    ensures
        path_end(s, i) == j,
    decreases j - i,
{
    if i < j {
        lemma_path_end_is(s, i + 1, j);
    }
}

proof fn lemma_digits_end_is(s: Seq<char>, i: int, j: int)
    requires
        0 <= i <= j <= s.len(),
        forall|k: int| i <= k < j ==> is_digit_char(#[trigger] s[k]),
        j < s.len() ==> !is_digit_char(s[j]),
    ensures
        digits_end(s, i) == j,
    decreases j - i,
{
    if i < j {
        lemma_digits_end_is(s, i + 1, j);
    }
}

/// A prefix test fails where one character differs.
proof fn lemma_not_starts(s: Seq<char>, i: int, p: Seq<char>, k: int)
    requires
        0 <= k < p.len(),
        0 <= i,
        i + k < s.len(),
        s[i + k] != p[k],
    ensures
        !starts_at(s, i, p),
{
    if i + p.len() <= s.len() {
        assert(s.subrange(i, i + p.len())[k] == s[i + k]);
    }
}

/// A rendered signed decimal number, bounded by a non-digit, parses back to
/// the same value.
proof fn lemma_i64_round(s: Seq<char>, i: int, m: i64)
    requires
        0 <= i,
        i + crate::digits::dec_chars_i64(m as int).len() <= s.len(),
        s.subrange(i, i + crate::digits::dec_chars_i64(m as int).len()) == crate::digits::dec_chars_i64(m as int),
        ({
            let j = i + crate::digits::dec_chars_i64(m as int).len();
            j < s.len() ==> !is_digit_char(s[j])
        }),
        i + crate::digits::dec_chars_i64(m as int).len() == s.len() || s[i
            + crate::digits::dec_chars_i64(m as int).len()] == ';',
    ensures
        spec_i64(s, i) == Option::<(i64, int)>::Some(
            (m, i + crate::digits::dec_chars_i64(m as int).len()),
        ),
{
    let text = crate::digits::dec_chars_i64(m as int);
    let e = i + text.len();
    if m >= 0 {
        crate::digits::lemma_dec_chars_value(m as nat);
        assert(text == crate::digits::dec_chars(m as nat));
        assert(forall|k: int| 0 <= k < text.len() ==> is_digit_char(#[trigger] text[k]));
        assert(s[i] == text[0]);
        assert(is_digit_char(s[i]));
        assert(s[i] != '-' && s[i] != '+') by {
            assert(is_digit_char(s[i]));
        }
        assert(forall|k: int| i <= k < e ==> #[trigger] s[k] == text[k - i]);
        assert(forall|k: int| i <= k < e ==> is_digit_char(#[trigger] s[k]));
        lemma_digits_end_is(s, i, e);
        assert(s.subrange(i, e) =~= text);
        assert(dec_value(s.subrange(i, e)) == m as nat);
        assert((m as nat) < 0x8000000000000000);
    } else {
        let mag = (-(m as int)) as nat;
        crate::digits::lemma_dec_chars_value(mag);
        assert(text == seq!['-'] + crate::digits::dec_chars(mag));
        assert(s[i] == text[0]);
        assert(text[0] == '-');
        let digits = crate::digits::dec_chars(mag);
        assert(forall|k: int| 0 <= k < digits.len() ==> is_digit_char(#[trigger] digits[k]));
        assert(forall|k: int| i + 1 <= k < e ==> #[trigger] s[k] == text[k - i]);
        assert(forall|k: int| i + 1 <= k < e ==> is_digit_char(#[trigger] s[k]));
        lemma_digits_end_is(s, i + 1, e);
        assert(s.subrange(i + 1, e) =~= digits);
        assert(dec_value(s.subrange(i + 1, e)) == mag);
        assert(mag <= 0x8000000000000000);
        assert(spec_i64(s, i) == Option::<(i64, int)>::Some((((-(mag as int)) as i64), e)));
        assert((-(mag as int)) as i64 == m);
    }
}

} // verus!
// The round trip itself.
verus! {

/// A slice equal to a concatenation splits into slices equal to its parts.
proof fn lemma_concat_split(u: Seq<char>, v: Seq<char>, s: Seq<char>, off: int)
    requires
        0 <= off,
        off + u.len() + v.len() <= s.len(),
        s.subrange(off, off + u.len() + v.len()) == u + v,
    ensures
        s.subrange(off, off + u.len() as int) == u,
        s.subrange(off + u.len(), off + u.len() + v.len()) == v,
{
    let w = s.subrange(off, off + u.len() + v.len());
    assert forall|k: int| 0 <= k < u.len() implies #[trigger] s.subrange(
        off,
        off + u.len() as int,
    )[k] == u[k] by {
        assert(w[k] == s[off + k]);
        assert(s.subrange(off, off + u.len() as int)[k] == s[off + k]);
    }
    assert(s.subrange(off, off + u.len() as int) =~= u);
    assert forall|k: int| 0 <= k < v.len() implies #[trigger] s.subrange(
        off + u.len(),
        off + u.len() + v.len(),
    )[k] == v[k] by {
        assert(w[u.len() + k] == s[off + u.len() + k]);
        assert(s.subrange(off + u.len(), off + u.len() + v.len())[k] == s[off + u.len() + k]);
    }
    assert(s.subrange(off + u.len(), off + u.len() + v.len()) =~= v);
}

/// A slice of an embedded segment is the segment's own slice.
proof fn lemma_sub_sub(s: Seq<char>, i: int, seg: Seq<char>, lo: int, hi: int)
    requires
        0 <= i,
        i + seg.len() <= s.len(),
        s.subrange(i, i + seg.len() as int) == seg,
        0 <= lo <= hi <= seg.len(),
    ensures
        s.subrange(i + lo, i + hi) == seg.subrange(lo, hi),
{
    assert forall|k: int| 0 <= k < hi - lo implies #[trigger] s.subrange(i + lo, i + hi)[k]
        == seg.subrange(lo, hi)[k] by {
        assert(s.subrange(i, i + seg.len() as int)[lo + k] == s[i + lo + k]);
        assert(s.subrange(i + lo, i + hi)[k] == s[i + lo + k]);
    }
    assert(s.subrange(i + lo, i + hi) =~= seg.subrange(lo, hi));
}

/// One rendered `Max-Age` attribute at `i` folds into the record and moves
/// the parse to the position after it.
proof fn lemma_attr_max(s: Seq<char>, i: int, cx: SpecCookie, m: i64)
    requires
        0 <= i,
        i + 10 + crate::digits::dec_chars_i64(m as int).len() <= s.len(),
        s.subrange(i, i + 10 + crate::digits::dec_chars_i64(m as int).len()) == "; Max-Age="@
            + crate::digits::dec_chars_i64(m as int),
        ({
            let j = i + 10 + crate::digits::dec_chars_i64(m as int).len();
            j == s.len() || s[j] == ';'
        }),
    ensures
        spec_attrs(s, i, cx) == spec_attrs(
            s,
            i + 10 + crate::digits::dec_chars_i64(m as int).len(),
            (SpecCookie { max_age: Option::Some(m), ..cx }),
        ),
{
    reveal_strlit("; Max-Age=");
    reveal_strlit("Expires=");
    reveal_strlit("Max-Age=");
    let digits = crate::digits::dec_chars_i64(m as int);
    let seg = "; Max-Age="@ + digits;
    let j = i + 10 + digits.len();
    assert(s.subrange(i, i + seg.len() as int) == seg);
    assert forall|k: int| 0 <= k < seg.len() implies #[trigger] s[i + k] == seg[k] by {
        assert(s.subrange(i, i + seg.len() as int)[k] == s[i + k]);
    }
    let a = i + 2;
    assert(s[i + 0] == seg[0] && s[i + 1] == seg[1] && s[i + 2] == seg[2]);
    assert(s[i] == ';' && s[i + 1] == ' ');
    assert(s[a] == 'M');
    lemma_not_starts(s, a, "Expires="@, 0);
    lemma_sub_sub(s, i, seg, 2, 10);
    assert(seg.subrange(2, 10) =~= "Max-Age="@);
    assert(starts_at(s, a, "Max-Age="@));
    lemma_sub_sub(s, i, seg, 10, seg.len() as int);
    assert(seg.subrange(10, seg.len() as int) =~= digits);
    assert(s.subrange(a + 8, j) == digits);
    assert(j == s.len() || !is_digit_char(s[j]));
    lemma_i64_round(s, a + 8, m);
    assert(spec_i64(s, a + 8) == Option::<(i64, int)>::Some((m, j)));
}

/// One rendered `Domain` attribute at `i` folds into the record.
proof fn lemma_attr_domain(s: Seq<char>, i: int, cx: SpecCookie, d: Seq<char>)
    requires
        0 <= i,
        d.len() > 0,
        forall|k: int| 0 <= k < d.len() ==> is_domain_char(#[trigger] d[k]),
        i + 9 + d.len() <= s.len(),
        s.subrange(i, i + 9 + d.len()) == "; Domain="@ + d,
        i + 9 + d.len() == s.len() || s[i + 9 + d.len()] == ';',
    ensures
        spec_attrs(s, i, cx) == spec_attrs(
            s,
            i + 9 + d.len(),
            (SpecCookie { domain: Option::Some(d), ..cx }),
        ),
{
    reveal_strlit("; Domain=");
    reveal_strlit("Expires=");
    reveal_strlit("Max-Age=");
    reveal_strlit("Domain=");
    let seg = "; Domain="@ + d;
    let j = i + 9 + d.len();
    assert(s.subrange(i, i + seg.len() as int) == seg);
    assert forall|k: int| 0 <= k < seg.len() implies #[trigger] s[i + k] == seg[k] by {
        assert(s.subrange(i, i + seg.len() as int)[k] == s[i + k]);
    }
    let a = i + 2;
    assert(s[i + 0] == seg[0] && s[i + 1] == seg[1] && s[i + 2] == seg[2]);
    assert(s[i] == ';' && s[i + 1] == ' ');
    assert(s[a] == 'D');
    lemma_not_starts(s, a, "Expires="@, 0);
    lemma_not_starts(s, a, "Max-Age="@, 0);
    lemma_sub_sub(s, i, seg, 2, 9);
    assert(seg.subrange(2, 9) =~= "Domain="@);
    assert(starts_at(s, a, "Domain="@));
    lemma_sub_sub(s, i, seg, 9, seg.len() as int);
    assert(seg.subrange(9, seg.len() as int) =~= d);
    assert(s.subrange(a + 7, j) == d);
    assert forall|k: int| a + 7 <= k < j implies is_domain_char(#[trigger] s[k]) by {
        assert(s.subrange(a + 7, j)[k - a - 7] == s[k]);
    }
    assert(!is_domain_char(';'));
    lemma_domain_end_is(s, a + 7, j);
}

/// One rendered `Path` attribute at `i` folds into the record.
proof fn lemma_attr_path(s: Seq<char>, i: int, cx: SpecCookie, p: Seq<char>)
    requires
        0 <= i,
        p.len() > 0,
        forall|k: int| 0 <= k < p.len() ==> is_path_char(#[trigger] p[k]),
        i + 7 + p.len() <= s.len(),
        s.subrange(i, i + 7 + p.len()) == "; Path="@ + p,
        i + 7 + p.len() == s.len() || s[i + 7 + p.len()] == ';',
    ensures
        spec_attrs(s, i, cx) == spec_attrs(
            s,
            i + 7 + p.len(),
            (SpecCookie { path: Option::Some(p), ..cx }),
        ),
{
    reveal_strlit("; Path=");
    reveal_strlit("Expires=");
    reveal_strlit("Max-Age=");
    reveal_strlit("Domain=");
    reveal_strlit("Path=");
    let seg = "; Path="@ + p;
    let j = i + 7 + p.len();
    assert(s.subrange(i, i + seg.len() as int) == seg);
    assert forall|k: int| 0 <= k < seg.len() implies #[trigger] s[i + k] == seg[k] by {
        assert(s.subrange(i, i + seg.len() as int)[k] == s[i + k]);
    }
    let a = i + 2;
    assert(s[i + 0] == seg[0] && s[i + 1] == seg[1] && s[i + 2] == seg[2]);
    assert(s[i] == ';' && s[i + 1] == ' ');
    assert(s[a] == 'P');
    lemma_not_starts(s, a, "Expires="@, 0);
    lemma_not_starts(s, a, "Max-Age="@, 0);
    lemma_not_starts(s, a, "Domain="@, 0);
    lemma_sub_sub(s, i, seg, 2, 7);
    assert(seg.subrange(2, 7) =~= "Path="@);
    assert(starts_at(s, a, "Path="@));
    lemma_sub_sub(s, i, seg, 7, seg.len() as int);
    assert(seg.subrange(7, seg.len() as int) =~= p);
    assert(s.subrange(a + 5, j) == p);
    assert forall|k: int| a + 5 <= k < j implies is_path_char(#[trigger] s[k]) by {
        assert(s.subrange(a + 5, j)[k - a - 5] == s[k]);
    }
    assert(!is_path_char(';'));
    lemma_path_end_is(s, a + 5, j);
}

/// A rendered `Secure` flag at `i` folds into the record.
proof fn lemma_attr_secure(s: Seq<char>, i: int, cx: SpecCookie)
    requires
        0 <= i,
        i + 8 <= s.len(),
        s.subrange(i, i + 8) == "; Secure"@,
    ensures
        spec_attrs(s, i, cx) == spec_attrs(s, i + 8, (SpecCookie { secure: true, ..cx })),
{
    reveal_strlit("; Secure");
    reveal_strlit("Expires=");
    reveal_strlit("Max-Age=");
    reveal_strlit("Domain=");
    reveal_strlit("Path=");
    reveal_strlit("Secure");
    let seg = "; Secure"@;
    assert(s.subrange(i, i + seg.len() as int) == seg);
    assert forall|k: int| 0 <= k < seg.len() implies #[trigger] s[i + k] == seg[k] by {
        assert(s.subrange(i, i + seg.len() as int)[k] == s[i + k]);
    }
    let a = i + 2;
    assert(s[i + 0] == seg[0] && s[i + 1] == seg[1] && s[i + 2] == seg[2] && s[i + 3] == seg[3]);
    assert(s[i] == ';' && s[i + 1] == ' ');
    assert(s[a] == 'S' && s[a + 1] == 'e');
    lemma_not_starts(s, a, "Expires="@, 0);
    lemma_not_starts(s, a, "Max-Age="@, 0);
    lemma_not_starts(s, a, "Domain="@, 0);
    lemma_not_starts(s, a, "Path="@, 0);
    lemma_sub_sub(s, i, seg, 2, 8);
    assert(seg.subrange(2, 8) =~= "Secure"@);
    assert(starts_at(s, a, "Secure"@));
}

/// A rendered `HttpOnly` flag at `i` folds into the record.
proof fn lemma_attr_http_only(s: Seq<char>, i: int, cx: SpecCookie)
    requires
        0 <= i,
        i + 10 <= s.len(),
        s.subrange(i, i + 10) == "; HttpOnly"@,
    ensures
        spec_attrs(s, i, cx) == spec_attrs(s, i + 10, (SpecCookie { http_only: true, ..cx })),
{
    reveal_strlit("; HttpOnly");
    reveal_strlit("Expires=");
    reveal_strlit("Max-Age=");
    reveal_strlit("Domain=");
    reveal_strlit("Path=");
    reveal_strlit("Secure");
    reveal_strlit("HttpOnly");
    let seg = "; HttpOnly"@;
    assert(s.subrange(i, i + seg.len() as int) == seg);
    assert forall|k: int| 0 <= k < seg.len() implies #[trigger] s[i + k] == seg[k] by {
        assert(s.subrange(i, i + seg.len() as int)[k] == s[i + k]);
    }
    let a = i + 2;
    assert(s[i + 0] == seg[0] && s[i + 1] == seg[1] && s[i + 2] == seg[2]);
    assert(s[i] == ';' && s[i + 1] == ' ');
    assert(s[a] == 'H');
    lemma_not_starts(s, a, "Expires="@, 0);
    lemma_not_starts(s, a, "Max-Age="@, 0);
    lemma_not_starts(s, a, "Domain="@, 0);
    lemma_not_starts(s, a, "Path="@, 0);
    lemma_not_starts(s, a, "Secure"@, 0);
    lemma_sub_sub(s, i, seg, 2, 10);
    assert(seg.subrange(2, 10) =~= "HttpOnly"@);
    assert(starts_at(s, a, "HttpOnly"@));
}

/// A rendered `SameSite` attribute at `i` folds into the record.
proof fn lemma_attr_same_site(s: Seq<char>, i: int, cx: SpecCookie, ss: SameSite)
    requires
        0 <= i,
        i + 11 + same_site_chars(ss).len() <= s.len(),
        s.subrange(i, i + 11 + same_site_chars(ss).len()) == "; SameSite="@ + same_site_chars(ss),
    ensures
        spec_attrs(s, i, cx) == spec_attrs(
            s,
            i + 11 + same_site_chars(ss).len(),
            (SpecCookie { same_site: Option::Some(ss), ..cx }),
        ),
{
    reveal_strlit("; SameSite=");
    reveal_strlit("Expires=");
    reveal_strlit("Max-Age=");
    reveal_strlit("Domain=");
    reveal_strlit("Path=");
    reveal_strlit("Secure");
    reveal_strlit("HttpOnly");
    reveal_strlit("SameSite=");
    reveal_strlit("Strict");
    reveal_strlit("Lax");
    reveal_strlit("None");
    let seg = "; SameSite="@ + same_site_chars(ss);
    assert(s.subrange(i, i + seg.len() as int) == seg);
    assert forall|k: int| 0 <= k < seg.len() implies #[trigger] s[i + k] == seg[k] by {
        assert(s.subrange(i, i + seg.len() as int)[k] == s[i + k]);
    }
    let a = i + 2;
    assert(s[i + 0] == seg[0] && s[i + 1] == seg[1] && s[i + 2] == seg[2] && s[i + 3] == seg[3]);
    assert(s[i + 11] == seg[11]);
    assert(s[i] == ';' && s[i + 1] == ' ');
    assert(s[a] == 'S' && s[a + 1] == 'a');
    lemma_not_starts(s, a, "Expires="@, 0);
    lemma_not_starts(s, a, "Max-Age="@, 0);
    lemma_not_starts(s, a, "Domain="@, 0);
    lemma_not_starts(s, a, "Path="@, 0);
    lemma_not_starts(s, a, "Secure"@, 1);
    lemma_not_starts(s, a, "HttpOnly"@, 0);
    lemma_sub_sub(s, i, seg, 2, 11);
    assert(seg.subrange(2, 11) =~= "SameSite="@);
    assert(starts_at(s, a, "SameSite="@));
    lemma_sub_sub(s, i, seg, 11, seg.len() as int);
    assert(seg.subrange(11, seg.len() as int) =~= same_site_chars(ss));
    match ss {
        SameSite::Strict => {
            assert(s.subrange(a + 9, a + 15) == same_site_chars(ss));
            assert(starts_at(s, a + 9, "Strict"@));
        },
        SameSite::Lax => {
            assert(s[i + 11] == 'L');
            lemma_not_starts(s, a + 9, "Strict"@, 0);
            assert(s.subrange(a + 9, a + 12) == same_site_chars(ss));
            assert(starts_at(s, a + 9, "Lax"@));
        },
        SameSite::NoneValue => {
            assert(s[i + 11] == 'N');
            lemma_not_starts(s, a + 9, "Strict"@, 0);
            lemma_not_starts(s, a + 9, "Lax"@, 0);
            assert(s.subrange(a + 9, a + 13) == same_site_chars(ss));
            assert(starts_at(s, a + 9, "None"@));
        },
    }
}

/// Where each piece of a rendered cookie stands in the rendered text.
#[verifier::rlimit(100)]
#[verifier::spinoff_prover]
proof fn lemma_render_layout(c: SpecCookie)
    requires
        c.expires is None,
    ensures
        ({
            let s = spec_render(c);
            let seg_max = match c.max_age {
                Option::Some(m) => "; Max-Age="@ + crate::digits::dec_chars_i64(m as int),
                Option::None => Seq::<char>::empty(),
            };
            let seg_dom = match c.domain {
                Option::Some(d) => "; Domain="@ + d,
                Option::None => Seq::<char>::empty(),
            };
            let seg_path = match c.path {
                Option::Some(p) => "; Path="@ + p,
                Option::None => Seq::<char>::empty(),
            };
            let seg_sec: Seq<char> = if c.secure {
                "; Secure"@
            } else {
                Seq::<char>::empty()
            };
            let seg_http: Seq<char> = if c.http_only {
                "; HttpOnly"@
            } else {
                Seq::<char>::empty()
            };
            let seg_ss = match c.same_site {
                Option::Some(ss) => "; SameSite="@ + same_site_chars(ss),
                Option::None => Seq::<char>::empty(),
            };
            let nlen = c.name.len() as int;
            let p0 = nlen + 1 + c.value.len();
            let p1 = p0 + seg_max.len();
            let p2 = p1 + seg_dom.len();
            let p3 = p2 + seg_path.len();
            let p4 = p3 + seg_sec.len();
            let p5 = p4 + seg_http.len();
            let p6 = p5 + seg_ss.len();
            &&& s.len() == p6
            &&& s.subrange(0, nlen) == c.name
            &&& s[nlen] == '='
            &&& s.subrange(nlen + 1, p0) == c.value
            &&& s.subrange(p0, p1) == seg_max
            &&& s.subrange(p1, p2) == seg_dom
            &&& s.subrange(p2, p3) == seg_path
            &&& s.subrange(p3, p4) == seg_sec
            &&& s.subrange(p4, p5) == seg_http
            &&& s.subrange(p5, p6) == seg_ss
            &&& (p0 < s.len() ==> s[p0] == ';')
            &&& (p1 < s.len() ==> s[p1] == ';')
            &&& (p2 < s.len() ==> s[p2] == ';')
            &&& (p3 < s.len() ==> s[p3] == ';')
            &&& (p4 < s.len() ==> s[p4] == ';')
            &&& (p5 < s.len() ==> s[p5] == ';')
        }),
{
    lemma_render_unfold(c);
    reveal_strlit("=");
    proof_segment_heads();
    let s = spec_render(c);
    let seg_max = match c.max_age {
        Option::Some(m) => "; Max-Age="@ + crate::digits::dec_chars_i64(m as int),
        Option::None => Seq::<char>::empty(),
    };
    let seg_dom = match c.domain {
        Option::Some(d) => "; Domain="@ + d,
        Option::None => Seq::<char>::empty(),
    };
    let seg_path = match c.path {
        Option::Some(p) => "; Path="@ + p,
        Option::None => Seq::<char>::empty(),
    };
    let seg_sec: Seq<char> = if c.secure {
        "; Secure"@
    } else {
        Seq::<char>::empty()
    };
    let seg_http: Seq<char> = if c.http_only {
        "; HttpOnly"@
    } else {
        Seq::<char>::empty()
    };
    let seg_ss = match c.same_site {
        Option::Some(ss) => "; SameSite="@ + same_site_chars(ss),
        Option::None => Seq::<char>::empty(),
    };
    let nv = c.name + seq!['='] + c.value;
    assert(c.name + "="@ + c.value =~= nv);
    assert(nv + Seq::<char>::empty() =~= nv);
    let q1 = nv + seg_max;
    let q2 = q1 + seg_dom;
    let q3 = q2 + seg_path;
    let q4 = q3 + seg_sec;
    let q5 = q4 + seg_http;
    let q6 = q5 + seg_ss;
    assert(s == q6);
    let nlen = c.name.len() as int;
    let p0 = nlen + 1 + c.value.len();
    let p1 = p0 + seg_max.len();
    let p2 = p1 + seg_dom.len();
    let p3 = p2 + seg_path.len();
    let p4 = p3 + seg_sec.len();
    let p5 = p4 + seg_http.len();
    let p6 = p5 + seg_ss.len();
    assert(s.len() == p6);
    assert(s.subrange(0, p6) =~= s);
    lemma_concat_split(q5, seg_ss, s, 0);
    lemma_concat_split(q4, seg_http, s, 0);
    lemma_concat_split(q3, seg_sec, s, 0);
    lemma_concat_split(q2, seg_path, s, 0);
    lemma_concat_split(q1, seg_dom, s, 0);
    lemma_concat_split(nv, seg_max, s, 0);
    lemma_concat_split(c.name + seq!['='], c.value, s, 0);
    lemma_concat_split(c.name, seq!['='], s, 0);
    assert(s.subrange(nlen, nlen + 1) == seq!['=']);
    assert(s[nlen] == '=') by {
        assert(s.subrange(nlen, nlen + 1)[0] == s[nlen]);
    }
    assert(s.subrange(nlen + 1, p0) == c.value);
    assert(seg_max.len() > 0 ==> seg_max[0] == ';');
    assert(seg_dom.len() > 0 ==> seg_dom[0] == ';');
    assert(seg_path.len() > 0 ==> seg_path[0] == ';');
    assert(seg_sec.len() > 0 ==> seg_sec[0] == ';');
    assert(seg_http.len() > 0 ==> seg_http[0] == ';');
    assert(seg_ss.len() > 0 ==> seg_ss[0] == ';');
    assert(p0 < s.len() ==> s[p0] == ';') by {
        if p0 < s.len() {
            if seg_max.len() > 0 {
                assert(s.subrange(p0, p1)[0] == s[p0]);
            } else if seg_dom.len() > 0 {
                assert(s.subrange(p1, p2)[0] == s[p1]);
            } else if seg_path.len() > 0 {
                assert(s.subrange(p2, p3)[0] == s[p2]);
            } else if seg_sec.len() > 0 {
                assert(s.subrange(p3, p4)[0] == s[p3]);
            } else if seg_http.len() > 0 {
                assert(s.subrange(p4, p5)[0] == s[p4]);
            } else {
                assert(s.subrange(p5, p6)[0] == s[p5]);
            }
        }
    }
    assert(p1 < s.len() ==> s[p1] == ';') by {
        if p1 < s.len() {
            if seg_dom.len() > 0 {
                assert(s.subrange(p1, p2)[0] == s[p1]);
            } else if seg_path.len() > 0 {
                assert(s.subrange(p2, p3)[0] == s[p2]);
            } else if seg_sec.len() > 0 {
                assert(s.subrange(p3, p4)[0] == s[p3]);
            } else if seg_http.len() > 0 {
                assert(s.subrange(p4, p5)[0] == s[p4]);
            } else {
                assert(s.subrange(p5, p6)[0] == s[p5]);
            }
        }
    }
    assert(p2 < s.len() ==> s[p2] == ';') by {
        if p2 < s.len() {
            if seg_path.len() > 0 {
                assert(s.subrange(p2, p3)[0] == s[p2]);
            } else if seg_sec.len() > 0 {
                assert(s.subrange(p3, p4)[0] == s[p3]);
            } else if seg_http.len() > 0 {
                assert(s.subrange(p4, p5)[0] == s[p4]);
            } else {
                assert(s.subrange(p5, p6)[0] == s[p5]);
            }
        }
    }
    assert(p3 < s.len() ==> s[p3] == ';') by {
        if p3 < s.len() {
            if seg_sec.len() > 0 {
                assert(s.subrange(p3, p4)[0] == s[p3]);
            } else if seg_http.len() > 0 {
                assert(s.subrange(p4, p5)[0] == s[p4]);
            } else {
                assert(s.subrange(p5, p6)[0] == s[p5]);
            }
        }
    }
    assert(p4 < s.len() ==> s[p4] == ';') by {
        if p4 < s.len() {
            if seg_http.len() > 0 {
                assert(s.subrange(p4, p5)[0] == s[p4]);
            } else {
                assert(s.subrange(p5, p6)[0] == s[p5]);
            }
        }
    }
    assert(p5 < s.len() ==> s[p5] == ';') by {
        if p5 < s.len() {
            assert(s.subrange(p5, p6)[0] == s[p5]);
        }
    }
}

/// Rendering and re-parsing recovers an in-range cookie record.  The
/// `Expires` component is handled by the date codec and checked by tests;
/// this statement covers records without one.
#[verifier::rlimit(100)]
#[verifier::spinoff_prover]
pub proof fn lemma_set_cookie_round_trip(c: SpecCookie)
    requires
        cookie_in_range(c),
        c.expires is None,
    ensures
        spec_parse_set_cookie(spec_render(c)) == Option::Some(c),
{
    lemma_render_layout(c);
    proof_segment_heads();
    let s = spec_render(c);
    let seg_max = match c.max_age {
        Option::Some(m) => "; Max-Age="@ + crate::digits::dec_chars_i64(m as int),
        Option::None => Seq::<char>::empty(),
    };
    let seg_dom = match c.domain {
        Option::Some(d) => "; Domain="@ + d,
        Option::None => Seq::<char>::empty(),
    };
    let seg_path = match c.path {
        Option::Some(p) => "; Path="@ + p,
        Option::None => Seq::<char>::empty(),
    };
    let seg_sec: Seq<char> = if c.secure {
        "; Secure"@
    } else {
        Seq::<char>::empty()
    };
    let seg_http: Seq<char> = if c.http_only {
        "; HttpOnly"@
    } else {
        Seq::<char>::empty()
    };
    let seg_ss = match c.same_site {
        Option::Some(ss) => "; SameSite="@ + same_site_chars(ss),
        Option::None => Seq::<char>::empty(),
    };
    let nlen = c.name.len() as int;
    let p0 = nlen + 1 + c.value.len();
    let p1 = p0 + seg_max.len();
    let p2 = p1 + seg_dom.len();
    let p3 = p2 + seg_path.len();
    let p4 = p3 + seg_sec.len();
    let p5 = p4 + seg_http.len();
    let p6 = p5 + seg_ss.len();
    // the name=value pair
    assert forall|k: int| 0 <= k < nlen implies is_cookie_char(#[trigger] s[k]) by {
        assert(s.subrange(0, nlen)[k] == s[k]);
    }
    assert(!is_cookie_char('='));
    lemma_token_end_is(s, 0, nlen);
    assert forall|k: int| nlen + 1 <= k < p0 implies is_cookie_char(#[trigger] s[k]) by {
        assert(s.subrange(nlen + 1, p0)[k - nlen - 1] == s[k]);
    }
    assert(!is_cookie_char(';'));
    lemma_token_end_is(s, nlen + 1, p0);
    assert(spec_pair(s, 0) == Option::Some((c.name, c.value, p0)));
    let c0 = SpecCookie {
        name: c.name,
        value: c.value,
        expires: Option::None,
        max_age: Option::None,
        domain: Option::None,
        path: Option::None,
        secure: false,
        http_only: false,
        same_site: Option::None,
    };
    assert(spec_parse_set_cookie(s) == spec_attrs(s, p0, c0));
    let c1 = SpecCookie { max_age: c.max_age, ..c0 };
    assert(spec_attrs(s, p0, c0) == spec_attrs(s, p1, c1)) by {
        match c.max_age {
            Option::Some(m) => {
                lemma_attr_max(s, p0, c0, m);
            },
            Option::None => {
                assert(p1 == p0 && c1 == c0);
            },
        }
    }
    let c2 = SpecCookie { domain: c.domain, ..c1 };
    assert(spec_attrs(s, p1, c1) == spec_attrs(s, p2, c2)) by {
        match c.domain {
            Option::Some(d) => {
                lemma_attr_domain(s, p1, c1, d);
            },
            Option::None => {
                assert(p2 == p1 && c2 == c1);
            },
        }
    }
    let c3 = SpecCookie { path: c.path, ..c2 };
    assert(spec_attrs(s, p2, c2) == spec_attrs(s, p3, c3)) by {
        match c.path {
            Option::Some(p) => {
                lemma_attr_path(s, p2, c2, p);
            },
            Option::None => {
                assert(p3 == p2 && c3 == c2);
            },
        }
    }
    let c4 = SpecCookie { secure: c.secure, ..c3 };
    assert(spec_attrs(s, p3, c3) == spec_attrs(s, p4, c4)) by {
        if c.secure {
            lemma_attr_secure(s, p3, c3);
        } else {
            assert(p4 == p3 && c4 == c3);
        }
    }
    let c5 = SpecCookie { http_only: c.http_only, ..c4 };
    assert(spec_attrs(s, p4, c4) == spec_attrs(s, p5, c5)) by {
        if c.http_only {
            lemma_attr_http_only(s, p4, c4);
        } else {
            assert(p5 == p4 && c5 == c4);
        }
    }
    let c6 = SpecCookie { same_site: c.same_site, ..c5 };
    assert(spec_attrs(s, p5, c5) == spec_attrs(s, p6, c6)) by {
        match c.same_site {
            Option::Some(ss) => {
                lemma_attr_same_site(s, p5, c5, ss);
            },
            Option::None => {
                assert(p6 == p5 && c6 == c5);
            },
        }
    }
    assert(spec_attrs(s, p6, c6) == Option::Some(c6));
    assert(c6 == c);
}

/// Every rendered attribute begins with a semicolon and a space.
proof fn proof_segment_heads()
    ensures
        "; Max-Age="@.len() == 10,
        "; Domain="@.len() == 9,
        "; Path="@.len() == 7,
        "; Secure"@.len() == 8,
        "; HttpOnly"@.len() == 10,
        "; SameSite="@.len() == 11,
        "; Max-Age="@[0] == ';',
        "; Domain="@[0] == ';',
        "; Path="@[0] == ';',
        "; Secure"@[0] == ';',
        "; HttpOnly"@[0] == ';',
        "; SameSite="@[0] == ';',
{
    reveal_strlit("; Max-Age=");
    reveal_strlit("; Domain=");
    reveal_strlit("; Path=");
    reveal_strlit("; Secure");
    reveal_strlit("; HttpOnly");
    reveal_strlit("; SameSite=");
}

} // verus!
