//! An incremental multipart/form-data reader.
//!
//! The reader owns a growing byte buffer that the embedding application
//! feeds with body chunks; `read_header` and `read_data` consume parts from
//! it, and `read_all_chunks` reads a whole buffered form under a total-size
//! cap.  Part headers are RFC-822-style `key: value` lines delimited by a
//! double CRLF.
use vstd::prelude::*;

use crate::outside::string_from_utf8;

verus! {

#[derive(Debug)]
pub struct MultipartHeader {
    pub name: String,
    pub file_name: Option<String>,
    pub content_type: Option<String>,
}

/// The ghost image of a part header.
pub ghost struct SpecMultipartHeader {
    pub name: Seq<char>,
    pub file_name: Option<Seq<char>>,
    pub content_type: Option<Seq<char>>,
}

impl View for MultipartHeader {
    type V = SpecMultipartHeader;

    open spec fn view(&self) -> SpecMultipartHeader {
        SpecMultipartHeader {
            name: self.name@,
            file_name: match self.file_name {
                Option::Some(f) => Option::Some(f@),
                Option::None => Option::None,
            },
            content_type: match self.content_type {
                Option::Some(c) => Option::Some(c@),
                Option::None => Option::None,
            },
        }
    }
}

#[derive(Debug, Clone, Copy, PartialEq, Eq, Structural)]
pub enum MultipartError {
    NotEnoughData,
    BoundaryExpected,
    HeaderUtf8Error,
    MalformedForm,
    ContentDispositionInvalidType,
    ContentDispositionInvalidFormat,
    NameNotFound,
    FileNameNotFound,
    TooBig,
}

/// One step of the incremental reader: a result, or a request for more
/// input from the transport.
pub enum Step<T> {
    Done(T),
    NeedData,
}

/// First position at or after `i` where the two characters stand next to
/// each other; the length when they do not.
pub open spec fn find2c(s: Seq<char>, i: int, c1: char, c2: char) -> int
    recommends
        0 <= i <= s.len(),
    decreases s.len() - i,
    when 0 <= i <= s.len()
{
    if i + 2 > s.len() {
        s.len() as int
    } else if s[i] == c1 && s[i + 1] == c2 {
        i
    } else {
        find2c(s, i + 1, c1, c2)
    }
}

pub proof fn lemma_find2c_range(s: Seq<char>, i: int, c1: char, c2: char)
    requires
        0 <= i <= s.len(),
    ensures
        i <= find2c(s, i, c1, c2) <= s.len(),
        find2c(s, i, c1, c2) + 2 <= s.len() || find2c(s, i, c1, c2) == s.len(),
        find2c(s, i, c1, c2) < s.len() ==> s[find2c(s, i, c1, c2)] == c1 && s[find2c(
            s,
            i,
            c1,
            c2,
        ) + 1] == c2,
    decreases s.len() - i,
{
    if i + 2 <= s.len() && !(s[i] == c1 && s[i + 1] == c2) {
        lemma_find2c_range(s, i + 1, c1, c2);
    }
}

fn exec_find2c(s: &str, from: usize, c1: char, c2: char) -> (e: usize)
    requires
        from <= s@.len(),
    ensures
        e == find2c(s@, from as int, c1, c2),
        from <= e <= s@.len(),
        e < s@.len() ==> e + 2 <= s@.len() && s@[e as int] == c1 && s@[e as int + 1] == c2,
{
    proof {
        lemma_find2c_range(s@, from as int, c1, c2);
    }
    let len: usize = s.unicode_len();
    let mut e: usize = from;
    while !(len - e < 2 || (s.get_char(e) == c1 && s.get_char(e + 1) == c2))
        invariant
            from <= e <= len,
            len == s@.len(),
            find2c(s@, from as int, c1, c2) == find2c(s@, e as int, c1, c2),
        decreases len - e,
    {
        e = e + 1;
    }
    if len - e < 2 {
        proof {
            assert(find2c(s@, e as int, c1, c2) == s@.len());
        }
        len
    } else {
        e
    }
}

/// First `=` at or after `i`; the length when there is none.
pub open spec fn find_eq(s: Seq<char>, i: int) -> int
    recommends
        0 <= i <= s.len(),
    decreases s.len() - i,
    when 0 <= i <= s.len()
{
    if i >= s.len() {
        s.len() as int
    } else if s[i] == '=' {
        i
    } else {
        find_eq(s, i + 1)
    }
}

pub proof fn lemma_find_eq_range(s: Seq<char>, i: int)
    requires
        0 <= i <= s.len(),
    ensures
        i <= find_eq(s, i) <= s.len(),
        find_eq(s, i) < s.len() ==> s[find_eq(s, i)] == '=',
    decreases s.len() - i,
{
    if i < s.len() && s[i] != '=' {
        lemma_find_eq_range(s, i + 1);
    }
}

pub fn exec_find_eq(s: &str, from: usize) -> (e: usize)
    requires
        from <= s@.len(),
    ensures
        e == find_eq(s@, from as int),
        from <= e <= s@.len(),
{
    proof {
        lemma_find_eq_range(s@, from as int);
    }
    let len: usize = s.unicode_len();
    let mut e: usize = from;
    while e < len && s.get_char(e) != '='
        invariant
            from <= e <= len,
            len == s@.len(),
            find_eq(s@, from as int) == find_eq(s@, e as int),
        decreases len - e,
    {
        e = e + 1;
    }
    e
}

/// The fields gathered while reading header lines.
pub ghost struct SpecHeaderState {
    pub name: Option<Seq<char>>,
    pub file_name: Option<Seq<char>>,
    pub content_type: Option<Seq<char>>,
}

/// A quoted value with its surrounding quotes removed, each side
/// independently.
pub open spec fn strip_quotes(v: Seq<char>) -> Seq<char> {
    let v1 = if v.len() > 0 && v[0] == '"' {
        v.drop_first()
    } else {
        v
    };
    if v1.len() > 0 && v1.last() == '"' {
        v1.drop_last()
    } else {
        v1
    }
}

/// One `key="value"` parameter of a Content-Disposition value, folded into
/// the state.
pub open spec fn spec_cd_param(piece: Seq<char>, st: SpecHeaderState) -> Result<
    SpecHeaderState,
    MultipartError,
> {
    let eq = find_eq(piece, 0);
    if eq == piece.len() {
        Result::Err(MultipartError::ContentDispositionInvalidFormat)
    } else {
        let q2 = find_eq(piece, eq + 1);
        let key = piece.subrange(0, eq);
        let value = strip_quotes(piece.subrange(eq + 1, q2));
        if key == "name"@ {
            Result::Ok(SpecHeaderState { name: Option::Some(value), ..st })
        } else if key == "filename"@ {
            Result::Ok(SpecHeaderState { file_name: Option::Some(value), ..st })
        } else {
            Result::Ok(st)
        }
    }
}

/// The `; `-separated parameters of a Content-Disposition value from `i` on.
pub open spec fn spec_cd_params(v: Seq<char>, i: int, st: SpecHeaderState) -> Result<
    SpecHeaderState,
    MultipartError,
>
    recommends
        0 <= i <= v.len(),
    decreases v.len() - i,
    when 0 <= i <= v.len()
{
    if i >= v.len() {
        Result::Ok(st)
    } else {
        let e = find2c(v, i, ';', ' ');
        let piece = v.subrange(i, e);
        let next = if e == v.len() {
            e
        } else {
            e + 2
        };
        match spec_cd_param(piece, st) {
            Result::Err(err) => Result::Err(err),
            Result::Ok(st2) => if i < next <= v.len() {
                spec_cd_params(v, next, st2)
            } else {
                Result::Ok(st2)
            },
        }
    }
}

/// A whole Content-Disposition value: `form-data` and then its parameters.
pub open spec fn spec_cd(v: Seq<char>, st: SpecHeaderState) -> Result<
    SpecHeaderState,
    MultipartError,
> {
    let e0 = find2c(v, 0, ';', ' ');
    if v.subrange(0, e0) != "form-data"@ {
        Result::Err(MultipartError::ContentDispositionInvalidType)
    } else {
        let next = if e0 == v.len() {
            e0
        } else {
            e0 + 2
        };
        if 0 <= next <= v.len() {
            spec_cd_params(v, next, st)
        } else {
            Result::Ok(st)
        }
    }
}

/// One nonempty header line: `key: value`, with the recognized keys folded
/// into the state.
pub open spec fn spec_header_line(line: Seq<char>, st: SpecHeaderState) -> Result<
    SpecHeaderState,
    MultipartError,
> {
    let p = find2c(line, 0, ':', ' ');
    if p == line.len() {
        Result::Err(MultipartError::MalformedForm)
    } else {
        let key = line.subrange(0, p);
        let q = find2c(line, p + 2, ':', ' ');
        let value = line.subrange(p + 2, q);
        if key == "Content-Disposition"@ {
            spec_cd(value, st)
        } else if key == "Content-Type"@ {
            Result::Ok(SpecHeaderState { content_type: Option::Some(value), ..st })
        } else {
            Result::Ok(st)
        }
    }
}

/// The CRLF-separated lines of a header block from `i` on, empty lines
/// skipped, folded into the state.
pub open spec fn spec_header_lines(s: Seq<char>, i: int, st: SpecHeaderState) -> Result<
    SpecHeaderState,
    MultipartError,
>
    recommends
        0 <= i <= s.len(),
    decreases s.len() - i,
    when 0 <= i <= s.len()
{
    if i >= s.len() {
        Result::Ok(st)
    } else {
        let e = find2c(s, i, '\r', '\n');
        let line = s.subrange(i, e);
        let next = if e == s.len() {
            e
        } else {
            e + 2
        };
        let folded = if line.len() == 0 {
            Result::Ok(st)
        } else {
            spec_header_line(line, st)
        };
        match folded {
            Result::Err(err) => Result::Err(err),
            Result::Ok(st2) => if i < next <= s.len() {
                spec_header_lines(s, next, st2)
            } else {
                Result::Ok(st2)
            },
        }
    }
}

/// What parsing a header block must produce: the folded lines, with a
/// missing `name` rejected.
pub open spec fn spec_parse_header_block(s: Seq<char>) -> Result<
    SpecMultipartHeader,
    MultipartError,
> {
    let init = SpecHeaderState {
        name: Option::None,
        file_name: Option::None,
        content_type: Option::None,
    };
    match spec_header_lines(s, 0, init) {
        Result::Err(err) => Result::Err(err),
        Result::Ok(st) => match st.name {
            Option::Some(n) => Result::Ok(
                SpecMultipartHeader {
                    name: n,
                    file_name: st.file_name,
                    content_type: st.content_type,
                },
            ),
            Option::None => Result::Err(MultipartError::NameNotFound),
        },
    }
}

struct HeaderState {
    name: Option<String>,
    file_name: Option<String>,
    content_type: Option<String>,
}

impl HeaderState {
    spec fn view(&self) -> SpecHeaderState {
        SpecHeaderState {
            name: match self.name {
                Option::Some(n) => Option::Some(n@),
                Option::None => Option::None,
            },
            file_name: match self.file_name {
                Option::Some(f) => Option::Some(f@),
                Option::None => Option::None,
            },
            content_type: match self.content_type {
                Option::Some(c) => Option::Some(c@),
                Option::None => Option::None,
            },
        }
    }
}

fn exec_cd_param(piece: &str, st: &mut HeaderState) -> (r: Result<(), MultipartError>)
    ensures
        match r {
            Result::Ok(()) => spec_cd_param(piece@, old(st).view()) == Result::<
                SpecHeaderState,
                MultipartError,
            >::Ok(final(st).view()),
            Result::Err(e) => spec_cd_param(piece@, old(st).view()) == Result::<
                SpecHeaderState,
                MultipartError,
            >::Err(e) && final(st).view() == old(st).view(),
        },
{
    let eq = exec_find_eq(piece, 0);
    let plen: usize = piece.unicode_len();
    if eq == plen {
        return Err(MultipartError::ContentDispositionInvalidFormat);
    }
    let q2 = exec_find_eq(piece, eq + 1);
    let mut vstart: usize = eq + 1;
    let mut vend: usize = q2;
    proof {
        assert(piece@.subrange(eq as int + 1, q2 as int) == piece@.subrange(
            vstart as int,
            vend as int,
        ));
    }
    let ghost raw = piece@.subrange(eq as int + 1, q2 as int);
    if vstart < vend && piece.get_char(vstart) == '"' {
        vstart = vstart + 1;
        proof {
            assert(raw.len() > 0 && raw[0] == '"');
            assert(raw.drop_first() =~= piece@.subrange(vstart as int, vend as int));
        }
    }
    let ghost v1 = piece@.subrange(vstart as int, vend as int);
    proof {
        assert(v1 == if raw.len() > 0 && raw[0] == '"' {
            raw.drop_first()
        } else {
            raw
        });
    }
    if vstart < vend && piece.get_char(vend - 1) == '"' {
        vend = vend - 1;
        proof {
            assert(v1.len() > 0 && v1.last() == '"');
            assert(v1.drop_last() =~= piece@.subrange(vstart as int, vend as int));
        }
    }
    proof {
        assert(piece@.subrange(vstart as int, vend as int) == strip_quotes(raw));
    }
    let value = piece.substring_char(vstart, vend).to_owned();
    if str_eq_prefix(piece, eq, "name") {
        st.name = Some(value);
        return Ok(());
    }
    if str_eq_prefix(piece, eq, "filename") {
        st.file_name = Some(value);
        return Ok(());
    }
    Ok(())
}

/// Whether the first `upto` characters are exactly `pat`.
fn str_eq_prefix(s: &str, upto: usize, pat: &str) -> (r: bool)
    requires
        upto <= s@.len(),
    ensures
        r == (s@.subrange(0, upto as int) == pat@),
{
    let plen: usize = pat.unicode_len();
    if upto != plen {
        proof {
            assert(s@.subrange(0, upto as int).len() != pat@.len());
        }
        return false;
    }
    let mut j: usize = 0;
    while j < plen
        invariant
            j <= plen,
            plen == pat@.len(),
            upto == plen <= s@.len(),
            forall|m: int| 0 <= m < j ==> s@[m] == pat@[m],
        decreases plen - j,
    {
        if s.get_char(j) != pat.get_char(j) {
            proof {
                assert(s@.subrange(0, upto as int)[j as int] != pat@[j as int]);
            }
            return false;
        }
        j = j + 1;
    }
    proof {
        assert(s@.subrange(0, upto as int) =~= pat@);
    }
    true
}

} // verus!
// The executable header-block parser, and the buffered reader itself.
verus! {

fn exec_cd(v: &str, st: &mut HeaderState) -> (r: Result<(), MultipartError>)
    ensures
        match r {
            Result::Ok(()) => spec_cd(v@, old(st).view()) == Result::<
                SpecHeaderState,
                MultipartError,
            >::Ok(final(st).view()),
            Result::Err(e) => spec_cd(v@, old(st).view()) == Result::<
                SpecHeaderState,
                MultipartError,
            >::Err(e),
        },
{
    let len: usize = v.unicode_len();
    let e0 = exec_find2c(v, 0, ';', ' ');
    if !str_eq_prefix(v, e0, "form-data") {
        return Err(MultipartError::ContentDispositionInvalidType);
    }
    let mut i: usize = if e0 == len {
        e0
    } else {
        e0 + 2
    };
    while i < len
        invariant
            i <= len,
            len == v@.len(),
            spec_cd(v@, old(st).view()) == spec_cd_params(v@, i as int, st.view()),
        decreases len - i,
    {
        let ghost i0 = i as int;
        let ghost st0 = st.view();
        let e = exec_find2c(v, i, ';', ' ');
        let piece = v.substring_char(i, e);
        match exec_cd_param(piece, st) {
            Ok(()) => (),
            Err(err) => {
                return Err(err);
            },
        }
        i = if e == len {
            e
        } else {
            e + 2
        };
        proof {
            assert(spec_cd_params(v@, i0, st0) == spec_cd_params(v@, i as int, st.view()));
        }
    }
    Ok(())
}

fn exec_header_line(line: &str, st: &mut HeaderState) -> (r: Result<(), MultipartError>)
    ensures
        match r {
            Result::Ok(()) => spec_header_line(line@, old(st).view()) == Result::<
                SpecHeaderState,
                MultipartError,
            >::Ok(final(st).view()),
            Result::Err(e) => spec_header_line(line@, old(st).view()) == Result::<
                SpecHeaderState,
                MultipartError,
            >::Err(e),
        },
{
    let len: usize = line.unicode_len();
    let p = exec_find2c(line, 0, ':', ' ');
    if p == len {
        return Err(MultipartError::MalformedForm);
    }
    let q = exec_find2c(line, p + 2, ':', ' ');
    let value = line.substring_char(p + 2, q);
    if str_eq_prefix(line, p, "Content-Disposition") {
        return exec_cd(value, st);
    }
    if str_eq_prefix(line, p, "Content-Type") {
        st.content_type = Some(value.to_owned());
        return Ok(());
    }
    Ok(())
}

/// Parses a part's header block: CRLF-separated `key: value` lines, with
/// `Content-Disposition` giving the part's name and optional file name.
pub fn parse_header_block(block: &str) -> (r: Result<MultipartHeader, MultipartError>)
    ensures
        match r {
            Result::Ok(h) => spec_parse_header_block(block@) == Result::<
                SpecMultipartHeader,
                MultipartError,
            >::Ok(h@),
            Result::Err(e) => spec_parse_header_block(block@) == Result::<
                SpecMultipartHeader,
                MultipartError,
            >::Err(e),
        },
{
    let len: usize = block.unicode_len();
    let mut st = HeaderState { name: None, file_name: None, content_type: None };
    let mut i: usize = 0;
    while i < len
        invariant
            i <= len,
            len == block@.len(),
            spec_header_lines(
                block@,
                0,
                SpecHeaderState {
                    name: Option::None,
                    file_name: Option::None,
                    content_type: Option::None,
                },
            ) == spec_header_lines(block@, i as int, st.view()),
        decreases len - i,
    {
        let ghost i0 = i as int;
        let ghost st0 = st.view();
        let e = exec_find2c(block, i, '\r', '\n');
        if e > i {
            let line = block.substring_char(i, e);
            match exec_header_line(line, &mut st) {
                Ok(()) => (),
                Err(err) => {
                    return Err(err);
                },
            }
        }
        i = if e == len {
            e
        } else {
            e + 2
        };
        proof {
            assert(spec_header_lines(block@, i0, st0) == spec_header_lines(
                block@,
                i as int,
                st.view(),
            ));
        }
    }
    match st.name {
        Some(name) => Ok(
            MultipartHeader { name, file_name: st.file_name, content_type: st.content_type },
        ),
        None => Err(MultipartError::NameNotFound),
    }
}

} // verus!
// The buffered reader: byte-level search and the part-reading steps.
verus! {

/// First position at or after `from` where `pat` occurs in `s`.
pub open spec fn first_match(s: Seq<u8>, pat: Seq<u8>, from: int) -> Option<int>
    recommends
        0 <= from <= s.len(),
    decreases s.len() - from,
    when 0 <= from <= s.len()
{
    if from + pat.len() > s.len() {
        Option::None
    } else if pat.len() == 0 {
        Option::Some(from)
    } else if s.subrange(from, from + pat.len()) == pat {
        Option::Some(from)
    } else {
        first_match(s, pat, from + 1)
    }
}

pub proof fn lemma_first_match_range(s: Seq<u8>, pat: Seq<u8>, from: int)
    requires
        0 <= from <= s.len(),
    ensures
        match first_match(s, pat, from) {
            Option::Some(m) => from <= m && m + pat.len() <= s.len() && s.subrange(
                m,
                m + pat.len(),
            ) == pat,
            Option::None => true,
        },
    decreases s.len() - from,
{
    if from + pat.len() <= s.len() && pat.len() > 0 && s.subrange(from, from + pat.len()) != pat {
        lemma_first_match_range(s, pat, from + 1);
    }
}

fn match_at(buf: &Vec<u8>, pat: &Vec<u8>, i: usize) -> (r: bool)
    requires
        i <= buf@.len(),
    ensures
        r == (i + pat@.len() <= buf@.len() && buf@.subrange(i as int, i as int + pat@.len())
            == pat@),
{
    let plen = pat.len();
    let blen = buf.len();
    if blen - i < plen {
        return false;
    }
    let mut j: usize = 0;
    while j < plen
        invariant
            j <= plen,
            plen == pat@.len(),
            blen == buf@.len(),
            i + plen <= blen,
            forall|m: int| 0 <= m < j ==> buf@[i + m] == pat@[m],
        decreases plen - j,
    {
        if buf[i + j] != pat[j] {
            proof {
                assert(buf@.subrange(i as int, i as int + pat@.len())[j as int] != pat@[j as int]);
            }
            return false;
        }
        j = j + 1;
    }
    proof {
        assert(buf@.subrange(i as int, i as int + pat@.len()) =~= pat@);
    }
    true
}

fn find_sub(buf: &Vec<u8>, pat: &Vec<u8>, from: usize) -> (r: Option<usize>)
    requires
        from <= buf@.len(),
    ensures
        match r {
            Option::Some(m) => first_match(buf@, pat@, from as int) == Option::Some(m as int) && (
            from <= m && m + pat@.len() <= buf@.len()),
            Option::None => first_match(buf@, pat@, from as int) is None,
        },
{
    let len = buf.len();
    let mut i: usize = from;
    while !(i >= len || match_at(buf, pat, i))
        invariant
            from <= i <= len,
            len == buf@.len(),
            first_match(buf@, pat@, from as int) == first_match(buf@, pat@, i as int),
        decreases len - i,
    {
        proof {
            if i + pat@.len() > buf@.len() {
                assert(first_match(buf@, pat@, i as int) is None);
                assert(first_match(buf@, pat@, i as int + 1) is None);
            } else {
                assert(pat@.len() > 0) by {
                    if pat@.len() == 0 {
                        assert(buf@.subrange(i as int, i as int) =~= pat@);
                    }
                }
                assert(first_match(buf@, pat@, i as int) == first_match(buf@, pat@, i as int + 1));
            }
        }
        i = i + 1;
    }
    if i >= len {
        if match_at(buf, pat, i) {
            proof {
                if pat@.len() == 0 {
                    assert(first_match(buf@, pat@, i as int) == Option::Some(i as int));
                } else {
                    assert(first_match(buf@, pat@, i as int) == Option::Some(i as int));
                }
            }
            return Some(i);
        }
        proof {
            if pat@.len() == 0 {
                assert(buf@.subrange(i as int, i as int) =~= pat@);
            }
            assert(first_match(buf@, pat@, i as int) is None);
        }
        return None;
    }
    proof {
        assert(first_match(buf@, pat@, i as int) == Option::Some(i as int));
    }
    Some(i)
}

/// Copies the byte range `[from, to)` out of a vector.
pub fn bytes_range(v: &Vec<u8>, from: usize, to: usize) -> (out: Vec<u8>)
    requires
        from <= to <= v@.len(),
    ensures
        out@ == v@.subrange(from as int, to as int),
{
    let mut out: Vec<u8> = Vec::new();
    let mut i: usize = from;
    while i < to
        invariant
            from <= i <= to <= v@.len(),
            out@ =~= v@.subrange(from as int, i as int),
        decreases to - i,
    {
        let b = v[i];
        out.push(b);
        i = i + 1;
        proof {
            assert(out@ =~= v@.subrange(from as int, i as int));
        }
    }
    out
}

/// The reader over a fed byte buffer.  `boundary` holds the full delimiter
/// including its leading two hyphens; `eof` records that the transport has
/// no more bytes.
#[derive(Debug)]
pub struct Multipart {
    pub boundary: Vec<u8>,
    pub max_size: usize,
    pub read_size: usize,
    pub buf: Vec<u8>,
    pub eof: bool,
}

pub open spec fn crlf_crlf() -> Seq<u8> {
    seq![13u8, 10u8, 13u8, 10u8]
}

impl Multipart {
    /// Bounds that every operation preserves: a short boundary and a byte
    /// budget not yet exceeded.
    pub open spec fn wf(&self) -> bool {
        &&& self.boundary@.len() <= 8192
        &&& self.read_size <= self.max_size
    }

    /// The byte pattern that ends a part: CRLF and the boundary.
    pub open spec fn data_end_pat(&self) -> Seq<u8> {
        seq![13u8, 10u8] + self.boundary@
    }

    pub fn new(boundary: Vec<u8>, max_size: usize) -> (m: Multipart)
        requires
            boundary@.len() <= 8192,
        ensures
            m.wf(),
            m.boundary == boundary,
            m.max_size == max_size,
            m.read_size == 0,
            m.buf@.len() == 0,
            m.eof == false,
    {
        Multipart { boundary, max_size, read_size: 0, buf: Vec::new(), eof: false }
    }

    /// Hands the reader the next chunk of the request body.
    pub fn feed(&mut self, chunk: &[u8])
        requires
            old(self).wf(),
        ensures
            final(self).wf(),
            final(self).buf@ == old(self).buf@ + chunk@,
            final(self).boundary == old(self).boundary,
            final(self).max_size == old(self).max_size,
            final(self).read_size == old(self).read_size,
            final(self).eof == old(self).eof,
    {
        let n = chunk.len();
        let mut i: usize = 0;
        while i < n
            invariant
                i <= n,
                n == chunk@.len(),
                self.buf@ =~= old(self).buf@ + chunk@.subrange(0, i as int),
                self.boundary == old(self).boundary,
                self.max_size == old(self).max_size,
                self.read_size == old(self).read_size,
                self.eof == old(self).eof,
                old(self).wf(),
            decreases n - i,
        {
            let b = chunk[i];
            self.buf.push(b);
            i = i + 1;
            proof {
                assert(self.buf@ =~= old(self).buf@ + chunk@.subrange(0, i as int));
            }
        }
        proof {
            assert(chunk@.subrange(0, n as int) =~= chunk@);
        }
    }

    /// Declares the request body finished.
    pub fn finish(&mut self)
        requires
            old(self).wf(),
        ensures
            final(self).wf(),
            *final(self) == (Multipart { eof: true, ..*old(self) }),
    {
        self.eof = true;
    }

    /// Drops the first `k` buffered bytes.
    fn consume(&mut self, k: usize)
        requires
            k <= old(self).buf@.len(),
        ensures
            final(self).buf@ == old(self).buf@.subrange(k as int, old(self).buf@.len() as int),
            final(self).boundary == old(self).boundary,
            final(self).max_size == old(self).max_size,
            final(self).read_size == old(self).read_size,
            final(self).eof == old(self).eof,
    {
        let rest = bytes_range(&self.buf, k, self.buf.len());
        self.buf = rest;
    }
}

} // verus!
// Reading one part header, one body chunk, and a whole form.
verus! {

/// The bytes of the data chunks read so far.
pub open spec fn total_size(chunks: Seq<(MultipartHeader, Vec<u8>)>) -> nat
    decreases chunks.len(),
{
    if chunks.len() == 0 {
        0
    } else {
        total_size(chunks.drop_last()) + chunks.last().1@.len()
    }
}

/// Which errors a header block can produce: only the line-grammar kinds.
pub open spec fn is_header_block_error(e: MultipartError) -> bool {
    ||| e is MalformedForm
    ||| e is ContentDispositionInvalidType
    ||| e is ContentDispositionInvalidFormat
    ||| e is NameNotFound
}

proof fn lemma_cd_params_err_kind(v: Seq<char>, i: int, st: SpecHeaderState)
    requires
        0 <= i <= v.len(),
    ensures
        spec_cd_params(v, i, st) matches Result::Err(e) ==> is_header_block_error(e),
    decreases v.len() - i,
{
    if i < v.len() {
        let e = find2c(v, i, ';', ' ');
        lemma_find2c_range(v, i, ';', ' ');
        let piece = v.subrange(i, e);
        let next = if e == v.len() {
            e
        } else {
            e + 2
        };
        match spec_cd_param(piece, st) {
            Result::Err(_) => {},
            Result::Ok(st2) => {
                if i < next <= v.len() {
                    lemma_cd_params_err_kind(v, next, st2);
                }
            },
        }
    }
}

proof fn lemma_header_line_err_kind(line: Seq<char>, st: SpecHeaderState)
    ensures
        spec_header_line(line, st) matches Result::Err(e) ==> is_header_block_error(e),
{
    let p = find2c(line, 0, ':', ' ');
    lemma_find2c_range(line, 0, ':', ' ');
    if p != line.len() {
        let key = line.subrange(0, p);
        let q = find2c(line, p + 2, ':', ' ');
        let value = line.subrange(p + 2, q);
        if key == "Content-Disposition"@ {
            let e0 = find2c(value, 0, ';', ' ');
            lemma_find2c_range(value, 0, ';', ' ');
            if value.subrange(0, e0) == "form-data"@ {
                let next = if e0 == value.len() {
                    e0
                } else {
                    e0 + 2
                };
                if 0 <= next <= value.len() {
                    lemma_cd_params_err_kind(value, next, st);
                }
            }
        }
    }
}

proof fn lemma_header_lines_err_kind(s: Seq<char>, i: int, st: SpecHeaderState)
    requires
        0 <= i <= s.len(),
    ensures
        spec_header_lines(s, i, st) matches Result::Err(e) ==> is_header_block_error(e),
    decreases s.len() - i,
{
    if i < s.len() {
        let e = find2c(s, i, '\r', '\n');
        lemma_find2c_range(s, i, '\r', '\n');
        let line = s.subrange(i, e);
        let next = if e == s.len() {
            e
        } else {
            e + 2
        };
        let folded = if line.len() == 0 {
            Result::<SpecHeaderState, MultipartError>::Ok(st)
        } else {
            spec_header_line(line, st)
        };
        if line.len() > 0 {
            lemma_header_line_err_kind(line, st);
        }
        match folded {
            Result::Err(_) => {},
            Result::Ok(st2) => {
                if i < next <= s.len() {
                    lemma_header_lines_err_kind(s, next, st2);
                }
            },
        }
    }
}

/// A header block fails only with a line-grammar error or a missing name.
pub proof fn lemma_header_block_err_kind(s: Seq<char>)
    ensures
        spec_parse_header_block(s) matches Result::Err(e) ==> is_header_block_error(e),
{
    let init = SpecHeaderState {
        name: Option::None,
        file_name: Option::None,
        content_type: Option::None,
    };
    lemma_header_lines_err_kind(s, 0, init);
}

/// One part's data and what follows it: the byte chunks up to the closing
/// `CRLF + boundary`, which is consumed, exactly as repeated `read_data`
/// calls on a finished stream yield them.
pub open spec fn spec_part_data(buf: Seq<u8>, pat: Seq<u8>) -> (Seq<u8>, Seq<u8>)
    decreases buf.len(),
{
    if buf.len() == 0 {
        (Seq::<u8>::empty(), Seq::<u8>::empty())
    } else {
        match first_match(buf, pat, 0) {
            Option::Some(m) => if m == 0 {
                if buf.len() >= 2 {
                    (Seq::<u8>::empty(), buf.subrange(2, buf.len() as int))
                } else {
                    (Seq::<u8>::empty(), Seq::<u8>::empty())
                }
            } else {
                if 0 < m <= buf.len() {
                    let next = spec_part_data(buf.subrange(m, buf.len() as int), pat);
                    (buf.subrange(0, m) + next.0, next.1)
                } else {
                    (Seq::<u8>::empty(), Seq::<u8>::empty())
                }
            },
            Option::None => (buf, Seq::<u8>::empty()),
        }
    }
}

/// What is left after a part is no longer than what the part started from.
pub proof fn lemma_part_data_bounds(buf: Seq<u8>, pat: Seq<u8>)
    ensures
        spec_part_data(buf, pat).1.len() <= buf.len(),
    decreases buf.len(),
{
    if buf.len() > 0 {
        lemma_first_match_range(buf, pat, 0);
    }
    if buf.len() > 0 {
        match first_match(buf, pat, 0) {
            Option::Some(m) => {
                if m != 0 && 0 < m <= buf.len() {
                    lemma_part_data_bounds(buf.subrange(m, buf.len() as int), pat);
                }
            },
            Option::None => {},
        }
    }
}

/// The parts of a finished form, read from `buf`: for each part, the header
/// between the boundary line and the empty line, and the concatenated data
/// up to the closing boundary; stopping cleanly where the stream runs out at
/// a boundary, and failing with `TooBig` once the data read exceeds the
/// remaining byte budget.
pub open spec fn spec_form_parts(buf: Seq<u8>, boundary: Seq<u8>, budget: int) -> Result<
    Seq<(SpecMultipartHeader, Seq<u8>)>,
    MultipartError,
>
    decreases buf.len(),
{
    let blen = boundary.len() as int;
    let need = 2 * (blen + 2);
    if buf.len() < need {
        Result::Ok(Seq::empty())
    } else if buf.subrange(0, blen) != boundary {
        Result::Err(MultipartError::BoundaryExpected)
    } else {
        match first_match(buf, crlf_crlf(), blen + 2) {
            Option::None => Result::Ok(Seq::empty()),
            Option::Some(m) => {
                let block = buf.subrange(blen + 2, m + 2);
                if !vstd::utf8::valid_utf8(block) {
                    Result::Err(MultipartError::HeaderUtf8Error)
                } else {
                    match spec_parse_header_block(vstd::utf8::decode_utf8(block)) {
                        Result::Err(e) => Result::Err(e),
                        Result::Ok(h) => {
                            let after = buf.subrange(m + 4, buf.len() as int);
                            let part = spec_part_data(after, seq![13u8, 10u8] + boundary);
                            if part.0.len() > budget {
                                Result::Err(MultipartError::TooBig)
                            } else if part.1.len() < buf.len() {
                                match spec_form_parts(part.1, boundary, budget - part.0.len()) {
                                    Result::Err(e2) => Result::Err(e2),
                                    Result::Ok(tail) => Result::Ok(seq![(h, part.0)] + tail),
                                }
                            } else {
                                Result::Ok(Seq::empty())
                            }
                        },
                    }
                }
            },
        }
    }
}

/// The ghost image of read chunks.
pub open spec fn chunks_view(chunks: Seq<(MultipartHeader, Vec<u8>)>) -> Seq<
    (SpecMultipartHeader, Seq<u8>),
> {
    chunks.map_values(|p: (MultipartHeader, Vec<u8>)| (p.0@, p.1@))
}

impl Multipart {
    /// Reads the next part's header: the boundary, a CRLF, the header lines
    /// and the closing empty line.  `NotEnoughData` is the end of the form;
    /// `NeedData` asks for another transport chunk.
    pub fn read_header(&mut self) -> (r: Result<Step<MultipartHeader>, MultipartError>)
        requires
            old(self).wf(),
        ensures
            final(self).wf(),
            final(self).boundary == old(self).boundary,
            final(self).max_size == old(self).max_size,
            final(self).read_size == old(self).read_size,
            final(self).eof == old(self).eof,
            ({
                let b = old(self).buf@;
                let blen = old(self).boundary@.len() as int;
                let need = 2 * (blen + 2);
                &&& (b.len() < need && !old(self).eof ==> (r matches Ok(Step::NeedData)) && final(self).buf == old(self).buf)
                &&& (b.len() < need && old(self).eof ==> r == Result::<
                    Step<MultipartHeader>,
                    MultipartError,
                >::Err(MultipartError::NotEnoughData) && final(self).buf == old(self).buf)
                &&& (b.len() >= need && b.subrange(0, blen) != old(self).boundary@ ==> r
                    == Result::<Step<MultipartHeader>, MultipartError>::Err(
                    MultipartError::BoundaryExpected,
                ) && final(self).buf == old(self).buf)
                &&& (b.len() >= need && b.subrange(0, blen) == old(self).boundary@ ==> match (
                first_match(b, crlf_crlf(), blen + 2)) {
                    Option::None => if old(self).eof {
                        r == Result::<Step<MultipartHeader>, MultipartError>::Err(
                            MultipartError::NotEnoughData,
                        ) && final(self).buf == old(self).buf
                    } else {
                        (r matches Ok(Step::NeedData)) && final(self).buf == old(self).buf
                    },
                    Option::Some(m) => {
                        let block = b.subrange(blen + 2, m + 2);
                        &&& blen + 2 <= m
                        &&& m + 4 <= b.len()
                        &&& 
                        (if !vstd::utf8::valid_utf8(block) {
                            r == Result::<Step<MultipartHeader>, MultipartError>::Err(
                                MultipartError::HeaderUtf8Error,
                            ) && final(self).buf@ == b.subrange(m + 2, b.len() as int)
                        } else {
                            match spec_parse_header_block(vstd::utf8::decode_utf8(block)) {
                                Result::Err(e) => r == Result::<
                                    Step<MultipartHeader>,
                                    MultipartError,
                                >::Err(e) && final(self).buf@ == b.subrange(m + 2, b.len() as int),
                                Result::Ok(h) => (r matches Ok(Step::Done(hdr)) && hdr@ == h)
                                    && final(self).buf@ == b.subrange(m + 4, b.len() as int),
                            }
                        })
                    },
                })
            }),
    {
        let blen = self.boundary.len();
        let need = 2 * (blen + 2);
        if self.buf.len() < need {
            if self.eof {
                return Err(MultipartError::NotEnoughData);
            }
            return Ok(Step::NeedData);
        }
        if !match_at(&self.buf, &self.boundary, 0) {
            proof {
                assert(old(self).buf@.subrange(0, self.boundary@.len() as int) != self.boundary@);
            }
            return Err(MultipartError::BoundaryExpected);
        }
        let mut pat4: Vec<u8> = Vec::new();
        pat4.push(13);
        pat4.push(10);
        pat4.push(13);
        pat4.push(10);
        proof {
            assert(pat4@ =~= crlf_crlf());
        }
        proof {
            lemma_first_match_range(self.buf@, crlf_crlf(), blen as int + 2);
        }
        let m = match find_sub(&self.buf, &pat4, blen + 2) {
            Some(m) => m,
            None => {
                if self.eof {
                    return Err(MultipartError::NotEnoughData);
                }
                return Ok(Step::NeedData);
            },
        };
        let block_bytes = bytes_range(&self.buf, blen + 2, m + 2);
        self.consume(m + 2);
        let block = match string_from_utf8(block_bytes) {
            Some(s) => s,
            None => {
                return Err(MultipartError::HeaderUtf8Error);
            },
        };
        let header = match parse_header_block(block.as_str()) {
            Ok(h) => h,
            Err(e) => {
                return Err(e);
            },
        };
        self.consume(2);
        proof {
            assert(self.buf@ =~= old(self).buf@.subrange(
                m + 4,
                old(self).buf@.len() as int,
            ));
        }
        Ok(Step::Done(header))
    }

    /// Reads the next chunk of the current part's data.  `Done(None)` ends
    /// the part, leaving the closing boundary at the front of the buffer.
    pub fn read_data(&mut self) -> (r: Step<Option<Vec<u8>>>)
        requires
            old(self).wf(),
        ensures
            final(self).wf(),
            final(self).boundary == old(self).boundary,
            final(self).max_size == old(self).max_size,
            final(self).read_size == old(self).read_size,
            final(self).eof == old(self).eof,
            ({
                let b = old(self).buf@;
                let pat = old(self).data_end_pat();
                &&& (b.len() == 0 && old(self).eof ==> (r matches Step::Done(d) && d is None)
                    && final(self).buf == old(self).buf)
                &&& (b.len() == 0 && !old(self).eof ==> (r matches Step::NeedData) && final(self).buf == old(self).buf)
                &&& (b.len() > 0 ==> match (first_match(b, pat, 0)) {
                    Option::Some(m) => if m == 0 {
                        (r matches Step::Done(d) && d is None) && final(self).buf@ == b.subrange(
                            2,
                            b.len() as int,
                        ) && 2 <= b.len()
                    } else {
                        (r matches Step::Done(d) && d matches Some(bytes) && bytes@ == b.subrange(
                            0,
                            m,
                        )) && final(self).buf@ == b.subrange(m, b.len() as int) && 0 < m
                            && m + pat.len() <= b.len()
                    },
                    Option::None => (r matches Step::Done(d) && d matches Some(bytes) && bytes@
                        == b) && final(self).buf@.len() == 0,
                })
            }),
    {
        if self.buf.len() == 0 {
            if self.eof {
                return Step::Done(None);
            }
            return Step::NeedData;
        }
        let mut pat: Vec<u8> = Vec::new();
        pat.push(13);
        pat.push(10);
        let mut k: usize = 0;
        let bl = self.boundary.len();
        while k < bl
            invariant
                k <= bl,
                bl == self.boundary@.len(),
                pat@ =~= seq![13u8, 10u8] + self.boundary@.subrange(0, k as int),
                *self == *old(self),
            decreases bl - k,
        {
            let byte = self.boundary[k];
            pat.push(byte);
            k = k + 1;
            proof {
                assert(pat@ =~= seq![13u8, 10u8] + self.boundary@.subrange(0, k as int));
            }
        }
        proof {
            assert(self.boundary@.subrange(0, self.boundary@.len() as int) =~= self.boundary@);
            assert(pat@ =~= old(self).data_end_pat());
        }
        match find_sub(&self.buf, &pat, 0) {
            Some(0) => {
                self.consume(2);
                Step::Done(None)
            },
            Some(m) => {
                let bytes = bytes_range(&self.buf, 0, m);
                self.consume(m);
                Step::Done(Some(bytes))
            },
            None => {
                let bytes = bytes_range(&self.buf, 0, self.buf.len());
                self.consume(self.buf.len());
                proof {
                    assert(bytes@ =~= old(self).buf@);
                }
                Step::Done(Some(bytes))
            },
        }
    }

    /// Reads the whole buffered form into memory: one (header, data) pair
    /// per part, in stream order, under the total-size cap.
    #[verifier::rlimit(100)]
    #[verifier::spinoff_prover]
    pub fn read_all_chunks(&mut self) -> (r: Result<
        Vec<(MultipartHeader, Vec<u8>)>,
        MultipartError,
    >)
        requires
            old(self).wf(),
            old(self).eof,
        ensures
            final(self).wf(),
            final(self).eof,
            final(self).max_size == old(self).max_size,
            final(self).boundary == old(self).boundary,
            ({
                let spec_r = spec_form_parts(
                    old(self).buf@,
                    old(self).boundary@,
                    old(self).max_size - old(self).read_size,
                );
                match r {
                    Result::Ok(chunks) => spec_r == Result::<
                        Seq<(SpecMultipartHeader, Seq<u8>)>,
                        MultipartError,
                    >::Ok(chunks_view(chunks@)) && final(self).read_size as int == old(
                        self,
                    ).read_size + total_size(chunks@),
                    Result::Err(e) => spec_r == Result::<
                        Seq<(SpecMultipartHeader, Seq<u8>)>,
                        MultipartError,
                    >::Err(e),
                }
            }),
    {
        let ghost budget0 = old(self).max_size - old(self).read_size;
        let mut chunks: Vec<(MultipartHeader, Vec<u8>)> = Vec::new();
        loop
            invariant
                self.wf(),
                self.eof,
                self.max_size == old(self).max_size,
                self.boundary == old(self).boundary,
                self.read_size as int == old(self).read_size + total_size(chunks@),
                budget0 == old(self).max_size - old(self).read_size,
                spec_form_parts(old(self).buf@, old(self).boundary@, budget0) == (
                match spec_form_parts(
                    self.buf@,
                    self.boundary@,
                    self.max_size - self.read_size,
                ) {
                    Result::Ok(tail) => Result::<
                        Seq<(SpecMultipartHeader, Seq<u8>)>,
                        MultipartError,
                    >::Ok(chunks_view(chunks@) + tail),
                    Result::Err(e) => Result::Err(e),
                }),
            decreases self.buf@.len(),
        {
            let ghost start_buf = self.buf@;
            let ghost budget_now = self.max_size - self.read_size as int;
            let ghost blen = self.boundary@.len() as int;
            let ghost need = 2 * (blen + 2);
            let header = match self.read_header() {
                Ok(Step::Done(h)) => h,
                Ok(Step::NeedData) => {
                    proof {
                        assert(false);
                    }
                    return Err(MultipartError::NotEnoughData);
                },
                Err(MultipartError::NotEnoughData) => {
                    proof {
                        if start_buf.len() >= need && start_buf.subrange(0, blen)
                            == old(self).boundary@ {
                            match first_match(start_buf, crlf_crlf(), blen + 2) {
                                Option::None => {},
                                Option::Some(m) => {
                                    let block = start_buf.subrange(blen + 2, m + 2);
                                    if vstd::utf8::valid_utf8(block) {
                                        lemma_header_block_err_kind(
                                            vstd::utf8::decode_utf8(block),
                                        );
                                        assert(false);
                                    } else {
                                        assert(false);
                                    }
                                },
                            }
                        }
                        assert(spec_form_parts(start_buf, old(self).boundary@, budget_now)
                            == Result::<
                            Seq<(SpecMultipartHeader, Seq<u8>)>,
                            MultipartError,
                        >::Ok(Seq::empty()));
                        assert(chunks_view(chunks@) + Seq::<
                            (SpecMultipartHeader, Seq<u8>),
                        >::empty() =~= chunks_view(chunks@));
                    }
                    return Ok(chunks);
                },
                Err(e) => {
                    proof {
                        assert(spec_form_parts(start_buf, old(self).boundary@, budget_now)
                            == Result::<
                            Seq<(SpecMultipartHeader, Seq<u8>)>,
                            MultipartError,
                        >::Err(e));
                    }
                    return Err(e);
                },
            };
            proof {
                assert(self.buf@.len() < start_buf.len());
            }
            let ghost m = first_match(start_buf, crlf_crlf(), blen + 2)->0;
            let ghost after = self.buf@;
            let ghost pat = seq![13u8, 10u8] + self.boundary@;
            let ghost d_full = spec_part_data(after, pat).0;
            let ghost rest_full = spec_part_data(after, pat).1;
            let ghost h_spec = header@;
            proof {
                lemma_part_data_bounds(after, pat);
                assert(rest_full.len() < start_buf.len());
                assert(spec_form_parts(start_buf, old(self).boundary@, budget_now) == (
                if d_full.len() > budget_now {
                    Result::<Seq<(SpecMultipartHeader, Seq<u8>)>, MultipartError>::Err(
                        MultipartError::TooBig,
                    )
                } else {
                    match spec_form_parts(
                        rest_full,
                        old(self).boundary@,
                        budget_now - d_full.len(),
                    ) {
                        Result::Ok(tail) => Result::<
                            Seq<(SpecMultipartHeader, Seq<u8>)>,
                            MultipartError,
                        >::Ok(seq![(h_spec, d_full)] + tail),
                        Result::Err(e2) => Result::Err(e2),
                    }
                }));
            }
            let mut chunk_data: Vec<u8> = Vec::new();
            loop
                invariant_except_break
                    d_full == chunk_data@ + spec_part_data(self.buf@, pat).0,
                    rest_full == spec_part_data(self.buf@, pat).1,
                invariant
                    self.wf(),
                    self.eof,
                    self.max_size == old(self).max_size,
                    self.boundary == old(self).boundary,
                    pat == seq![13u8, 10u8] + self.boundary@,
                    self.read_size as int == old(self).read_size + total_size(chunks@)
                        + chunk_data@.len(),
                    budget_now == self.max_size - (old(self).read_size + total_size(chunks@)),
                    budget0 == old(self).max_size - old(self).read_size,
                    self.buf@.len() <= after.len(),
                    after.len() < start_buf.len(),
                    rest_full.len() < start_buf.len(),
                    spec_form_parts(old(self).buf@, old(self).boundary@, budget0) == (
                    match spec_form_parts(start_buf, old(self).boundary@, budget_now) {
                        Result::Ok(tail) => Result::<
                            Seq<(SpecMultipartHeader, Seq<u8>)>,
                            MultipartError,
                        >::Ok(chunks_view(chunks@) + tail),
                        Result::Err(e) => Result::Err(e),
                    }),
                    spec_form_parts(start_buf, old(self).boundary@, budget_now) == (
                    if d_full.len() > budget_now {
                        Result::<Seq<(SpecMultipartHeader, Seq<u8>)>, MultipartError>::Err(
                            MultipartError::TooBig,
                        )
                    } else {
                        match spec_form_parts(
                            rest_full,
                            old(self).boundary@,
                            budget_now - d_full.len(),
                        ) {
                            Result::Ok(tail) => Result::<
                                Seq<(SpecMultipartHeader, Seq<u8>)>,
                                MultipartError,
                            >::Ok(seq![(h_spec, d_full)] + tail),
                            Result::Err(e2) => Result::Err(e2),
                        }
                    }),
                ensures
                    self.wf(),
                    self.eof,
                    self.max_size == old(self).max_size,
                    self.boundary == old(self).boundary,
                    self.read_size as int == old(self).read_size + total_size(chunks@)
                        + chunk_data@.len(),
                    budget_now == self.max_size - (old(self).read_size + total_size(chunks@)),
                    self.buf@.len() <= after.len(),
                    after.len() < start_buf.len(),
                    d_full == chunk_data@,
                    rest_full == self.buf@,
                decreases self.buf@.len(),
            {
                let ghost cur = self.buf@;
                let chunk = match self.read_data() {
                    Step::Done(Some(c)) => c,
                    Step::Done(None) => {
                        proof {
                            if cur.len() > 0 {
                                assert(spec_part_data(cur, pat).0 =~= Seq::<u8>::empty());
                            } else {
                                assert(spec_part_data(cur, pat).0 =~= Seq::<u8>::empty());
                                assert(spec_part_data(cur, pat).1 =~= Seq::<u8>::empty());
                            }
                            assert(d_full =~= chunk_data@);
                        }
                        break;
                    },
                    Step::NeedData => {
                        proof {
                            assert(false);
                        }
                        return Err(MultipartError::NotEnoughData);
                    },
                };
                proof {
                    if cur.len() > 0 {
                        match first_match(cur, pat, 0) {
                            Option::Some(k) => {
                                assert(k != 0);
                                assert(spec_part_data(cur, pat).0 == cur.subrange(0, k)
                                    + spec_part_data(cur.subrange(k, cur.len() as int), pat).0);
                                assert(spec_part_data(cur, pat).0.len() >= chunk@.len());
                            },
                            Option::None => {
                                assert(spec_part_data(cur, pat).0 == cur);
                            },
                        }
                    }
                    assert(d_full.len() >= chunk_data@.len() + chunk@.len());
                }
                if chunk.len() > self.max_size - self.read_size {
                    proof {
                        assert(d_full.len() > budget_now);
                        assert(spec_form_parts(start_buf, old(self).boundary@, budget_now)
                            == Result::<
                            Seq<(SpecMultipartHeader, Seq<u8>)>,
                            MultipartError,
                        >::Err(MultipartError::TooBig));
                    }
                    return Err(MultipartError::TooBig);
                }
                if chunk.len() == 0 {
                    proof {
                        assert(false);
                    }
                    return Err(MultipartError::NotEnoughData);
                }
                self.read_size = self.read_size + chunk.len();
                let ghost data0 = chunk_data@;
                let mut i: usize = 0;
                let n = chunk.len();
                while i < n
                    invariant
                        i <= n,
                        n == chunk@.len(),
                        chunk_data@ =~= data0 + chunk@.subrange(0, i as int),
                    decreases n - i,
                {
                    let byte = chunk[i];
                    chunk_data.push(byte);
                    i = i + 1;
                    proof {
                        assert(chunk_data@ =~= data0 + chunk@.subrange(0, i as int));
                    }
                }
                proof {
                    assert(chunk@.subrange(0, n as int) =~= chunk@);
                    assert(chunk_data@ == data0 + chunk@);
                    if cur.len() > 0 {
                        match first_match(cur, pat, 0) {
                            Option::Some(k) => {
                                assert(d_full =~= chunk_data@ + spec_part_data(
                                    self.buf@,
                                    pat,
                                ).0);
                            },
                            Option::None => {
                                assert(spec_part_data(self.buf@, pat).0 =~= Seq::<u8>::empty());
                                assert(d_full =~= chunk_data@ + spec_part_data(
                                    self.buf@,
                                    pat,
                                ).0);
                            },
                        }
                    }
                }
            }
            proof {
                assert(d_full.len() <= budget_now);
            }
            let ghost old_chunks = chunks@;
            let ghost data_len = chunk_data@.len();
            chunks.push((header, chunk_data));
            proof {
                assert(chunks@.drop_last() =~= old_chunks);
                assert(total_size(chunks@) == total_size(old_chunks) + data_len);
                assert(chunks_view(chunks@) =~= chunks_view(old_chunks) + seq![(h_spec, d_full)]);
                match spec_form_parts(rest_full, old(self).boundary@, budget_now - d_full.len()) {
                    Result::Ok(tail) => {
                        assert(chunks_view(old_chunks) + (seq![(h_spec, d_full)] + tail)
                            =~= chunks_view(chunks@) + tail);
                    },
                    Result::Err(_) => {},
                }
            }
        }
    }
}

} // verus!
// The user-facing texts of the form-reading errors.
verus! {

pub open spec fn spec_multipart_error_message(e: MultipartError) -> Seq<char> {
    match e {
        MultipartError::NotEnoughData => "Not enough data"@,
        MultipartError::BoundaryExpected => "Boundary not present when expected"@,
        MultipartError::HeaderUtf8Error => "Multipart header must contain valid utf8 data"@,
        MultipartError::MalformedForm => "Form must be encoded in `key: value` format"@,
        MultipartError::ContentDispositionInvalidType => "Content-Disposition must be set to form-data"@,
        MultipartError::ContentDispositionInvalidFormat => "Content-Disposition must have fields in `key=\"value\";` format"@,
        MultipartError::NameNotFound => "Field `name` must be set in Content-Disposition"@,
        MultipartError::FileNameNotFound => "Field `filename` must be set in Content-Disposition"@,
        MultipartError::TooBig => "Request too big"@,
    }
}

impl MultipartError {
    /// The user-facing message for this error.
    pub fn message(&self) -> (s: String)
        ensures
            s@ == spec_multipart_error_message(*self),
    {
        match self {
            MultipartError::NotEnoughData => {
                let t = "Not enough data";
                t.to_owned()
            },
            MultipartError::BoundaryExpected => {
                let t = "Boundary not present when expected";
                t.to_owned()
            },
            MultipartError::HeaderUtf8Error => {
                let t = "Multipart header must contain valid utf8 data";
                t.to_owned()
            },
            MultipartError::MalformedForm => {
                let t = "Form must be encoded in `key: value` format";
                t.to_owned()
            },
            MultipartError::ContentDispositionInvalidType => {
                let t = "Content-Disposition must be set to form-data";
                t.to_owned()
            },
            MultipartError::ContentDispositionInvalidFormat => {
                let t = "Content-Disposition must have fields in `key=\"value\";` format";
                t.to_owned()
            },
            MultipartError::NameNotFound => {
                let t = "Field `name` must be set in Content-Disposition";
                t.to_owned()
            },
            MultipartError::FileNameNotFound => {
                let t = "Field `filename` must be set in Content-Disposition";
                t.to_owned()
            },
            MultipartError::TooBig => {
                let t = "Request too big";
                t.to_owned()
            },
        }
    }
}

} // verus!
