//! Core logic of a small self-hosted file-transfer service.
//!
//! Uploaded files are tracked as entries in an in-memory database; each entry
//! carries a download budget, a lifetime, a visibility and an optional
//! password, and is evicted once any of those constraints is violated.
//! This crate holds the verified parts: the data model, the parsers for the
//! custom headers, cookies and multipart bodies, the database operations,
//! the eviction predicates and the per-route decision logic.
use vstd::prelude::*;

pub mod account;
pub mod cleanup;
pub mod cookie;
pub mod db;
pub mod db_stuff;
pub mod delete;
pub mod digits;
pub mod download;
pub mod files;
pub mod headers;
pub mod laws;
pub mod list;
pub mod logger;
pub mod multipart;
pub mod outside;
pub mod strutil;
pub mod upload;
pub mod uuid_text;

pub mod error;

verus! {

use crate::db_stuff::Uuid;

/// The in-memory session table: session token to account UUID, filled at
/// login and lost on restart.
pub struct AuthorizedUsers {
    pub sessions: Vec<(Uuid, Uuid)>,
}

impl AuthorizedUsers {
    pub fn new() -> (a: AuthorizedUsers)
        ensures
            a.sessions@.len() == 0,
    {
        AuthorizedUsers { sessions: Vec::new() }
    }

    /// The account a session token resolves to.
    pub fn get_user_uuid(&self, session_uuid: &Uuid) -> (r: Option<Uuid>)
        ensures
            r == crate::db::entry_get(self.sessions@, *session_uuid),
    {
        let n = self.sessions.len();
        let mut i: usize = 0;
        while i < n
            invariant
                i <= n,
                n == self.sessions@.len(),
                forall|j: int| 0 <= j < i ==> (#[trigger] self.sessions@[j]).0 != *session_uuid,
            decreases n - i,
        {
            if self.sessions[i].0 == *session_uuid {
                proof {
                    crate::db::lemma_entry_get_skip(self.sessions@, *session_uuid, i as int);
                }
                return Some(self.sessions[i].1);
            }
            i = i + 1;
        }
        proof {
            crate::db::lemma_entry_get_skip(self.sessions@, *session_uuid, n as int);
        }
        None
    }

    /// Binds a session token to an account.
    pub fn insert(&mut self, session_uuid: Uuid, account_uuid: Uuid)
        ensures
            final(self).sessions@ == old(self).sessions@.push((session_uuid, account_uuid)),
            crate::db::entry_get(final(self).sessions@, session_uuid) == (if crate::db::entry_get(
                old(self).sessions@,
                session_uuid,
            ) is Some {
                crate::db::entry_get(old(self).sessions@, session_uuid)
            } else {
                Option::Some(account_uuid)
            }),
            forall|k: Uuid|
                k != session_uuid ==> #[trigger] crate::db::entry_get(final(self).sessions@, k)
                    == crate::db::entry_get(old(self).sessions@, k),
    {
        proof {
            crate::db::lemma_entry_get_push(
                self.sessions@,
                session_uuid,
                account_uuid,
                session_uuid,
            );
            assert forall|k: Uuid| k != session_uuid implies #[trigger] crate::db::entry_get(
                self.sessions@.push((session_uuid, account_uuid)),
                k,
            ) == crate::db::entry_get(self.sessions@, k) by {
                crate::db::lemma_entry_get_push(self.sessions@, session_uuid, account_uuid, k);
            }
        }
        self.sessions.push((session_uuid, account_uuid));
    }
}

/// The segments of a URI path, in order: what stands between the slashes,
/// with empty segments dropped.
pub open spec fn spec_path_segments(s: Seq<char>, i: int) -> Seq<Seq<char>>
    recommends
        0 <= i <= s.len(),
    decreases s.len() - i,
    when 0 <= i <= s.len()
{
    if i >= s.len() {
        Seq::empty()
    } else if s[i] == '/' {
        spec_path_segments(s, i + 1)
    } else {
        let e = seg_end(s, i);
        if i < e <= s.len() {
            seq![s.subrange(i, e)] + spec_path_segments(s, e)
        } else {
            Seq::empty()
        }
    }
}

/// First `/` at or after `i`, or the length.
pub open spec fn seg_end(s: Seq<char>, i: int) -> int
    recommends
        0 <= i <= s.len(),
    decreases s.len() - i,
    when 0 <= i <= s.len()
{
    if i >= s.len() || s[i] == '/' {
        i
    } else {
        seg_end(s, i + 1)
    }
}

proof fn lemma_seg_end_range(s: Seq<char>, i: int)
    requires
        0 <= i <= s.len(),
    ensures
        i <= seg_end(s, i) <= s.len(),
        seg_end(s, i) < s.len() ==> s[seg_end(s, i)] == '/',
    decreases s.len() - i,
{
    if i < s.len() && s[i] != '/' {
        lemma_seg_end_range(s, i + 1);
    }
}

/// Splits a URI path on `/`, dropping empty segments.
pub fn split_uri_path(path: &str) -> (segments: Vec<String>)
    ensures
        segments@.map_values(|p: String| p@) == spec_path_segments(path@, 0),
{
    let len: usize = path.unicode_len();
    let mut segments: Vec<String> = Vec::new();
    let mut i: usize = 0;
    while i < len
        invariant
            i <= len,
            len == path@.len(),
            spec_path_segments(path@, 0) == segments@.map_values(|p: String| p@)
                + spec_path_segments(path@, i as int),
        decreases len - i,
    {
        let ghost i0 = i as int;
        let ghost segs0 = segments@;
        if path.get_char(i) == '/' {
            i = i + 1;
            proof {
                assert(spec_path_segments(path@, i0) == spec_path_segments(path@, i as int));
            }
        } else {
            proof {
                lemma_seg_end_range(path@, i as int);
            }
            let mut e: usize = i;
            while e < len && path.get_char(e) != '/'
                invariant
                    i <= e <= len,
                    len == path@.len(),
                    seg_end(path@, i as int) == seg_end(path@, e as int),
                decreases len - e,
            {
                e = e + 1;
            }
            segments.push(path.substring_char(i, e).to_owned());
            proof {
                assert(segments@.map_values(|p: String| p@) =~= segs0.map_values(|p: String| p@)
                    + seq![path@.subrange(i0, e as int)]);
                assert(spec_path_segments(path@, i0) == seq![path@.subrange(i0, e as int)]
                    + spec_path_segments(path@, e as int));
                assert(segs0.map_values(|p: String| p@) + spec_path_segments(path@, i0)
                    =~= segments@.map_values(|p: String| p@) + spec_path_segments(
                    path@,
                    e as int,
                ));
            }
            i = e;
        }
    }
    segments
}

/// The `key=value` pairs of a URI query string, split on `&`; a pair
/// without `=` carries an empty value.
pub open spec fn spec_query_pairs(s: Seq<char>, i: int) -> Seq<(Seq<char>, Seq<char>)>
    recommends
        0 <= i <= s.len(),
    decreases s.len() - i,
    when 0 <= i <= s.len()
{
    if i >= s.len() {
        Seq::empty()
    } else {
        let e = amp_end(s, i);
        let piece = s.subrange(i, e);
        let eq = crate::multipart::find_eq(piece, 0);
        let pair = if eq == piece.len() {
            (piece, Seq::<char>::empty())
        } else {
            (piece.subrange(0, eq), piece.subrange(eq + 1, piece.len() as int))
        };
        let next = if e == s.len() {
            e
        } else {
            e + 1
        };
        if i < next <= s.len() {
            seq![pair] + spec_query_pairs(s, next)
        } else {
            seq![pair]
        }
    }
}

/// First `&` at or after `i`, or the length.
pub open spec fn amp_end(s: Seq<char>, i: int) -> int
    recommends
        0 <= i <= s.len(),
    decreases s.len() - i,
    when 0 <= i <= s.len()
{
    if i >= s.len() || s[i] == '&' {
        i
    } else {
        amp_end(s, i + 1)
    }
}

proof fn lemma_amp_end_range(s: Seq<char>, i: int)
    requires
        0 <= i <= s.len(),
    ensures
        i <= amp_end(s, i) <= s.len(),
        amp_end(s, i) < s.len() ==> s[amp_end(s, i)] == '&',
    decreases s.len() - i,
{
    if i < s.len() && s[i] != '&' {
        lemma_amp_end_range(s, i + 1);
    }
}

/// Splits a URI query string into its `key=value` pairs.
pub fn uri_query_iter(query: &str) -> (pairs: Vec<(String, String)>)
    ensures
        pairs@.map_values(|p: (String, String)| (p.0@, p.1@)) == spec_query_pairs(query@, 0),
{
    let len: usize = query.unicode_len();
    let mut pairs: Vec<(String, String)> = Vec::new();
    let mut i: usize = 0;
    while i < len
        invariant
            i <= len,
            len == query@.len(),
            spec_query_pairs(query@, 0) == pairs@.map_values(|p: (String, String)| (p.0@, p.1@))
                + spec_query_pairs(query@, i as int),
        decreases len - i,
    {
        let ghost i0 = i as int;
        let ghost pairs0 = pairs@;
        proof {
            lemma_amp_end_range(query@, i as int);
        }
        let mut e: usize = i;
        while e < len && query.get_char(e) != '&'
            invariant
                i <= e <= len,
                len == query@.len(),
                amp_end(query@, i as int) == amp_end(query@, e as int),
            decreases len - e,
        {
            e = e + 1;
        }
        let piece = query.substring_char(i, e);
        let eq = crate::multipart::exec_find_eq(piece, 0);
        let plen: usize = piece.unicode_len();
        let pair: (String, String) = if eq == plen {
            (piece.to_owned(), String::new())
        } else {
            (
                piece.substring_char(0, eq).to_owned(),
                piece.substring_char(eq + 1, plen).to_owned(),
            )
        };
        pairs.push(pair);
        let next = if e == len {
            e
        } else {
            e + 1
        };
        proof {
            assert(pairs@.map_values(|p: (String, String)| (p.0@, p.1@)) =~= pairs0.map_values(
                |p: (String, String)| (p.0@, p.1@),
            ) + seq![(pairs@.last().0@, pairs@.last().1@)]);
            assert(spec_query_pairs(query@, i0) == seq![(pairs@.last().0@, pairs@.last().1@)]
                + spec_query_pairs(query@, next as int));
            assert(pairs0.map_values(|p: (String, String)| (p.0@, p.1@)) + spec_query_pairs(
                query@,
                i0,
            ) =~= pairs@.map_values(|p: (String, String)| (p.0@, p.1@)) + spec_query_pairs(
                query@,
                next as int,
            ));
        }
        i = next;
    }
    pairs
}

/// First value for a key among query pairs.
pub open spec fn query_lookup(pairs: Seq<(Seq<char>, Seq<char>)>, key: Seq<char>) -> Option<
    Seq<char>,
>
    decreases pairs.len(),
{
    if pairs.len() == 0 {
        Option::None
    } else if pairs[0].0 == key {
        Option::Some(pairs[0].1)
    } else {
        query_lookup(pairs.drop_first(), key)
    }
}

/// First value for a key in a query pair list.
pub fn query_get<'a>(pairs: &'a Vec<(String, String)>, key: &str) -> (r: Option<&'a String>)
    ensures
        match r {
            Option::Some(v) => query_lookup(
                pairs@.map_values(|p: (String, String)| (p.0@, p.1@)),
                key@,
            ) == Option::Some(v@),
            Option::None => query_lookup(
                pairs@.map_values(|p: (String, String)| (p.0@, p.1@)),
                key@,
            ) is None,
        },
{
    let n = pairs.len();
    let mut i: usize = 0;
    proof {
        let pv = pairs@.map_values(|p: (String, String)| (p.0@, p.1@));
        assert(pv.subrange(0, n as int) =~= pv);
    }
    while i < n
        invariant
            i <= n,
            n == pairs@.len(),
            query_lookup(pairs@.map_values(|p: (String, String)| (p.0@, p.1@)), key@)
                == query_lookup(
                pairs@.map_values(|p: (String, String)| (p.0@, p.1@)).subrange(
                    i as int,
                    n as int,
                ),
                key@,
            ),
        decreases n - i,
    {
        let ghost pv = pairs@.map_values(|p: (String, String)| (p.0@, p.1@));
        proof {
            assert(pv.subrange(i as int, n as int)[0] == pv[i as int]);
        }
        if crate::strutil::str_eq(pairs[i].0.as_str(), key) {
            return Some(&pairs[i].1);
        }
        i = i + 1;
        proof {
            assert(pv.subrange(i as int - 1, n as int).drop_first() =~= pv.subrange(
                i as int,
                n as int,
            ));
        }
    }
    proof {
        let pv = pairs@.map_values(|p: (String, String)| (p.0@, p.1@));
        assert(pv.subrange(n as int, n as int) =~= Seq::<(Seq<char>, Seq<char>)>::empty());
    }
    None
}

} // verus!
