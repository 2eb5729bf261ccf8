//! The eviction engine: one pass over the entry map, removing entries whose
//! download budget is exhausted or whose lifetime elapsed.  The same two
//! predicates gate downloads and listing, so a client never observes an
//! entry past its boundary even between passes.
use vstd::prelude::*;

use crate::db::{entry_get, keys_unique, Db};
use crate::db_stuff::{FileEntry, Uuid};
use crate::headers::{DownloadCount, Lifetime};

verus! {

/// The download budget is used up.
pub open spec fn spec_exhausted(e: FileEntry) -> bool {
    e.download_count_type matches DownloadCount::Count(n) && e.download_count >= n
}

/// The absolute lifetime has elapsed at `now` (milliseconds).
pub open spec fn spec_expired(e: FileEntry, now: u64) -> bool {
    e.lifetime matches Lifetime::Duration(d) && now > e.upload_date + d
}

pub open spec fn spec_evicted(e: FileEntry, now: u64) -> bool {
    spec_exhausted(e) || spec_expired(e, now)
}

/// Whether the entry's download budget is used up.
pub fn is_exhausted(e: &FileEntry) -> (r: bool)
    ensures
        r == spec_exhausted(*e),
{
    match e.download_count_type {
        DownloadCount::Count(n) => e.download_count >= n,
        DownloadCount::Infinite => false,
    }
}

/// Whether the entry's lifetime has elapsed at `now` (milliseconds).
pub fn is_expired(e: &FileEntry, now: u64) -> (r: bool)
    ensures
        r == spec_expired(*e, now),
{
    match e.lifetime {
        Lifetime::Duration(d) => {
            if d > u64::MAX - e.upload_date {
                false
            } else {
                now > e.upload_date + d
            }
        },
        Lifetime::Infinite => false,
    }
}

/// The entries that survive an eviction pass at `now`, in order.
pub open spec fn keep_entries(s: Seq<(Uuid, FileEntry)>, now: u64) -> Seq<(Uuid, FileEntry)>
    decreases s.len(),
{
    if s.len() == 0 {
        Seq::empty()
    } else if spec_evicted(s[0].1, now) {
        keep_entries(s.drop_first(), now)
    } else {
        seq![s[0]] + keep_entries(s.drop_first(), now)
    }
}

/// The entries an eviction pass removes at `now`, in order.
pub open spec fn evicted_entries(s: Seq<(Uuid, FileEntry)>, now: u64) -> Seq<(Uuid, FileEntry)>
    decreases s.len(),
{
    if s.len() == 0 {
        Seq::empty()
    } else if spec_evicted(s[0].1, now) {
        seq![s[0]] + evicted_entries(s.drop_first(), now)
    } else {
        evicted_entries(s.drop_first(), now)
    }
}

proof fn lemma_entry_get_none<V>(s: Seq<(Uuid, V)>, k: Uuid)
    requires
        forall|j: int| 0 <= j < s.len() ==> (#[trigger] s[j]).0 != k,
    ensures
        entry_get(s, k) is None,
    decreases s.len(),
{
    if s.len() > 0 {
        lemma_entry_get_none(s.drop_first(), k);
    }
}

/// Every binding of the kept sequence comes from the original.
proof fn lemma_keep_entries_sub(s: Seq<(Uuid, FileEntry)>, now: u64)
    ensures
        forall|j: int|
            0 <= j < keep_entries(s, now).len() ==> exists|j0: int|
                0 <= j0 < s.len() && s[j0] == #[trigger] keep_entries(s, now)[j],
        keep_entries(s, now).len() <= s.len(),
    decreases s.len(),
{
    if s.len() > 0 {
        lemma_keep_entries_sub(s.drop_first(), now);
        assert forall|j: int| 0 <= j < keep_entries(s, now).len() implies exists|j0: int|
            0 <= j0 < s.len() && s[j0] == #[trigger] keep_entries(s, now)[j] by {
            let t = keep_entries(s.drop_first(), now);
            if spec_evicted(s[0].1, now) {
                let j0 = choose|j0: int|
                    0 <= j0 < s.drop_first().len() && s.drop_first()[j0] == t[j];
                assert(s[j0 + 1] == keep_entries(s, now)[j]);
            } else {
                if j == 0 {
                    assert(s[0] == keep_entries(s, now)[0]);
                } else {
                    let j0 = choose|j0: int|
                        0 <= j0 < s.drop_first().len() && s.drop_first()[j0] == t[j - 1];
                    assert(s[j0 + 1] == keep_entries(s, now)[j]);
                }
            }
        }
    }
}

/// What a lookup sees after an eviction pass: evicted keys are gone, the
/// rest are untouched.
pub proof fn lemma_keep_entries_get(s: Seq<(Uuid, FileEntry)>, now: u64, k: Uuid)
    requires
        keys_unique(s),
    ensures
        entry_get(keep_entries(s, now), k) == (match entry_get(s, k) {
            Option::Some(e) => if spec_evicted(e, now) {
                Option::<FileEntry>::None
            } else {
                Option::Some(e)
            },
            Option::None => Option::<FileEntry>::None,
        }),
    decreases s.len(),
{
    if s.len() > 0 {
        assert(keys_unique(s.drop_first()));
        lemma_keep_entries_get(s.drop_first(), now, k);
        if s[0].0 == k {
            if spec_evicted(s[0].1, now) {
                assert(forall|j: int|
                    0 <= j < s.drop_first().len() ==> (#[trigger] s.drop_first()[j]).0 != k);
                lemma_entry_get_none(s.drop_first(), k);
            } else {
                assert(keep_entries(s, now)[0] == s[0]);
                assert(keep_entries(s, now).drop_first() =~= keep_entries(s.drop_first(), now));
            }
        } else {
            if !spec_evicted(s[0].1, now) {
                assert(keep_entries(s, now)[0] == s[0]);
                assert(keep_entries(s, now).drop_first() =~= keep_entries(s.drop_first(), now));
            }
        }
    }
}

/// The kept sequence still has unique keys.
pub proof fn lemma_keep_entries_unique(s: Seq<(Uuid, FileEntry)>, now: u64)
    requires
        keys_unique(s),
    ensures
        keys_unique(keep_entries(s, now)),
    decreases s.len(),
{
    if s.len() > 0 {
        assert(keys_unique(s.drop_first()));
        lemma_keep_entries_unique(s.drop_first(), now);
        if !spec_evicted(s[0].1, now) {
            let t = keep_entries(s, now);
            assert(t[0] == s[0]);
            assert(t.drop_first() =~= keep_entries(s.drop_first(), now));
            lemma_keep_entries_sub(s.drop_first(), now);
            assert forall|i: int, j: int| 0 <= i < j < t.len() implies (#[trigger] t[i]).0 != (
            #[trigger] t[j]).0 by {
                if i == 0 {
                    let tj = t.drop_first()[j - 1];
                    let j0 = choose|j0: int|
                        0 <= j0 < s.drop_first().len() && s.drop_first()[j0] == tj;
                    assert(s[j0 + 1] == tj);
                    assert(s[0].0 != s[j0 + 1].0);
                } else {
                    assert(t[i] == t.drop_first()[i - 1]);
                    assert(t[j] == t.drop_first()[j - 1]);
                }
            }
        }
    }
}

/// Extending the scanned prefix by one entry.
proof fn lemma_keep_entries_push(s: Seq<(Uuid, FileEntry)>, x: (Uuid, FileEntry), now: u64)
    ensures
        keep_entries(s.push(x), now) == keep_entries(s, now) + (if spec_evicted(x.1, now) {
            Seq::<(Uuid, FileEntry)>::empty()
        } else {
            seq![x]
        }),
        evicted_entries(s.push(x), now) == evicted_entries(s, now) + (if spec_evicted(x.1, now) {
            seq![x]
        } else {
            Seq::<(Uuid, FileEntry)>::empty()
        }),
    decreases s.len(),
{
    let t = s.push(x);
    if s.len() == 0 {
        assert(t[0] == x);
        let e0 = t.drop_first();
        assert(e0 =~= Seq::<(Uuid, FileEntry)>::empty());
        assert(keep_entries(e0, now) =~= Seq::<(Uuid, FileEntry)>::empty());
        assert(evicted_entries(e0, now) =~= Seq::<(Uuid, FileEntry)>::empty());
        if spec_evicted(x.1, now) {
            assert(keep_entries(t, now) =~= keep_entries(s, now));
            assert(evicted_entries(t, now) =~= evicted_entries(s, now) + seq![x]);
        } else {
            assert(keep_entries(t, now) =~= keep_entries(s, now) + seq![x]);
            assert(evicted_entries(t, now) =~= evicted_entries(s, now));
        }
    } else {
        assert(t[0] == s[0]);
        assert(t.drop_first() =~= s.drop_first().push(x));
        lemma_keep_entries_push(s.drop_first(), x, now);
        if spec_evicted(s[0].1, now) {
            assert(keep_entries(t, now) =~= keep_entries(s, now) + (if spec_evicted(x.1, now) {
                Seq::<(Uuid, FileEntry)>::empty()
            } else {
                seq![x]
            }));
            assert(evicted_entries(t, now) =~= evicted_entries(s, now) + (if spec_evicted(
                x.1,
                now,
            ) {
                seq![x]
            } else {
                Seq::<(Uuid, FileEntry)>::empty()
            }));
        } else {
            assert(keep_entries(t, now) =~= keep_entries(s, now) + (if spec_evicted(x.1, now) {
                Seq::<(Uuid, FileEntry)>::empty()
            } else {
                seq![x]
            }));
            assert(evicted_entries(t, now) =~= evicted_entries(s, now) + (if spec_evicted(
                x.1,
                now,
            ) {
                seq![x]
            } else {
                Seq::<(Uuid, FileEntry)>::empty()
            }));
        }
    }
}

/// One eviction pass: removes every exhausted or expired entry and returns
/// the removed bindings so the caller can delete their blobs.
pub fn cleanup_pass(db: &mut Db, now: u64) -> (removed: Vec<(Uuid, FileEntry)>)
    requires
        old(db).wf(),
    ensures
        final(db).wf(),
        final(db).file_entries@ == keep_entries(old(db).file_entries@, now),
        removed@ == evicted_entries(old(db).file_entries@, now),
        forall|k: Uuid|
            #[trigger] entry_get(final(db).file_entries@, k) == (match entry_get(
                old(db).file_entries@,
                k,
            ) {
                Option::Some(e) => if spec_evicted(e, now) {
                    Option::<FileEntry>::None
                } else {
                    Option::Some(e)
                },
                Option::None => Option::<FileEntry>::None,
            }),
        final(db).accounts == old(db).accounts,
        final(db).account_uuids == old(db).account_uuids,
        final(db).registration_codes == old(db).registration_codes,
{
    let n = db.file_entries.len();
    let mut kept: Vec<(Uuid, FileEntry)> = Vec::new();
    let mut removed: Vec<(Uuid, FileEntry)> = Vec::new();
    let mut i: usize = 0;
    while i < n
        invariant
            i <= n,
            old(db).wf(),
            *db == *old(db),
            n == db.file_entries@.len(),
            kept@ == keep_entries(db.file_entries@.subrange(0, i as int), now),
            removed@ == evicted_entries(db.file_entries@.subrange(0, i as int), now),
        decreases n - i,
    {
        let uuid = db.file_entries[i].0;
        let entry = db.file_entries[i].1.clone();
        let ghost prefix = db.file_entries@.subrange(0, i as int);
        proof {
            lemma_keep_entries_push(prefix, db.file_entries@[i as int], now);
            assert(db.file_entries@.subrange(0, i as int + 1) =~= prefix.push(
                db.file_entries@[i as int],
            ));
        }
        if is_exhausted(&entry) || is_expired(&entry, now) {
            removed.push((uuid, entry));
            proof {
                assert(removed@ =~= evicted_entries(
                    db.file_entries@.subrange(0, i as int + 1),
                    now,
                ));
                assert(kept@ =~= keep_entries(db.file_entries@.subrange(0, i as int + 1), now));
            }
        } else {
            kept.push((uuid, entry));
            proof {
                assert((uuid, entry) == db.file_entries@[i as int]);
                assert(kept@ =~= keep_entries(db.file_entries@.subrange(0, i as int + 1), now));
                assert(removed@ =~= evicted_entries(
                    db.file_entries@.subrange(0, i as int + 1),
                    now,
                ));
            }
        }
        i = i + 1;
    }
    proof {
        assert(db.file_entries@.subrange(0, n as int) =~= db.file_entries@);
        lemma_keep_entries_unique(db.file_entries@, now);
        assert forall|k: Uuid| true implies #[trigger] entry_get(
            keep_entries(db.file_entries@, now),
            k,
        ) == (match entry_get(db.file_entries@, k) {
            Option::Some(e) => if spec_evicted(e, now) {
                Option::<FileEntry>::None
            } else {
                Option::Some(e)
            },
            Option::None => Option::<FileEntry>::None,
        }) by {
            lemma_keep_entries_get(db.file_entries@, now, k);
        }
    }
    db.file_entries = kept;
    removed
}

} // verus!
