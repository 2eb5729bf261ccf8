//! The in-memory database: four maps under one owner.
//!
//! File entries, accounts and registration codes are held as key-value
//! sequences with unique keys; the username index is derived from the
//! accounts map and kept consistent by `add_account`.  Snapshot I/O and
//! locking live outside the library; everything here is pure state.
use vstd::prelude::*;

use crate::db_stuff::{Account, AccountType, FileEntry, Uuid};

verus! {

/// An opaque token that authorizes creating one account of a fixed kind.
#[derive(Debug)]
pub struct RegistrationCode {
    pub code: String,
    pub account_kind: AccountType,
}

impl Clone for RegistrationCode {
    fn clone(&self) -> (r: Self)
        ensures
            r == *self,
    {
        RegistrationCode { code: self.code.clone(), account_kind: self.account_kind }
    }
}

#[derive(Debug, Clone, Copy, PartialEq, Eq, Structural)]
pub enum DbError {
    UpdateFail,
    AccountAlreadyExists,
}

/// First match for a UUID key in a key-value sequence.
pub open spec fn entry_get<V>(s: Seq<(Uuid, V)>, k: Uuid) -> Option<V>
    decreases s.len(),
{
    if s.len() == 0 {
        Option::None
    } else if s[0].0 == k {
        Option::Some(s[0].1)
    } else {
        entry_get(s.drop_first(), k)
    }
}

/// First match for a string key in the username index.
pub open spec fn name_get(s: Seq<(String, Uuid)>, k: Seq<char>) -> Option<Uuid>
    decreases s.len(),
{
    if s.len() == 0 {
        Option::None
    } else if s[0].0@ == k {
        Option::Some(s[0].1)
    } else {
        name_get(s.drop_first(), k)
    }
}

pub open spec fn keys_unique<V>(s: Seq<(Uuid, V)>) -> bool {
    forall|i: int, j: int| 0 <= i < j < s.len() ==> (#[trigger] s[i]).0 != (#[trigger] s[j]).0
}

pub open spec fn name_keys_unique(s: Seq<(String, Uuid)>) -> bool {
    forall|i: int, j: int| 0 <= i < j < s.len() ==> (#[trigger] s[i]).0@ != (#[trigger] s[j]).0@
}

pub proof fn lemma_entry_get_skip<V>(s: Seq<(Uuid, V)>, k: Uuid, i: int)
    requires
        0 <= i <= s.len(),
        forall|j: int| 0 <= j < i ==> (#[trigger] s[j]).0 != k,
    ensures
        entry_get(s, k) == entry_get(s.subrange(i, s.len() as int), k),
    decreases i,
{
    if i > 0 {
        lemma_entry_get_skip(s, k, i - 1);
        let t = s.subrange(i - 1, s.len() as int);
        assert(t[0] == s[i - 1]);
        assert(t.drop_first() =~= s.subrange(i, s.len() as int));
    } else {
        assert(s.subrange(0, s.len() as int) =~= s);
    }
}

pub proof fn lemma_name_get_skip(s: Seq<(String, Uuid)>, k: Seq<char>, i: int)
    requires
        0 <= i <= s.len(),
        forall|j: int| 0 <= j < i ==> (#[trigger] s[j]).0@ != k,
    ensures
        name_get(s, k) == name_get(s.subrange(i, s.len() as int), k),
    decreases i,
{
    if i > 0 {
        lemma_name_get_skip(s, k, i - 1);
        let t = s.subrange(i - 1, s.len() as int);
        assert(t[0] == s[i - 1]);
        assert(t.drop_first() =~= s.subrange(i, s.len() as int));
    } else {
        assert(s.subrange(0, s.len() as int) =~= s);
    }
}

/// How a lookup reads an update: the updated key gives the new value, every
/// other key is untouched.
pub proof fn lemma_entry_get_update<V>(s: Seq<(Uuid, V)>, i: int, v: V, k: Uuid)
    requires
        0 <= i < s.len(),
        forall|j: int| 0 <= j < i ==> (#[trigger] s[j]).0 != s[i].0,
    ensures
        entry_get(s.update(i, (s[i].0, v)), k) == if k == s[i].0 {
            Option::Some(v)
        } else {
            entry_get(s, k)
        },
    decreases i,
{
    let t = s.update(i, (s[i].0, v));
    if i == 0 {
        if k == s[0].0 {
        } else {
            assert(t.drop_first() =~= s.drop_first());
        }
    } else {
        if k == s[0].0 {
        } else {
            lemma_entry_get_update(s.drop_first(), i - 1, v, k);
            assert(t.drop_first() =~= s.drop_first().update(i - 1, (s[i].0, v)));
            assert(s.drop_first()[i - 1] == s[i]);
        }
    }
}

/// A push appends a binding that a lookup sees only where no earlier binding
/// has the key.
pub proof fn lemma_entry_get_push<V>(s: Seq<(Uuid, V)>, nk: Uuid, nv: V, k: Uuid)
    ensures
        entry_get(s.push((nk, nv)), k) == if entry_get(s, k) is Some {
            entry_get(s, k)
        } else if k == nk {
            Option::Some(nv)
        } else {
            Option::None
        },
    decreases s.len(),
{
    let t = s.push((nk, nv));
    assert(t.len() == s.len() + 1);
    if s.len() > 0 {
        assert(t[0] == s[0]);
        lemma_entry_get_push(s.drop_first(), nk, nv, k);
        assert(t.drop_first() =~= s.drop_first().push((nk, nv)));
        if s[0].0 == k {
            assert(entry_get(s, k) == Option::Some(s[0].1));
            assert(entry_get(t, k) == Option::Some(t[0].1));
        } else {
            assert(entry_get(s, k) == entry_get(s.drop_first(), k));
            assert(entry_get(t, k) == entry_get(t.drop_first(), k));
            assert(entry_get(t.drop_first(), k) == entry_get(s.drop_first().push((nk, nv)), k));
        }
    } else {
        assert(entry_get(s, k) is None);
        assert(t[0] == (nk, nv));
        assert(t[0].0 == nk && t[0].1 == nv);
        assert(t.drop_first() =~= Seq::<(Uuid, V)>::empty());
        assert(entry_get(t.drop_first(), k) is None);
        if k == nk {
            assert(entry_get(t, k) == Option::Some(nv));
        } else {
            assert(entry_get(t, k) == entry_get(t.drop_first(), k));
        }
    }
}

pub proof fn lemma_name_get_push(s: Seq<(String, Uuid)>, nk: String, nv: Uuid, k: Seq<char>)
    ensures
        name_get(s.push((nk, nv)), k) == if name_get(s, k) is Some {
            name_get(s, k)
        } else if k == nk@ {
            Option::Some(nv)
        } else {
            Option::None
        },
    decreases s.len(),
{
    let t = s.push((nk, nv));
    assert(t.len() == s.len() + 1);
    if s.len() > 0 {
        assert(t[0] == s[0]);
        lemma_name_get_push(s.drop_first(), nk, nv, k);
        assert(t.drop_first() =~= s.drop_first().push((nk, nv)));
        if s[0].0@ == k {
            assert(name_get(s, k) == Option::Some(s[0].1));
            assert(name_get(t, k) == Option::Some(t[0].1));
        } else {
            assert(name_get(s, k) == name_get(s.drop_first(), k));
            assert(name_get(t, k) == name_get(t.drop_first(), k));
            assert(name_get(t.drop_first(), k) == name_get(s.drop_first().push((nk, nv)), k));
        }
    } else {
        assert(name_get(s, k) is None);
        assert(t[0] == (nk, nv));
        assert(t[0].0 == nk && t[0].1 == nv);
        assert(t.drop_first() =~= Seq::<(String, Uuid)>::empty());
        assert(name_get(t.drop_first(), k) is None);
        if k == nk@ {
            assert(name_get(t, k) == Option::Some(nv));
        } else {
            assert(name_get(t, k) == name_get(t.drop_first(), k));
        }
    }
}

/// Process-owned database state.  Interior mutability and lock discipline
/// are the embedding application's concern; the operations below describe
/// exactly how each call changes the maps.
#[derive(Debug)]
pub struct Db {
    pub file_entries: Vec<(Uuid, FileEntry)>,
    pub accounts: Vec<(Uuid, Account)>,
    pub account_uuids: Vec<(String, Uuid)>,
    pub registration_codes: Vec<RegistrationCode>,
}

impl Db {
    /// Key uniqueness across the maps, and each account standing under its
    /// own UUID.
    pub open spec fn wf(&self) -> bool {
        &&& keys_unique(self.file_entries@)
        &&& keys_unique(self.accounts@)
        &&& name_keys_unique(self.account_uuids@)
        &&& forall|i: int|
            0 <= i < self.accounts@.len() ==> (#[trigger] self.accounts@[i]).1.uuid
                == self.accounts@[i].0
    }

    /// The username index is left-total over the accounts map: every
    /// account's username resolves to that account's UUID.
    pub open spec fn index_consistent(&self) -> bool {
        forall|i: int|
            0 <= i < self.accounts@.len() ==> name_get(
                self.account_uuids@,
                (#[trigger] self.accounts@[i]).1.username@,
            ) == Option::Some(self.accounts@[i].0)
    }

    pub fn new() -> (db: Db)
        ensures
            db.wf(),
            db.index_consistent(),
            db.file_entries@.len() == 0,
            db.accounts@.len() == 0,
            db.account_uuids@.len() == 0,
            db.registration_codes@.len() == 0,
    {
        Db {
            file_entries: Vec::new(),
            accounts: Vec::new(),
            account_uuids: Vec::new(),
            registration_codes: Vec::new(),
        }
    }

    /// Clone of an entry under its UUID, if present and not shadowed.
    pub fn get(&self, uuid: &Uuid) -> (r: Option<FileEntry>)
        ensures
            r == entry_get(self.file_entries@, *uuid),
    {
        let n = self.file_entries.len();
        let mut i: usize = 0;
        while i < n
            invariant
                i <= n,
                n == self.file_entries@.len(),
                forall|j: int| 0 <= j < i ==> (#[trigger] self.file_entries@[j]).0 != *uuid,
            decreases n - i,
        {
            if self.file_entries[i].0 == *uuid {
                proof {
                    lemma_entry_get_skip(self.file_entries@, *uuid, i as int);
                }
                return Some(self.file_entries[i].1.clone());
            }
            i = i + 1;
        }
        proof {
            lemma_entry_get_skip(self.file_entries@, *uuid, n as int);
        }
        None
    }

    /// Insert or replace an entry.
    pub fn put(&mut self, uuid: Uuid, file_entry: FileEntry)
        requires
            old(self).wf(),
        ensures
            final(self).wf(),
            entry_get(final(self).file_entries@, uuid) == Option::Some(file_entry),
            forall|k: Uuid|
                k != uuid ==> #[trigger] entry_get(final(self).file_entries@, k) == entry_get(
                    old(self).file_entries@,
                    k,
                ),
            final(self).accounts == old(self).accounts,
            final(self).account_uuids == old(self).account_uuids,
            final(self).registration_codes == old(self).registration_codes,
            final(self).index_consistent() == old(self).index_consistent(),
    {
        let n = self.file_entries.len();
        let mut i: usize = 0;
        while i < n
            invariant
                old(self).wf(),
                *self == *old(self),
                i <= n,
                n == self.file_entries@.len(),
                forall|j: int| 0 <= j < i ==> (#[trigger] self.file_entries@[j]).0 != uuid,
            decreases n - i,
        {
            if self.file_entries[i].0 == uuid {
                proof {
                    let s = self.file_entries@;
                    let t = s.update(i as int, (uuid, file_entry));
                    assert(s[i as int].0 == uuid);
                    assert(t == s.update(i as int, (s[i as int].0, file_entry)));
                    assert forall|k: Uuid| true implies #[trigger] entry_get(t, k) == (if k == uuid {
                        Option::Some(file_entry)
                    } else {
                        entry_get(s, k)
                    }) by {
                        lemma_entry_get_update(s, i as int, file_entry, k);
                    }
                    assert(keys_unique(t)) by {
                        assert(forall|j: int| 0 <= j < t.len() ==> (#[trigger] t[j]).0 == s[j].0);
                    }
                }
                self.file_entries.set(i, (uuid, file_entry));
                return ;
            }
            i = i + 1;
        }
        proof {
            let s = self.file_entries@;
            let t = s.push((uuid, file_entry));
            lemma_entry_get_skip(s, uuid, n as int);
            assert(entry_get(s, uuid) is None);
            assert forall|k: Uuid| true implies #[trigger] entry_get(t, k) == (if k == uuid {
                Option::Some(file_entry)
            } else {
                entry_get(s, k)
            }) by {
                lemma_entry_get_push(s, uuid, file_entry, k);
                if k != uuid && entry_get(s, k) is None {
                }
            }
            assert(keys_unique(t)) by {
                assert(forall|j: int| 0 <= j < s.len() ==> (#[trigger] t[j]) == s[j]);
                assert(t[s.len() as int].0 == uuid);
                assert(forall|j: int| 0 <= j < s.len() ==> (#[trigger] t[j]).0 != uuid);
            }
        }
        self.file_entries.push((uuid, file_entry));
    }

    /// Replace an existing entry; fails when the UUID is absent.
    pub fn update(&mut self, uuid: &Uuid, new_file_entry: FileEntry) -> (r: Result<(), DbError>)
        requires
            old(self).wf(),
        ensures
            final(self).wf(),
            r is Ok <==> entry_get(old(self).file_entries@, *uuid) is Some,
            r is Err ==> r == Result::<(), DbError>::Err(DbError::UpdateFail) && *final(self) == *old(self),
            r is Ok ==> entry_get(final(self).file_entries@, *uuid) == Option::Some(
                new_file_entry,
            ) && forall|k: Uuid|
                k != *uuid ==> #[trigger] entry_get(final(self).file_entries@, k) == entry_get(
                    old(self).file_entries@,
                    k,
                ),
            final(self).accounts == old(self).accounts,
            final(self).account_uuids == old(self).account_uuids,
            final(self).registration_codes == old(self).registration_codes,
    {
        let n = self.file_entries.len();
        let mut i: usize = 0;
        while i < n
            invariant
                old(self).wf(),
                *self == *old(self),
                i <= n,
                n == self.file_entries@.len(),
                forall|j: int| 0 <= j < i ==> (#[trigger] self.file_entries@[j]).0 != *uuid,
            decreases n - i,
        {
            if self.file_entries[i].0 == *uuid {
                proof {
                    let s = self.file_entries@;
                    let t = s.update(i as int, (*uuid, new_file_entry));
                    lemma_entry_get_skip(s, *uuid, i as int);
                    assert(s[i as int].0 == *uuid);
                    assert(t == s.update(i as int, (s[i as int].0, new_file_entry)));
                    assert forall|k: Uuid| true implies #[trigger] entry_get(t, k) == (if k
                        == *uuid {
                        Option::Some(new_file_entry)
                    } else {
                        entry_get(s, k)
                    }) by {
                        lemma_entry_get_update(s, i as int, new_file_entry, k);
                    }
                    assert(keys_unique(t)) by {
                        assert(forall|j: int| 0 <= j < t.len() ==> (#[trigger] t[j]).0 == s[j].0);
                    }
                }
                self.file_entries.set(i, (*uuid, new_file_entry));
                return Ok(());
            }
            i = i + 1;
        }
        proof {
            lemma_entry_get_skip(self.file_entries@, *uuid, n as int);
        }
        Err(DbError::UpdateFail)
    }

    /// Remove an entry; reports whether it was present.
    pub fn remove(&mut self, uuid: &Uuid) -> (r: bool)
        requires
            old(self).wf(),
        ensures
            final(self).wf(),
            r <==> entry_get(old(self).file_entries@, *uuid) is Some,
            entry_get(final(self).file_entries@, *uuid) is None,
            forall|k: Uuid|
                k != *uuid ==> #[trigger] entry_get(final(self).file_entries@, k) == entry_get(
                    old(self).file_entries@,
                    k,
                ),
            final(self).accounts == old(self).accounts,
            final(self).account_uuids == old(self).account_uuids,
            final(self).registration_codes == old(self).registration_codes,
    {
        let n = self.file_entries.len();
        let mut i: usize = 0;
        while i < n
            invariant
                old(self).wf(),
                *self == *old(self),
                i <= n,
                n == self.file_entries@.len(),
                forall|j: int| 0 <= j < i ==> (#[trigger] self.file_entries@[j]).0 != *uuid,
            decreases n - i,
        {
            if self.file_entries[i].0 == *uuid {
                proof {
                    lemma_entry_get_skip(self.file_entries@, *uuid, i as int);
                    let s = self.file_entries@;
                    let t = s.subrange(0, i as int) + s.subrange(i + 1, s.len() as int);
                    assert forall|k: Uuid| true implies entry_get(t, k) == (if k == s[i as int].0 {
                        Option::<FileEntry>::None
                    } else {
                        entry_get(s, k)
                    }) by {
                        lemma_entry_get_remove(s, i as int, k);
                    }
                }
                self.file_entries.remove(i);
                proof {
                    let s = old(self).file_entries@;
                    let t = self.file_entries@;
                    assert(t =~= s.subrange(0, i as int) + s.subrange(i + 1, s.len() as int));
                    assert(forall|j: int| 0 <= j < i ==> #[trigger] t[j] == s[j]);
                    assert(forall|j: int| i <= j < t.len() ==> #[trigger] t[j] == s[j + 1]);
                    assert(keys_unique(t)) by {
                        assert forall|i2: int, j2: int| 0 <= i2 < j2 < t.len() implies (
                        #[trigger] t[i2]).0 != (#[trigger] t[j2]).0 by {
                            let si = if i2 < i {
                                i2
                            } else {
                                i2 + 1
                            };
                            let sj = if j2 < i {
                                j2
                            } else {
                                j2 + 1
                            };
                            assert(t[i2] == s[si]);
                            assert(t[j2] == s[sj]);
                            assert(s[si].0 != s[sj].0);
                        }
                    }
                }
                return true;
            }
            i = i + 1;
        }
        proof {
            lemma_entry_get_skip(self.file_entries@, *uuid, n as int);
        }
        false
    }

    /// Clone of the account stored under a UUID.
    pub fn get_account(&self, uuid: &Uuid) -> (r: Option<Account>)
        ensures
            r == entry_get(self.accounts@, *uuid),
    {
        let n = self.accounts.len();
        let mut i: usize = 0;
        while i < n
            invariant
                i <= n,
                n == self.accounts@.len(),
                forall|j: int| 0 <= j < i ==> (#[trigger] self.accounts@[j]).0 != *uuid,
            decreases n - i,
        {
            if self.accounts[i].0 == *uuid {
                proof {
                    lemma_entry_get_skip(self.accounts@, *uuid, i as int);
                }
                return Some(self.accounts[i].1.clone());
            }
            i = i + 1;
        }
        proof {
            lemma_entry_get_skip(self.accounts@, *uuid, n as int);
        }
        None
    }

    /// The UUID an username resolves to in the derived index.
    pub fn get_account_uuid(&self, username: &str) -> (r: Option<Uuid>)
        ensures
            r == name_get(self.account_uuids@, username@),
    {
        let n = self.account_uuids.len();
        let mut i: usize = 0;
        while i < n
            invariant
                i <= n,
                n == self.account_uuids@.len(),
                forall|j: int| 0 <= j < i ==> (#[trigger] self.account_uuids@[j]).0@ != username@,
            decreases n - i,
        {
            if crate::strutil::str_eq(self.account_uuids[i].0.as_str(), username) {
                proof {
                    lemma_name_get_skip(self.account_uuids@, username@, i as int);
                }
                return Some(self.account_uuids[i].1);
            }
            i = i + 1;
        }
        proof {
            lemma_name_get_skip(self.account_uuids@, username@, n as int);
        }
        None
    }

    /// Registers an account under a fresh UUID and indexes its username.
    /// Fails, changing nothing, when the UUID is already taken.
    pub fn add_account(&mut self, uuid: Uuid, account: Account) -> (r: Result<(), DbError>)
        requires
            old(self).wf(),
            account.uuid == uuid,
        ensures
            final(self).wf(),
            r is Ok <==> entry_get(old(self).accounts@, uuid) is None,
            r is Err ==> r == Result::<(), DbError>::Err(DbError::AccountAlreadyExists) && *final(self) == *old(self),
            r is Ok ==> entry_get(final(self).accounts@, uuid) == Option::Some(account) && name_get(
                final(self).account_uuids@,
                account.username@,
            ) == Option::Some(uuid),
            r is Ok ==> forall|k: Uuid|
                k != uuid ==> #[trigger] entry_get(final(self).accounts@, k) == entry_get(
                    old(self).accounts@,
                    k,
                ),
            r is Ok ==> forall|nm: Seq<char>|
                nm != account.username@ ==> #[trigger] name_get(final(self).account_uuids@, nm)
                    == name_get(old(self).account_uuids@, nm),
            r is Ok && old(self).index_consistent() && name_get(
                old(self).account_uuids@,
                account.username@,
            ) is None ==> final(self).index_consistent(),
            final(self).file_entries == old(self).file_entries,
            final(self).registration_codes == old(self).registration_codes,
    {
        let n = self.accounts.len();
        let mut i: usize = 0;
        while i < n
            invariant
                old(self).wf(),
                *self == *old(self),
                i <= n,
                n == self.accounts@.len(),
                forall|j: int| 0 <= j < i ==> (#[trigger] self.accounts@[j]).0 != uuid,
            decreases n - i,
        {
            if self.accounts[i].0 == uuid {
                proof {
                    lemma_entry_get_skip(self.accounts@, uuid, i as int);
                }
                return Err(DbError::AccountAlreadyExists);
            }
            i = i + 1;
        }
        proof {
            lemma_entry_get_skip(self.accounts@, uuid, n as int);
        }
        let ghost old_accounts = self.accounts@;
        let ghost old_index = self.account_uuids@;
        let ghost nm = account.username@;
        self.index_username(account.username.clone(), uuid);
        self.accounts.push((uuid, account));
        proof {
            assert forall|k: Uuid| true implies #[trigger] entry_get(self.accounts@, k) == (if k
                == uuid {
                Option::Some(account)
            } else {
                entry_get(old_accounts, k)
            }) by {
                lemma_entry_get_push(old_accounts, uuid, account, k);
                if k == uuid {
                    lemma_entry_get_skip(old_accounts, uuid, old_accounts.len() as int);
                }
            }
            assert(keys_unique(self.accounts@)) by {
                assert(forall|j: int|
                    0 <= j < old_accounts.len() ==> (#[trigger] self.accounts@[j]) == old_accounts[
                    j]);
            }
            if old(self).index_consistent() && name_get(old_index, nm) is None {
                assert forall|i2: int| 0 <= i2 < self.accounts@.len() implies name_get(
                    self.account_uuids@,
                    (#[trigger] self.accounts@[i2]).1.username@,
                ) == Option::Some(self.accounts@[i2].0) by {
                    if i2 < old_accounts.len() {
                        assert(self.accounts@[i2] == old_accounts[i2]);
                        assert(name_get(old_index, old_accounts[i2].1.username@) == Option::Some(
                            old_accounts[i2].0,
                        ));
                        assert(old_accounts[i2].1.username@ != nm);
                    }
                }
            }
        }
        Ok(())
    }

    /// Binds a username to a UUID in the index, replacing any earlier
    /// binding of the same name.
    fn index_username(&mut self, username: String, uuid: Uuid)
        requires
            old(self).wf(),
        ensures
            final(self).wf(),
            name_get(final(self).account_uuids@, username@) == Option::Some(uuid),
            forall|nm: Seq<char>|
                nm != username@ ==> #[trigger] name_get(final(self).account_uuids@, nm) == name_get(
                    old(self).account_uuids@,
                    nm,
                ),
            final(self).file_entries == old(self).file_entries,
            final(self).accounts == old(self).accounts,
            final(self).registration_codes == old(self).registration_codes,
    {
        let n = self.account_uuids.len();
        let mut i: usize = 0;
        while i < n
            invariant
                old(self).wf(),
                *self == *old(self),
                i <= n,
                n == self.account_uuids@.len(),
                forall|j: int| 0 <= j < i ==> (#[trigger] self.account_uuids@[j]).0@ != username@,
            decreases n - i,
        {
            if crate::strutil::str_eq(self.account_uuids[i].0.as_str(), username.as_str()) {
                proof {
                    lemma_name_get_skip(self.account_uuids@, username@, i as int);
                    assert forall|nm: Seq<char>| true implies name_get(
                        self.account_uuids@.update(
                            i as int,
                            (self.account_uuids@[i as int].0, uuid),
                        ),
                        nm,
                    ) == (if nm == self.account_uuids@[i as int].0@ {
                        Option::Some(uuid)
                    } else {
                        name_get(self.account_uuids@, nm)
                    }) by {
                        lemma_name_get_update(self.account_uuids@, i as int, uuid, nm);
                    }
                }
                let key = self.account_uuids[i].0.clone();
                proof {
                    assert(key@ == username@);
                }
                self.account_uuids.set(i, (key, uuid));
                return ;
            }
            i = i + 1;
        }
        proof {
            lemma_name_get_skip(self.account_uuids@, username@, n as int);
            assert forall|nm: Seq<char>| true implies name_get(
                self.account_uuids@.push((username, uuid)),
                nm,
            ) == (if name_get(self.account_uuids@, nm) is Some {
                name_get(self.account_uuids@, nm)
            } else if nm == username@ {
                Option::Some(uuid)
            } else {
                Option::<Uuid>::None
            }) by {
                lemma_name_get_push(self.account_uuids@, username, uuid, nm);
            }
            assert(forall|j: int|
                0 <= j < self.account_uuids@.len() ==> (#[trigger] self.account_uuids@[j]).0@
                    != username@);
        }
        self.account_uuids.push((username, uuid));
        proof {
            assert(name_keys_unique(self.account_uuids@)) by {
                assert(forall|j: int|
                    0 <= j < old(self).account_uuids@.len() ==> (#[trigger] self.account_uuids@[j])
                        == old(self).account_uuids@[j]);
            }
        }
    }
}

/// Removing the binding at `i` (the first with its key) makes its key
/// unresolvable and leaves every other key alone.
pub proof fn lemma_entry_get_remove<V>(s: Seq<(Uuid, V)>, i: int, k: Uuid)
    requires
        0 <= i < s.len(),
        keys_unique(s),
        forall|j: int| 0 <= j < i ==> (#[trigger] s[j]).0 != s[i].0,
    ensures
        entry_get(s.subrange(0, i) + s.subrange(i + 1, s.len() as int), k) == if k == s[i].0 {
            Option::<V>::None
        } else {
            entry_get(s, k)
        },
    decreases i,
{
    let t = s.subrange(0, i) + s.subrange(i + 1, s.len() as int);
    if i == 0 {
        assert(t =~= s.drop_first());
        if k == s[0].0 {
            lemma_entry_get_absent(s.drop_first(), k, s, 1);
        }
    } else {
        lemma_entry_get_remove(s.drop_first(), i - 1, k);
        assert(t.drop_first() =~= s.drop_first().subrange(0, i - 1) + s.drop_first().subrange(
            i,
            s.drop_first().len() as int,
        ));
        assert(t[0] == s[0]);
        assert(s.drop_first()[i - 1] == s[i]);
    }
}

/// A key that no binding carries resolves to nothing.
proof fn lemma_entry_get_absent<V>(s: Seq<(Uuid, V)>, k: Uuid, orig: Seq<(Uuid, V)>, off: int)
    requires
        keys_unique(orig),
        0 <= off,
        off + s.len() == orig.len(),
        forall|j: int| 0 <= j < s.len() ==> s[j] == orig[j + off],
        exists|j0: int| 0 <= j0 < off && (#[trigger] orig[j0]).0 == k,
    ensures
        entry_get(s, k) is None,
    decreases s.len(),
{
    if s.len() > 0 {
        let j0 = choose|j0: int| 0 <= j0 < off && (#[trigger] orig[j0]).0 == k;
        assert(s[0] == orig[off]);
        assert(orig[j0].0 != orig[off].0);
        lemma_entry_get_absent(s.drop_first(), k, orig, off + 1);
    }
}

pub proof fn lemma_name_get_update(s: Seq<(String, Uuid)>, i: int, v: Uuid, k: Seq<char>)
    requires
        0 <= i < s.len(),
        forall|j: int| 0 <= j < i ==> (#[trigger] s[j]).0@ != s[i].0@,
    ensures
        name_get(s.update(i, (s[i].0, v)), k) == if k == s[i].0@ {
            Option::Some(v)
        } else {
            name_get(s, k)
        },
    decreases i,
{
    let t = s.update(i, (s[i].0, v));
    if i == 0 {
        if k == s[0].0@ {
        } else {
            assert(t.drop_first() =~= s.drop_first());
        }
    } else {
        if k == s[0].0@ {
        } else {
            lemma_name_get_update(s.drop_first(), i - 1, v, k);
            assert(t.drop_first() =~= s.drop_first().update(i - 1, (s[i].0, v)));
            assert(s.drop_first()[i - 1] == s[i]);
        }
    }
}

} // verus!
// Startup: building the database from loaded snapshot data.
verus! {

/// Where the database keeps its files; all four paths are fixed at startup.
#[derive(Debug, Clone)]
pub struct DbConfig {
    pub db_path: String,
    pub db_file_path: String,
    pub accounts_path: String,
    pub registration_codes_path: String,
}

/// Builds the database from snapshot contents, deriving the username index
/// from the accounts map (it is not persisted).  Usernames are unique, as
/// the account rules guarantee, so the derived index is consistent.
pub fn init(
    file_entries: Vec<(Uuid, FileEntry)>,
    accounts: Vec<(Uuid, Account)>,
    registration_codes: Vec<RegistrationCode>,
) -> (db: Db)
    requires
        keys_unique(file_entries@),
        keys_unique(accounts@),
        forall|i: int|
            0 <= i < accounts@.len() ==> (#[trigger] accounts@[i]).1.uuid == accounts@[i].0,
        forall|i: int, j: int|
            0 <= i < j < accounts@.len() ==> (#[trigger] accounts@[i]).1.username@ != (
            #[trigger] accounts@[j]).1.username@,
    ensures
        db.wf(),
        db.index_consistent(),
        db.file_entries == file_entries,
        db.accounts == accounts,
        db.registration_codes == registration_codes,
{
    let n = accounts.len();
    let mut db = Db { file_entries, accounts, account_uuids: Vec::new(), registration_codes };
    let mut i: usize = 0;
    while i < n
        invariant
            i <= n,
            db.wf(),
            n == db.accounts@.len(),
            db.file_entries == file_entries,
            db.accounts == accounts,
            db.registration_codes == registration_codes,
            forall|i2: int, j: int|
                0 <= i2 < j < db.accounts@.len() ==> (#[trigger] db.accounts@[i2]).1.username@ != (
                #[trigger] db.accounts@[j]).1.username@,
            forall|j: int|
                0 <= j < i ==> name_get(
                    db.account_uuids@,
                    (#[trigger] db.accounts@[j]).1.username@,
                ) == Option::Some(db.accounts@[j].0),
        decreases n - i,
    {
        let ghost old_index = db.account_uuids@;
        let username = db.accounts[i].1.username.clone();
        let uuid = db.accounts[i].0;
        db.index_username(username, uuid);
        i = i + 1;
        proof {
            let acc = db.accounts@;
            assert forall|j: int| 0 <= j < i implies name_get(
                db.account_uuids@,
                (#[trigger] acc[j]).1.username@,
            ) == Option::Some(acc[j].0) by {
                if j < i - 1 {
                    assert(acc[j].1.username@ != acc[i - 1].1.username@);
                    assert(name_get(db.account_uuids@, acc[j].1.username@) == name_get(
                        old_index,
                        acc[j].1.username@,
                    ));
                }
            }
        }
    }
    db
}

} // verus!
// The user-facing texts of the database errors.
verus! {

pub open spec fn spec_db_error_message(e: DbError) -> Seq<char> {
    match e {
        DbError::UpdateFail => "Db didn't contain requested item"@,
        DbError::AccountAlreadyExists => "Tried to add account with username that already exists"@,
    }
}

impl DbError {
    /// The user-facing message for this error.
    pub fn message(&self) -> (s: String)
        ensures
            s@ == spec_db_error_message(*self),
    {
        match self {
            DbError::UpdateFail => {
                let t = "Db didn't contain requested item";
                t.to_owned()
            },
            DbError::AccountAlreadyExists => {
                let t = "Tried to add account with username that already exists";
                t.to_owned()
            },
        }
    }
}

} // verus!
