//! The service's cross-cutting guarantees, stated and proved over the spec
//! functions that the route contracts use.
use vstd::prelude::*;

use crate::account::{chunk_field, spec_login};
use crate::cleanup::{keep_entries, lemma_keep_entries_get, spec_evicted, spec_exhausted,
    spec_expired};
use crate::db::{entry_get, name_get, Db};
use crate::multipart::MultipartHeader;
use crate::outside::{password_matches, phc_parseable};
use crate::db_stuff::{Account, AccountType, FileEntry, Uuid};
use crate::download::{spec_counted, spec_private_access};
use crate::delete::spec_delete_allowed;
use crate::headers::{DownloadCount, Lifetime, Visibility};
use crate::list::{spec_listed, spec_model_of, FileModel};
use crate::upload::spec_upload_entry;

verus! {

/// A bounded download budget drains one unit per served download and, once
/// `n` is reached, the entry is refused (the download gate sees it as
/// exhausted) and the next eviction pass removes it.
pub proof fn lemma_bounded_count_lifecycle(db: Db, u: Uuid, e: FileEntry, n: u64, now: u64)
    requires
        db.wf(),
        entry_get(db.file_entries@, u) == Option::Some(e),
        e.download_count_type == DownloadCount::Count(n),
    ensures
        e.download_count < n ==> !spec_exhausted(e) && spec_counted(e).download_count
            == e.download_count + 1,
        e.download_count >= n ==> spec_exhausted(e) && spec_evicted(e, now) && entry_get(
            keep_entries(db.file_entries@, now),
            u,
        ) is None,
{
    if e.download_count >= n {
        lemma_keep_entries_get(db.file_entries@, now, u);
    }
}

/// An entry with a bounded lifetime is expired exactly after
/// `upload_date + d`: strictly later requests see it gone, earlier ones do
/// not; an eviction pass removes an expired entry.
pub proof fn lemma_lifetime_boundary(db: Db, u: Uuid, e: FileEntry, d: u64, now: u64)
    requires
        db.wf(),
        entry_get(db.file_entries@, u) == Option::Some(e),
        e.lifetime == Lifetime::Duration(d),
    ensures
        now > e.upload_date + d <==> spec_expired(e, now),
        spec_expired(e, now) ==> entry_get(keep_entries(db.file_entries@, now), u) is None,
{
    if spec_expired(e, now) {
        lemma_keep_entries_get(db.file_entries@, now, u);
    }
}

/// A live private entry stands in its uploader's listing, and in nobody
/// else's: not in an anonymous listing, not in another user's.
pub proof fn lemma_private_listing(
    e: FileEntry,
    owner: Account,
    other: Account,
    only_self: bool,
    now: u64,
)
    requires
        e.visibility == Visibility::Private,
        e.uploader_uuid == Option::Some(owner.uuid),
        !spec_evicted(e, now),
        other.uuid != owner.uuid,
    ensures
        spec_listed(e, Option::Some(owner), only_self, now),
        !spec_listed(e, Option::None, only_self, now),
        !spec_listed(e, Option::Some(other), only_self, now),
{
}

/// Only the uploader may download a private entry; only the uploader or an
/// admin may delete it.
pub proof fn lemma_private_access_control(e: FileEntry, owner: Account, other: Account)
    requires
        e.visibility == Visibility::Private,
        e.uploader_uuid == Option::Some(owner.uuid),
        other.uuid != owner.uuid,
    ensures
        spec_private_access(e, Option::Some(owner)),
        !spec_private_access(e, Option::None),
        !spec_private_access(e, Option::Some(other)),
        spec_delete_allowed(e, owner),
        other.acc_type == AccountType::Admin ==> spec_delete_allowed(e, other),
        other.acc_type == AccountType::User ==> !spec_delete_allowed(e, other),
{
}

/// The `has_password` flag in a listing is the upload's `aqa-password`
/// presence, exactly: set when the upload carried a password, clear when it
/// did not.
pub proof fn lemma_has_password_faithful(
    m: FileModel,
    u: Uuid,
    e: FileEntry,
    count: DownloadCount,
    visibility: Visibility,
    lifetime: Lifetime,
    password: Option<Seq<char>>,
    uploader: Option<Account>,
    now: u64,
)
    requires
        spec_upload_entry(e, count, visibility, lifetime, password, uploader, now),
        spec_model_of(m, u, e),
    ensures
        m.has_password == (password is Some),
{
}

/// Logging in with an account's own username and password succeeds: the
/// form resolves to the account and its stored hash, minted by the
/// account-creation path, parses and verifies.
pub proof fn lemma_login_succeeds(
    chunks: Seq<(MultipartHeader, Vec<u8>)>,
    account_uuids: Seq<(String, Uuid)>,
    accounts: Seq<(Uuid, Account)>,
    a: Account,
    ub: Seq<u8>,
    pb: Seq<u8>,
)
    requires
        chunk_field(chunks, "username"@) == Option::Some(ub),
        chunk_field(chunks, "password"@) == Option::Some(pb),
        vstd::utf8::valid_utf8(ub),
        vstd::utf8::valid_utf8(pb),
        vstd::utf8::decode_utf8(ub) == a.username@,
        name_get(account_uuids, a.username@) == Option::Some(a.uuid),
        entry_get(accounts, a.uuid) == Option::Some(a),
        phc_parseable(a.password_hash@),
        password_matches(vstd::utf8::decode_utf8(pb), a.password_hash@),
    ensures
        spec_login(chunks, account_uuids, accounts) == Result::<
            Account,
            crate::account::LoginError,
        >::Ok(a),
{
}

/// A listing projection carries no password text: two entries that differ
/// only in their stored password project to the same model.
pub proof fn lemma_listing_hides_password(m: FileModel, u: Uuid, e1: FileEntry, e2: FileEntry)
    requires
        spec_model_of(m, u, e1),
        e1.filename@ == e2.filename@,
        e1.content_type@ == e2.content_type@,
        e1.uploader_uuid == e2.uploader_uuid,
        e1.download_count == e2.download_count,
        e1.visibility == e2.visibility,
        e1.lifetime == e2.lifetime,
        e1.upload_date == e2.upload_date,
        (e1.password is Some) == (e2.password is Some),
    ensures
        spec_model_of(m, u, e2),
{
}

} // verus!
