//! The download route: resolve the entry, check ownership, password and
//! budget, count the download, and hand the blob's location back.
use vstd::prelude::*;

use crate::account::{get_logged_in_user, spec_auth_error_code, spec_logged_in_user, AuthError};
use crate::cleanup::{is_exhausted, is_expired, spec_exhausted, spec_expired};
use crate::db::{entry_get, Db, DbError};
use crate::db_stuff::{Account, FileEntry, Uuid};
use crate::error::ErrorContentType;
use crate::headers::{bucket_chars, Password, Visibility};
use crate::outside::{url_decodable, url_decode, url_decoded};
use crate::uuid_text::{parse_uuid, spec_parse_uuid};
use crate::{query_get, query_lookup, spec_query_pairs, uri_query_iter, AuthorizedUsers};

verus! {

#[derive(Debug, Clone, Copy, PartialEq, Eq, Structural)]
pub enum DownloadError {
    FileSendIo,
    UuidParse,
    Serialization,
    DbFailure(DbError),
    AuthError(AuthError),
    NotFound,
    InvalidPassword,
}

pub open spec fn spec_download_error_code(e: DownloadError) -> u16 {
    match e {
        DownloadError::FileSendIo => 500,
        DownloadError::UuidParse => 400,
        DownloadError::Serialization => 500,
        DownloadError::DbFailure(_) => 500,
        DownloadError::AuthError(a) => spec_auth_error_code(a),
        DownloadError::NotFound => 404,
        DownloadError::InvalidPassword => 401,
    }
}

impl DownloadError {
    pub fn code(&self) -> (c: u16)
        ensures
            c == spec_download_error_code(*self),
    {
        match self {
            DownloadError::FileSendIo => 500,
            DownloadError::UuidParse => 400,
            DownloadError::Serialization => 500,
            DownloadError::DbFailure(_) => 500,
            DownloadError::AuthError(a) => a.code(),
            DownloadError::NotFound => 404,
            DownloadError::InvalidPassword => 401,
        }
    }

    pub fn user_presentable(&self) -> (b: bool)
        ensures
            b == (match *self {
                DownloadError::FileSendIo => false,
                DownloadError::Serialization => false,
                DownloadError::DbFailure(_) => false,
                _ => true,
            }),
    {
        match self {
            DownloadError::FileSendIo => false,
            DownloadError::Serialization => false,
            DownloadError::DbFailure(_) => false,
            _ => true,
        }
    }

    pub fn content_type(&self) -> (c: ErrorContentType)
        ensures
            c == ErrorContentType::Json,
    {
        ErrorContentType::Json
    }
}

/// A request the route accepts: either the blob to serve, or a bare 401 for
/// a private entry read by anyone but its uploader.
pub enum DownloadOutcome {
    /// Serve the blob at `<root>/<bucket>/<uuid>`; the entry's download
    /// count has already been charged.
    Serve { uuid: Uuid, entry: FileEntry, bucket: String },
    /// A private entry and not its uploader: an empty 401 response.
    Unauthorized,
}

/// Whether a provided query value passes the password gate: it must decode
/// and the decoded text must equal the stored password exactly.
pub open spec fn spec_password_accepted(pv: Seq<char>, expected: Seq<char>) -> bool {
    url_decodable(pv) && url_decoded(pv) == expected
}

/// Whether a logged-in state may read a private entry: only its uploader.
pub open spec fn spec_private_access(e: FileEntry, user: Option<Account>) -> bool {
    e.visibility == Visibility::Public || (user matches Option::Some(a) && e.uploader_uuid
        matches Option::Some(up) && a.uuid == up)
}

/// The counted entry: one more download charged against the budget,
/// saturating at the integer limit.
pub open spec fn spec_counted(e: FileEntry) -> FileEntry {
    FileEntry {
        download_count: if e.download_count == u64::MAX {
            e.download_count
        } else {
            (e.download_count + 1) as u64
        },
        ..e
    }
}

/// Serves one download.  The entry must exist, be readable by the caller,
/// have its password matched when it carries one, and have budget and
/// lifetime left; then its download count is charged and the blob location
/// returned.
pub fn download(
    uuid_text: &str,
    cookie_header: Option<&str>,
    query: Option<&str>,
    now: u64,
    db: &mut Db,
    authorized_users: &AuthorizedUsers,
) -> (r: Result<DownloadOutcome, DownloadError>)
    requires
        old(db).wf(),
    ensures
        final(db).wf(),
        final(db).accounts == old(db).accounts,
        final(db).account_uuids == old(db).account_uuids,
        final(db).registration_codes == old(db).registration_codes,
        r is Err || (r matches Ok(DownloadOutcome::Unauthorized)) ==> *final(db) == *old(db),
        ({
            let parsed = spec_parse_uuid(uuid_text@);
            let hdr = match cookie_header {
                Option::Some(h) => Option::<Seq<char>>::Some(h@),
                Option::None => Option::<Seq<char>>::None,
            };
            &&& (parsed is None ==> r == Result::<DownloadOutcome, DownloadError>::Err(
                DownloadError::UuidParse,
            ))
            &&& (parsed matches Some(u) ==> match entry_get(old(db).file_entries@, u) {
                Option::None => r == Result::<DownloadOutcome, DownloadError>::Err(
                    DownloadError::NotFound,
                ),
                Option::Some(e) => match spec_logged_in_user(
                    hdr,
                    authorized_users.sessions@,
                    old(db).accounts@,
                ) {
                    Result::Err(ae) => r == Result::<DownloadOutcome, DownloadError>::Err(
                        DownloadError::AuthError(ae),
                    ),
                    Result::Ok(user) => {
                        if !spec_private_access(e, user) {
                            r matches Ok(DownloadOutcome::Unauthorized)
                        } else {
                            let gate = spec_password_gate(e, query);
                            &&& (gate matches PasswordGate::Fail ==> r == Result::<
                                DownloadOutcome,
                                DownloadError,
                            >::Err(DownloadError::InvalidPassword))
                            &&& (gate matches PasswordGate::Check(pv, expected) ==> (
                            spec_password_accepted(pv, expected) ==> r != Result::<
                                DownloadOutcome,
                                DownloadError,
                            >::Err(DownloadError::InvalidPassword)) && (!spec_password_accepted(
                                pv,
                                expected,
                            ) ==> r == Result::<DownloadOutcome, DownloadError>::Err(
                                DownloadError::InvalidPassword,
                            )))
                            &&& ((gate is Open || (gate matches PasswordGate::Check(pv2, exp2)
                                && r != Result::<DownloadOutcome, DownloadError>::Err(
                                DownloadError::InvalidPassword,
                            ))) ==> {
                                if spec_exhausted(e) || spec_expired(e, now) {
                                    r == Result::<DownloadOutcome, DownloadError>::Err(
                                        DownloadError::NotFound,
                                    )
                                } else {
                                    r matches Ok(DownloadOutcome::Serve { uuid, entry, bucket })
                                        && uuid == u && entry == spec_counted(e) && bucket@
                                        == bucket_chars(e.download_count_type) && entry_get(
                                        final(db).file_entries@,
                                        u,
                                    ) == Option::Some(spec_counted(e)) && (forall|k: Uuid|
                                        k != u ==> #[trigger] entry_get(
                                            final(db).file_entries@,
                                            k,
                                        ) == entry_get(old(db).file_entries@, k))
                                }
                            })
                        }
                    },
                },
            })
        }),
{
    let uuid = match parse_uuid(uuid_text) {
        Some(u) => u,
        None => {
            return Err(DownloadError::UuidParse);
        },
    };
    let entry = match db.get(&uuid) {
        Some(e) => e,
        None => {
            return Err(DownloadError::NotFound);
        },
    };
    let current_user = match get_logged_in_user(cookie_header, db, authorized_users) {
        Ok(u) => u,
        Err(ae) => {
            return Err(DownloadError::AuthError(ae));
        },
    };
    let visibility_ok: bool = match entry.visibility {
        Visibility::Public => true,
        Visibility::Private => match (&current_user, &entry.uploader_uuid) {
            (Some(a), Some(up)) => a.uuid == *up,
            _ => false,
        },
    };
    if !visibility_ok {
        return Ok(DownloadOutcome::Unauthorized);
    }
    match &entry.password {
        Some(p) => {
            let q = match query {
                Some(q) => q,
                None => {
                    return Err(DownloadError::InvalidPassword);
                },
            };
            let pairs = uri_query_iter(q);
            let provided = match query_get(&pairs, "password") {
                Some(v) => v,
                None => {
                    return Err(DownloadError::InvalidPassword);
                },
            };
            let decoded = match url_decode(provided.as_str()) {
                Some(d) => d,
                None => {
                    return Err(DownloadError::InvalidPassword);
                },
            };
            if !crate::strutil::str_eq(decoded.as_str(), p.0.as_str()) {
                return Err(DownloadError::InvalidPassword);
            }
        },
        None => (),
    }
    if is_exhausted(&entry) || is_expired(&entry, now) {
        return Err(DownloadError::NotFound);
    }
    let new_count: u64 = if entry.download_count == u64::MAX {
        entry.download_count
    } else {
        entry.download_count + 1
    };
    let mut counted = entry.clone();
    counted.download_count = new_count;
    let bucket = counted.download_count_type.bucket();
    match db.update(&uuid, counted.clone()) {
        Ok(()) => (),
        Err(e) => {
            proof {
                assert(false);
            }
            return Err(DownloadError::DbFailure(e));
        },
    }
    Ok(DownloadOutcome::Serve { uuid, entry: counted, bucket })
}

/// How the password gate reads a request: no gate, a value to check, or an
/// immediate failure (password set but none provided).
pub ghost enum PasswordGate {
    Open,
    Check(Seq<char>, Seq<char>),
    Fail,
}

/// The password gate for an entry and a query string: which provided value
/// must match which stored password, if any.
pub open spec fn spec_password_gate(e: FileEntry, query: Option<&str>) -> PasswordGate {
    match e.password {
        Option::None => PasswordGate::Open,
        Option::Some(p) => match query {
            Option::None => PasswordGate::Fail,
            Option::Some(q) => match query_lookup(spec_query_pairs(q@, 0), "password"@) {
                Option::None => PasswordGate::Fail,
                Option::Some(pv) => PasswordGate::Check(pv, p.0@),
            },
        },
    }
}

} // verus!
// The user-facing texts of the download errors.
verus! {

pub open spec fn spec_download_error_message(e: DownloadError) -> Seq<char> {
    match e {
        DownloadError::FileSendIo => "File io error"@,
        DownloadError::UuidParse => "File id is not a valid uuid"@,
        DownloadError::Serialization => "Serialization failure"@,
        DownloadError::DbFailure(de) => crate::db::spec_db_error_message(de),
        DownloadError::AuthError(ae) => crate::account::spec_auth_error_message(ae),
        DownloadError::NotFound => "File id not found or not present"@,
        DownloadError::InvalidPassword => "Invalid password"@,
    }
}

impl DownloadError {
    /// The user-facing message for this error.
    pub fn message(&self) -> (s: String)
        ensures
            s@ == spec_download_error_message(*self),
    {
        match self {
            DownloadError::FileSendIo => {
                let t = "File io error";
                t.to_owned()
            },
            DownloadError::UuidParse => {
                let t = "File id is not a valid uuid";
                t.to_owned()
            },
            DownloadError::Serialization => {
                let t = "Serialization failure";
                t.to_owned()
            },
            DownloadError::DbFailure(de) => de.message(),
            DownloadError::AuthError(ae) => ae.message(),
            DownloadError::NotFound => {
                let t = "File id not found or not present";
                t.to_owned()
            },
            DownloadError::InvalidPassword => {
                let t = "Invalid password";
                t.to_owned()
            },
        }
    }
}

} // verus!
