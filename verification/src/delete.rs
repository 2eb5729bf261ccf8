//! The delete route: owners may remove their own entries, admins anyone's.
use vstd::prelude::*;

use crate::account::{get_logged_in_user, spec_auth_error_code, spec_logged_in_user, AuthError};
use crate::db::{entry_get, Db, DbError};
use crate::db_stuff::{Account, AccountType, FileEntry, Uuid};
use crate::error::ErrorContentType;
use crate::headers::bucket_chars;
use crate::uuid_text::{parse_uuid, spec_parse_uuid};
use crate::AuthorizedUsers;

verus! {

#[derive(Debug, Clone, Copy, PartialEq, Eq, Structural)]
pub enum DeleteError {
    UuidParse,
    DbFailure(DbError),
    AuthError(AuthError),
    NotFound,
    NotLoggedIn,
    NotAuthorized,
}

pub open spec fn spec_delete_error_code(e: DeleteError) -> u16 {
    match e {
        DeleteError::UuidParse => 400,
        DeleteError::DbFailure(_) => 500,
        DeleteError::AuthError(a) => spec_auth_error_code(a),
        DeleteError::NotFound => 404,
        DeleteError::NotAuthorized => 401,
        DeleteError::NotLoggedIn => 403,
    }
}

impl DeleteError {
    pub fn code(&self) -> (c: u16)
        ensures
            c == spec_delete_error_code(*self),
    {
        match self {
            DeleteError::UuidParse => 400,
            DeleteError::DbFailure(_) => 500,
            DeleteError::AuthError(a) => a.code(),
            DeleteError::NotFound => 404,
            DeleteError::NotAuthorized => 401,
            DeleteError::NotLoggedIn => 403,
        }
    }

    pub fn user_presentable(&self) -> (b: bool)
        ensures
            b == !(*self matches DeleteError::DbFailure(_)),
    {
        match self {
            DeleteError::DbFailure(_) => false,
            _ => true,
        }
    }

    pub fn content_type(&self) -> (c: ErrorContentType)
        ensures
            c == ErrorContentType::Json,
    {
        ErrorContentType::Json
    }
}

/// Who may delete an entry: an admin, or the uploader named by the entry.
pub open spec fn spec_delete_allowed(e: FileEntry, user: Account) -> bool {
    user.acc_type == AccountType::Admin || (e.uploader_uuid matches Option::Some(up) && user.uuid
        == up)
}

/// Deletes one entry: the caller must be logged in and be an admin or the
/// entry's uploader.  On success the entry is removed and the blob location
/// returned so the caller can delete the file.
pub fn delete(
    uuid_text: &str,
    cookie_header: Option<&str>,
    db: &mut Db,
    authorized_users: &AuthorizedUsers,
) -> (r: Result<(Uuid, FileEntry, String), DeleteError>)
    requires
        old(db).wf(),
    ensures
        final(db).wf(),
        final(db).accounts == old(db).accounts,
        final(db).account_uuids == old(db).account_uuids,
        final(db).registration_codes == old(db).registration_codes,
        r is Err ==> *final(db) == *old(db),
        ({
            let parsed = spec_parse_uuid(uuid_text@);
            let hdr = match cookie_header {
                Option::Some(h) => Option::<Seq<char>>::Some(h@),
                Option::None => Option::<Seq<char>>::None,
            };
            &&& (parsed is None ==> r == Result::<(Uuid, FileEntry, String), DeleteError>::Err(
                DeleteError::UuidParse,
            ))
            &&& (parsed matches Some(u) ==> match entry_get(old(db).file_entries@, u) {
                Option::None => r == Result::<(Uuid, FileEntry, String), DeleteError>::Err(
                    DeleteError::NotFound,
                ),
                Option::Some(e) => match spec_logged_in_user(
                    hdr,
                    authorized_users.sessions@,
                    old(db).accounts@,
                ) {
                    Result::Err(ae) => r == Result::<(Uuid, FileEntry, String), DeleteError>::Err(
                        DeleteError::AuthError(ae),
                    ),
                    Result::Ok(Option::None) => r == Result::<
                        (Uuid, FileEntry, String),
                        DeleteError,
                    >::Err(DeleteError::NotLoggedIn),
                    Result::Ok(Option::Some(user)) => if !spec_delete_allowed(e, user) {
                        r == Result::<(Uuid, FileEntry, String), DeleteError>::Err(
                            DeleteError::NotAuthorized,
                        )
                    } else {
                        r matches Ok((ru, re, bucket)) && ru == u && re == e && bucket@
                            == bucket_chars(e.download_count_type) && entry_get(
                            final(db).file_entries@,
                            u,
                        ) is None && (forall|k: Uuid|
                            k != u ==> #[trigger] entry_get(final(db).file_entries@, k)
                                == entry_get(old(db).file_entries@, k))
                    },
                },
            })
        }),
{
    let uuid = match parse_uuid(uuid_text) {
        Some(u) => u,
        None => {
            return Err(DeleteError::UuidParse);
        },
    };
    let entry = match db.get(&uuid) {
        Some(e) => e,
        None => {
            return Err(DeleteError::NotFound);
        },
    };
    let current_user = match get_logged_in_user(cookie_header, db, authorized_users) {
        Ok(Some(u)) => u,
        Ok(None) => {
            return Err(DeleteError::NotLoggedIn);
        },
        Err(ae) => {
            return Err(DeleteError::AuthError(ae));
        },
    };
    let authorized: bool = match current_user.acc_type {
        AccountType::Admin => true,
        AccountType::User => match &entry.uploader_uuid {
            Some(up) => current_user.uuid == *up,
            None => false,
        },
    };
    if !authorized {
        return Err(DeleteError::NotAuthorized);
    }
    let bucket = entry.download_count_type.bucket();
    db.remove(&uuid);
    Ok((uuid, entry, bucket))
}

} // verus!
// The user-facing texts of the delete errors.
verus! {

pub open spec fn spec_delete_error_message(e: DeleteError) -> Seq<char> {
    match e {
        DeleteError::UuidParse => "File id is not a valid uuid"@,
        DeleteError::DbFailure(de) => crate::db::spec_db_error_message(de),
        DeleteError::AuthError(ae) => crate::account::spec_auth_error_message(ae),
        DeleteError::NotFound => "File id not found or not present"@,
        DeleteError::NotLoggedIn => "Only logged in users can delete entries"@,
        DeleteError::NotAuthorized => "You can only delete your own files"@,
    }
}

impl DeleteError {
    /// The user-facing message for this error.
    pub fn message(&self) -> (s: String)
        ensures
            s@ == spec_delete_error_message(*self),
    {
        match self {
            DeleteError::UuidParse => {
                let t = "File id is not a valid uuid";
                t.to_owned()
            },
            DeleteError::DbFailure(de) => de.message(),
            DeleteError::AuthError(ae) => ae.message(),
            DeleteError::NotFound => {
                let t = "File id not found or not present";
                t.to_owned()
            },
            DeleteError::NotLoggedIn => {
                let t = "Only logged in users can delete entries";
                t.to_owned()
            },
            DeleteError::NotAuthorized => {
                let t = "You can only delete your own files";
                t.to_owned()
            },
        }
    }
}

} // verus!
