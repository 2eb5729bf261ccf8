//! The records the database stores: file entries, accounts and their kinds.
use vstd::prelude::*;

use crate::headers::{DownloadCount, Lifetime, Password, Visibility};
use crate::strutil::str_eq;

verus! {

/// A 128-bit identifier, shown to clients in its hyphenated hex form.
#[derive(Debug, Clone, Copy, PartialEq, Eq, Structural, Hash)]
pub struct Uuid(pub u128);

/// The authoritative record for one uploaded blob.
///
/// `upload_date` is a wall-clock instant in milliseconds; durations in
/// `lifetime` use the same unit.
#[derive(Debug)]
pub struct FileEntry {
    pub filename: String,
    pub content_type: String,
    pub uploader_uuid: Option<Uuid>,
    pub download_count_type: DownloadCount,
    pub download_count: u64,
    pub visibility: Visibility,
    pub password: Option<Password>,
    pub lifetime: Lifetime,
    pub upload_date: u64,
}

impl Clone for FileEntry {
    fn clone(&self) -> (r: Self)
        ensures
            r == *self,
    {
        FileEntry {
            filename: self.filename.clone(),
            content_type: self.content_type.clone(),
            uploader_uuid: self.uploader_uuid,
            download_count_type: self.download_count_type,
            download_count: self.download_count,
            visibility: self.visibility,
            password: match &self.password {
                Some(p) => Some(p.clone()),
                None => None,
            },
            lifetime: self.lifetime,
            upload_date: self.upload_date,
        }
    }
}

/// A user of the service; never mutated after creation.
#[derive(Debug)]
pub struct Account {
    pub uuid: Uuid,
    pub username: String,
    pub password_hash: String,
    pub acc_type: AccountType,
}

impl Clone for Account {
    fn clone(&self) -> (r: Self)
        ensures
            r == *self,
    {
        Account {
            uuid: self.uuid,
            username: self.username.clone(),
            password_hash: self.password_hash.clone(),
            acc_type: self.acc_type,
        }
    }
}

#[derive(Debug, Clone, Copy, PartialEq, Eq, Structural)]
pub enum AccountType {
    Admin,
    User,
}

#[derive(Debug, Clone, Copy, PartialEq, Eq, Structural)]
pub struct AccountTypeParseError;

impl AccountTypeParseError {
    /// The help text shown when an account type fails to parse.
    pub fn message(&self) -> (s: String)
        ensures
            s@ == "Possible account types: [admin|user]"@,
    {
        let s = "Possible account types: [admin|user]";
        s.to_owned()
    }
}

/// What an account-type string must parse to.
pub open spec fn spec_parse_account_type(s: Seq<char>) -> Result<
    AccountType,
    AccountTypeParseError,
> {
    if s == "admin"@ {
        Result::Ok(AccountType::Admin)
    } else if s == "user"@ {
        Result::Ok(AccountType::User)
    } else {
        Result::Err(AccountTypeParseError)
    }
}

impl AccountType {
    /// Parses `admin` or `user`.
    pub fn from_str(s: &str) -> (r: Result<AccountType, AccountTypeParseError>)
        ensures
            r == spec_parse_account_type(s@),
    {
        if str_eq(s, "admin") {
            Ok(AccountType::Admin)
        } else if str_eq(s, "user") {
            Ok(AccountType::User)
        } else {
            Err(AccountTypeParseError)
        }
    }
}

} // verus!
