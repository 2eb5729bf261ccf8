//! Accounts and sessions: the authorization pipeline, login, registration
//! codes, and account creation.
use vstd::prelude::*;

use crate::cookie::{pairs_lookup, parse_cookie, render_set_cookie, spec_parse_cookie, spec_render,
    Cookie, SameSite, SpecCookie};
use crate::db::{entry_get, name_get, Db, DbError, RegistrationCode};
use crate::db_stuff::{Account, AccountType, Uuid};
use crate::error::{ErrorContentType, Field};
use crate::multipart::{MultipartError, MultipartHeader};
use crate::outside::{generate_salt, hash_password_with_salt, password_matches, phc_parseable,
    random_uuid, string_from_utf8, verify_password};
use crate::strutil::str_eq;
use crate::uuid_text::{fmt_uuid, parse_uuid, spec_parse_uuid, uuid_chars};
use crate::AuthorizedUsers;

verus! {

/// The request-body size cap for the small multipart forms (login and
/// account creation): five kilobytes.
pub const MAX_REQUEST_BODY_SIZE: usize = 5120;

#[derive(Debug, Clone, Copy, PartialEq, Eq, Structural)]
pub enum AuthError {
    AsciiOnly(Field),
    Malformed(Field),
    UuidParse,
    SessionExpired,
    UnknownUser,
}

impl AuthError {
    pub fn code(&self) -> (c: u16)
        ensures
            c == spec_auth_error_code(*self),
    {
        match self {
            AuthError::AsciiOnly(_) => 400,
            AuthError::Malformed(_) => 400,
            AuthError::UuidParse => 400,
            AuthError::SessionExpired => 401,
            AuthError::UnknownUser => 401,
        }
    }

    pub fn user_presentable(&self) -> (b: bool)
        ensures
            b,
    {
        true
    }
}

pub open spec fn spec_auth_error_code(e: AuthError) -> u16 {
    match e {
        AuthError::AsciiOnly(_) => 400,
        AuthError::Malformed(_) => 400,
        AuthError::UuidParse => 400,
        AuthError::SessionExpired => 401,
        AuthError::UnknownUser => 401,
    }
}

/// Resolving a request's `Cookie:` header to an account: parse the cookies,
/// read the `session` token, look it up in the session table, and load the
/// account it names.  No cookie or no `session` entry means an anonymous
/// request, not an error.
pub open spec fn spec_logged_in_user(
    cookie_header: Option<Seq<char>>,
    sessions: Seq<(Uuid, Uuid)>,
    accounts: Seq<(Uuid, Account)>,
) -> Result<Option<Account>, AuthError> {
    match cookie_header {
        Option::None => Result::Ok(Option::None),
        Option::Some(h) => match spec_parse_cookie(h) {
            Option::None => Result::Err(AuthError::Malformed(Field::Cookie)),
            Option::Some(pairs) => match pairs_lookup(pairs, "session"@) {
                Option::None => Result::Ok(Option::None),
                Option::Some(sv) => match spec_parse_uuid(sv) {
                    Option::None => Result::Err(AuthError::UuidParse),
                    Option::Some(su) => match entry_get(sessions, su) {
                        Option::None => Result::Err(AuthError::SessionExpired),
                        Option::Some(uu) => match entry_get(accounts, uu) {
                            Option::None => Result::Err(AuthError::UnknownUser),
                            Option::Some(a) => Result::Ok(Option::Some(a)),
                        },
                    },
                },
            },
        },
    }
}

/// Resolves the logged-in account behind a request, if any.
pub fn get_logged_in_user(
    cookie_header: Option<&str>,
    db: &Db,
    authorized_users: &AuthorizedUsers,
) -> (r: Result<Option<Account>, AuthError>)
    ensures
        r == spec_logged_in_user(
            match cookie_header {
                Option::Some(h) => Option::Some(h@),
                Option::None => Option::None,
            },
            authorized_users.sessions@,
            db.accounts@,
        ),
{
    let header = match cookie_header {
        Some(h) => h,
        None => {
            return Ok(None);
        },
    };
    let pairs = match parse_cookie(header) {
        Some(p) => p,
        None => {
            return Err(AuthError::Malformed(Field::Cookie));
        },
    };
    let session_value = match crate::cookie::cookie_get(&pairs, "session") {
        Some(v) => v,
        None => {
            return Ok(None);
        },
    };
    let session_uuid = match parse_uuid(session_value.as_str()) {
        Some(u) => u,
        None => {
            return Err(AuthError::UuidParse);
        },
    };
    let user_uuid = match authorized_users.get_user_uuid(&session_uuid) {
        Some(u) => u,
        None => {
            return Err(AuthError::SessionExpired);
        },
    };
    match db.get_account(&user_uuid) {
        Some(a) => Ok(Some(a)),
        None => Err(AuthError::UnknownUser),
    }
}

/// The last value for a form field name among the read multipart chunks,
/// as the handlers read them.
pub open spec fn chunk_field(chunks: Seq<(MultipartHeader, Vec<u8>)>, name: Seq<char>) -> Option<
    Seq<u8>,
>
    decreases chunks.len(),
{
    if chunks.len() == 0 {
        Option::None
    } else if chunks.last().0.name@ == name {
        Option::Some(chunks.last().1@)
    } else {
        chunk_field(chunks.drop_last(), name)
    }
}

/// Last chunk whose header carries the given field name.
pub fn find_chunk_field<'a>(chunks: &'a Vec<(MultipartHeader, Vec<u8>)>, name: &str) -> (r: Option<
    &'a Vec<u8>,
>)
    ensures
        match r {
            Option::Some(v) => chunk_field(chunks@, name@) == Option::Some(v@),
            Option::None => chunk_field(chunks@, name@) is None,
        },
{
    let mut i: usize = chunks.len();
    proof {
        assert(chunks@.subrange(0, chunks@.len() as int) =~= chunks@);
    }
    while i > 0
        invariant
            i <= chunks@.len(),
            chunk_field(chunks@, name@) == chunk_field(chunks@.subrange(0, i as int), name@),
        decreases i,
    {
        i = i - 1;
        proof {
            let pfx = chunks@.subrange(0, i as int + 1);
            assert(pfx.last() == chunks@[i as int]);
            assert(pfx.drop_last() =~= chunks@.subrange(0, i as int));
        }
        if str_eq(chunks[i].0.name.as_str(), name) {
            return Some(&chunks[i].1);
        }
    }
    proof {
        assert(chunks@.subrange(0, 0) =~= Seq::<(MultipartHeader, Vec<u8>)>::empty());
    }
    None
}

#[derive(Debug, Clone, Copy, PartialEq, Eq, Structural)]
pub enum LoginError {
    LoginFail,
    Boundary,
    Multipart(MultipartError),
    ExpectedUsername,
    ExpectedPassword,
    BodyTooBig,
    PasswordHash,
    UsernameUtf8,
    PasswordUtf8,
}

impl LoginError {
    pub fn code(&self) -> (c: u16)
        ensures
            *self matches LoginError::LoginFail ==> c == 401,
            !(*self matches LoginError::LoginFail) ==> c == 400,
    {
        match self {
            LoginError::LoginFail => 401,
            _ => 400,
        }
    }

    pub fn user_presentable(&self) -> (b: bool)
        ensures
            b,
    {
        true
    }

    pub fn content_type(&self) -> (c: ErrorContentType)
        ensures
            c == ErrorContentType::Json,
    {
        ErrorContentType::Json
    }
}

/// A successful login: the minted session token and the `Set-Cookie` value
/// that carries it.
pub struct LoginOk {
    pub session_token: Uuid,
    pub account_uuid: Uuid,
    pub set_cookie: String,
}

/// The session cookie sent on login: `Secure; HttpOnly; SameSite=None`.
pub open spec fn login_cookie(token: Uuid) -> SpecCookie {
    SpecCookie {
        name: "session"@,
        value: uuid_chars(token.0),
        expires: Option::None,
        max_age: Option::None,
        domain: Option::None,
        path: Option::None,
        secure: true,
        http_only: true,
        same_site: Option::Some(SameSite::NoneValue),
    }
}

/// What a login form decides, up to the randomly minted session token:
/// both fields must be present and valid UTF-8, the username must resolve
/// to an account, and the password must verify against its stored hash.
/// Unknown usernames and wrong passwords fail alike.
pub open spec fn spec_login(
    chunks: Seq<(MultipartHeader, Vec<u8>)>,
    account_uuids: Seq<(String, Uuid)>,
    accounts: Seq<(Uuid, Account)>,
) -> Result<Account, LoginError> {
    match chunk_field(chunks, "username"@) {
        Option::None => Result::Err(LoginError::ExpectedUsername),
        Option::Some(ub) => {
            if !vstd::utf8::valid_utf8(ub) {
                Result::Err(LoginError::UsernameUtf8)
            } else {
                match chunk_field(chunks, "password"@) {
                    Option::None => Result::Err(LoginError::ExpectedPassword),
                    Option::Some(pb) => {
                        if !vstd::utf8::valid_utf8(pb) {
                            Result::Err(LoginError::PasswordUtf8)
                        } else {
                            let username = vstd::utf8::decode_utf8(ub);
                            let password = vstd::utf8::decode_utf8(pb);
                            match name_get(account_uuids, username) {
                                Option::None => Result::Err(LoginError::LoginFail),
                                Option::Some(uu) => match entry_get(accounts, uu) {
                                    Option::None => Result::Err(LoginError::LoginFail),
                                    Option::Some(a) => if !phc_parseable(a.password_hash@) {
                                        Result::Err(LoginError::PasswordHash)
                                    } else if !password_matches(password, a.password_hash@) {
                                        Result::Err(LoginError::LoginFail)
                                    } else {
                                        Result::Ok(a)
                                    },
                                },
                            }
                        }
                    },
                }
            }
        },
    }
}

/// Logs a user in from the fields of an already-read multipart form.
/// On success a fresh session token is bound to the account and returned
/// with its `Set-Cookie` text.
pub fn login(
    chunks: &Vec<(MultipartHeader, Vec<u8>)>,
    db: &Db,
    authorized_users: &mut AuthorizedUsers,
) -> (r: Result<LoginOk, LoginError>)
    ensures
        match r {
            Result::Ok(ok) => {
                &&& spec_login(chunks@, db.account_uuids@, db.accounts@) matches Result::Ok(a)
                    && a.uuid == ok.account_uuid
                &&& final(authorized_users).sessions@ == old(authorized_users).sessions@.push(
                    (ok.session_token, ok.account_uuid),
                )
                &&& ok.set_cookie@ == spec_render(login_cookie(ok.session_token))
            },
            Result::Err(e) => spec_login(chunks@, db.account_uuids@, db.accounts@) == Result::<
                Account,
                LoginError,
            >::Err(e) && final(authorized_users).sessions@ == old(authorized_users).sessions@,
        },
{
    let username_bytes = match find_chunk_field(chunks, "username") {
        Some(v) => v,
        None => {
            return Err(LoginError::ExpectedUsername);
        },
    };
    let username = match string_from_utf8(username_bytes.clone()) {
        Some(s) => s,
        None => {
            return Err(LoginError::UsernameUtf8);
        },
    };
    let password_bytes = match find_chunk_field(chunks, "password") {
        Some(v) => v,
        None => {
            return Err(LoginError::ExpectedPassword);
        },
    };
    let password = match string_from_utf8(password_bytes.clone()) {
        Some(s) => s,
        None => {
            return Err(LoginError::PasswordUtf8);
        },
    };
    let account_uuid = match db.get_account_uuid(username.as_str()) {
        Some(u) => u,
        None => {
            return Err(LoginError::LoginFail);
        },
    };
    let account = match db.get_account(&account_uuid) {
        Some(a) => a,
        None => {
            return Err(LoginError::LoginFail);
        },
    };
    match verify_password(password.as_str(), account.password_hash.as_str()) {
        None => Err(LoginError::PasswordHash),
        Some(false) => Err(LoginError::LoginFail),
        Some(true) => {
            let session_token = Uuid(random_uuid());
            authorized_users.insert(session_token, account.uuid);
            let cookie = Cookie {
                name: {
                    let s = "session";
                    s.to_owned()
                },
                value: fmt_uuid(&session_token),
                expires: None,
                max_age: None,
                domain: None,
                path: None,
                secure: true,
                http_only: true,
                same_site: Some(SameSite::NoneValue),
            };
            let set_cookie = render_set_cookie(&cookie);
            Ok(LoginOk { session_token, account_uuid: account.uuid, set_cookie })
        },
    }
}

#[derive(Debug, Clone, Copy, PartialEq, Eq, Structural)]
pub enum LogoutError {
    ExpectedJson,
    ExpectedUsername,
    ExpectedPassword,
    BodyTooBig,
    LoginFail,
    PasswordHash,
}

#[derive(Debug, Clone, Copy, PartialEq, Eq, Structural)]
pub enum CreateRegistrationCodeError {
    AuthError(AuthError),
    Unauthorized,
    InsufficientPermissions,
}

impl CreateRegistrationCodeError {
    pub fn code(&self) -> (c: u16)
        ensures
            c == (match *self {
                CreateRegistrationCodeError::AuthError(e) => spec_auth_error_code(e),
                CreateRegistrationCodeError::Unauthorized => 401,
                CreateRegistrationCodeError::InsufficientPermissions => 401,
            }),
    {
        match self {
            CreateRegistrationCodeError::AuthError(e) => e.code(),
            CreateRegistrationCodeError::Unauthorized => 401,
            CreateRegistrationCodeError::InsufficientPermissions => 401,
        }
    }

    pub fn user_presentable(&self) -> (b: bool)
        ensures
            b,
    {
        true
    }

    pub fn content_type(&self) -> (c: ErrorContentType)
        ensures
            c == ErrorContentType::PlainText,
    {
        ErrorContentType::PlainText
    }
}

/// Who may mint registration codes: admins with a live session, and only
/// they.
pub open spec fn spec_create_registration_code_auth(
    cookie_header: Option<Seq<char>>,
    sessions: Seq<(Uuid, Uuid)>,
    accounts: Seq<(Uuid, Account)>,
) -> Result<Account, CreateRegistrationCodeError> {
    match spec_logged_in_user(cookie_header, sessions, accounts) {
        Result::Err(e) => Result::Err(CreateRegistrationCodeError::AuthError(e)),
        Result::Ok(Option::None) => Result::Err(CreateRegistrationCodeError::Unauthorized),
        Result::Ok(Option::Some(a)) => if a.acc_type == AccountType::Admin {
            Result::Ok(a)
        } else {
            Result::Err(CreateRegistrationCodeError::InsufficientPermissions)
        },
    }
}

/// Mints a registration code for the given account kind.  Admin-only: the
/// request must carry a live admin session.  The code is a fresh identifier
/// in text form, appended to the registration-code list.
pub fn create_registration_code(
    cookie_header: Option<&str>,
    db: &mut Db,
    authorized_users: &AuthorizedUsers,
    account_kind: AccountType,
) -> (r: Result<String, CreateRegistrationCodeError>)
    ensures
        match r {
            Result::Ok(code) => {
                &&& spec_create_registration_code_auth(
                    match cookie_header {
                        Option::Some(h) => Option::Some(h@),
                        Option::None => Option::None,
                    },
                    authorized_users.sessions@,
                    old(db).accounts@,
                ) is Ok
                &&& final(db).registration_codes@.len() == old(db).registration_codes@.len() + 1
                &&& final(db).registration_codes@.last().code@ == code@
                &&& final(db).registration_codes@.last().account_kind == account_kind
                &&& forall|j: int|
                    0 <= j < old(db).registration_codes@.len() ==> final(db).registration_codes@[j]
                        == old(db).registration_codes@[j]
                &&& final(db).file_entries == old(db).file_entries
                &&& final(db).accounts == old(db).accounts
                &&& final(db).account_uuids == old(db).account_uuids
            },
            Result::Err(e) => spec_create_registration_code_auth(
                match cookie_header {
                    Option::Some(h) => Option::Some(h@),
                    Option::None => Option::None,
                },
                authorized_users.sessions@,
                old(db).accounts@,
            ) == Result::<Account, CreateRegistrationCodeError>::Err(e) && *final(db) == *old(db),
        },
        final(db).wf() == old(db).wf(),
{
    let current_user = match get_logged_in_user(cookie_header, db, authorized_users) {
        Ok(u) => u,
        Err(e) => {
            return Err(CreateRegistrationCodeError::AuthError(e));
        },
    };
    let current_user = match current_user {
        Some(u) => u,
        None => {
            return Err(CreateRegistrationCodeError::Unauthorized);
        },
    };
    match current_user.acc_type {
        AccountType::Admin => (),
        AccountType::User => {
            return Err(CreateRegistrationCodeError::InsufficientPermissions);
        },
    }
    let code_uuid = Uuid(random_uuid());
    let code = fmt_uuid(&code_uuid);
    db.registration_codes.push(RegistrationCode { code: code.clone(), account_kind });
    Ok(code)
}

/// First registration-code record carrying the given code.
pub open spec fn spec_find_registration_code(
    codes: Seq<RegistrationCode>,
    code: Seq<char>,
) -> Option<RegistrationCode>
    decreases codes.len(),
{
    if codes.len() == 0 {
        Option::None
    } else if codes[0].code@ == code {
        Option::Some(codes[0])
    } else {
        spec_find_registration_code(codes.drop_first(), code)
    }
}

/// A found record carries the code it was looked up by.
pub proof fn lemma_find_code_self(codes: Seq<RegistrationCode>, code: Seq<char>)
    ensures
        spec_find_registration_code(codes, code) matches Option::Some(rc) ==> rc.code@ == code,
    decreases codes.len(),
{
    if codes.len() > 0 && codes[0].code@ != code {
        lemma_find_code_self(codes.drop_first(), code);
    }
}

/// Looks a registration code up in the database.
pub fn find_registration_code(db: &Db, registration_code: &str) -> (r: Option<RegistrationCode>)
    ensures
        r == spec_find_registration_code(db.registration_codes@, registration_code@),
{
    let n = db.registration_codes.len();
    let mut i: usize = 0;
    proof {
        assert(db.registration_codes@.subrange(0, n as int) =~= db.registration_codes@);
    }
    while i < n
        invariant
            i <= n,
            n == db.registration_codes@.len(),
            spec_find_registration_code(db.registration_codes@, registration_code@)
                == spec_find_registration_code(
                db.registration_codes@.subrange(i as int, n as int),
                registration_code@,
            ),
        decreases n - i,
    {
        proof {
            let sfx = db.registration_codes@.subrange(i as int, n as int);
            assert(sfx[0] == db.registration_codes@[i as int]);
            assert(sfx.drop_first() =~= db.registration_codes@.subrange(i as int + 1, n as int));
        }
        if str_eq(db.registration_codes[i].code.as_str(), registration_code) {
            return Some(db.registration_codes[i].clone());
        }
        i = i + 1;
    }
    proof {
        assert(db.registration_codes@.subrange(n as int, n as int) =~= Seq::<
            RegistrationCode,
        >::empty());
    }
    None
}

#[derive(Debug, Clone, Copy, PartialEq, Eq, Structural)]
pub enum CheckRegistrationCodeError {
    InvalidRegistrationCode,
}

impl CheckRegistrationCodeError {
    pub fn code(&self) -> (c: u16)
        ensures
            c == 404,
    {
        404
    }

    pub fn user_presentable(&self) -> (b: bool)
        ensures
            b,
    {
        true
    }

    pub fn content_type(&self) -> (c: ErrorContentType)
        ensures
            c == ErrorContentType::Json,
    {
        ErrorContentType::Json
    }
}

/// Reports the account kind a registration code grants; 404 for unknown
/// codes.
pub fn check_registration_code(registration_code: &str, db: &Db) -> (r: Result<
    AccountType,
    CheckRegistrationCodeError,
>)
    ensures
        match r {
            Result::Ok(kind) => spec_find_registration_code(
                db.registration_codes@,
                registration_code@,
            ) matches Option::Some(c) && c.account_kind == kind,
            Result::Err(e) => spec_find_registration_code(
                db.registration_codes@,
                registration_code@,
            ) is None && e == CheckRegistrationCodeError::InvalidRegistrationCode,
        },
{
    match find_registration_code(db, registration_code) {
        Some(c) => Ok(c.account_kind),
        None => Err(CheckRegistrationCodeError::InvalidRegistrationCode),
    }
}

} // verus!
// Account creation: from the CLI and from a registration code.
verus! {

#[derive(Debug, Clone, Copy, PartialEq, Eq, Structural)]
pub enum CreateAccountError {
    DbFailure(DbError),
    AccountAlreadyExists,
    PasswordsDoNotMatch,
    PasswordHashingError,
}

pub open spec fn spec_create_account_error_code(e: CreateAccountError) -> u16 {
    match e {
        CreateAccountError::DbFailure(_) => 500,
        CreateAccountError::AccountAlreadyExists => 400,
        CreateAccountError::PasswordsDoNotMatch => 400,
        CreateAccountError::PasswordHashingError => 500,
    }
}

pub open spec fn spec_create_account_error_presentable(e: CreateAccountError) -> bool {
    match e {
        CreateAccountError::DbFailure(_) => false,
        CreateAccountError::AccountAlreadyExists => true,
        CreateAccountError::PasswordsDoNotMatch => true,
        CreateAccountError::PasswordHashingError => false,
    }
}

impl CreateAccountError {
    pub fn code(&self) -> (c: u16)
        ensures
            c == spec_create_account_error_code(*self),
    {
        match self {
            CreateAccountError::DbFailure(_) => 500,
            CreateAccountError::AccountAlreadyExists => 400,
            CreateAccountError::PasswordsDoNotMatch => 400,
            CreateAccountError::PasswordHashingError => 500,
        }
    }

    pub fn user_presentable(&self) -> (b: bool)
        ensures
            b == spec_create_account_error_presentable(*self),
    {
        match self {
            CreateAccountError::DbFailure(_) => false,
            CreateAccountError::AccountAlreadyExists => true,
            CreateAccountError::PasswordsDoNotMatch => true,
            CreateAccountError::PasswordHashingError => false,
        }
    }
}

/// Creates an account under a fresh UUID: the username must be free, the
/// password is hashed with a fresh salt, and the username index gains the
/// new binding.
pub fn create_account(
    db: &mut Db,
    username: String,
    acc_type: AccountType,
    password: &str,
) -> (r: Result<Uuid, CreateAccountError>)
    requires
        old(db).wf(),
    ensures
        final(db).wf(),
        match r {
            Result::Ok(uuid) => {
                &&& name_get(old(db).account_uuids@, username@) is None
                &&& (entry_get(final(db).accounts@, uuid) matches Option::Some(a) && a.uuid == uuid
                    && a.username == username && a.acc_type == acc_type && password_matches(
                    password@,
                    a.password_hash@,
                ) && phc_parseable(a.password_hash@))
                &&& name_get(final(db).account_uuids@, username@) == Option::Some(uuid)
                &&& forall|k: Uuid|
                    k != uuid ==> #[trigger] entry_get(final(db).accounts@, k) == entry_get(
                        old(db).accounts@,
                        k,
                    )
                &&& forall|nm: Seq<char>|
                    nm != username@ ==> #[trigger] name_get(final(db).account_uuids@, nm)
                        == name_get(old(db).account_uuids@, nm)
                &&& (old(db).index_consistent() ==> final(db).index_consistent())
                &&& final(db).file_entries == old(db).file_entries
                &&& final(db).registration_codes == old(db).registration_codes
            },
            Result::Err(e) => {
                &&& *final(db) == *old(db)
                &&& (e == CreateAccountError::AccountAlreadyExists <==> name_get(
                    old(db).account_uuids@,
                    username@,
                ) is Some)
                &&& e != CreateAccountError::PasswordsDoNotMatch
            },
        },
{
    if db.get_account_uuid(username.as_str()).is_some() {
        return Err(CreateAccountError::AccountAlreadyExists);
    }
    let salt = generate_salt();
    let password_hash = match hash_password_with_salt(password, &salt) {
        Some(h) => h,
        None => {
            return Err(CreateAccountError::PasswordHashingError);
        },
    };
    let account_uuid = Uuid(random_uuid());
    let account = Account { uuid: account_uuid, username, password_hash, acc_type };
    match db.add_account(account_uuid, account) {
        Ok(()) => Ok(account_uuid),
        Err(e) => Err(CreateAccountError::DbFailure(e)),
    }
}

#[derive(Debug, Clone, Copy, PartialEq, Eq, Structural)]
pub enum CreateAccountFromRegistrationCodeError {
    Boundary,
    Multipart(MultipartError),
    InvalidRegistrationCode,
    RequestTooBig,
    BadRequest,
    FieldUtf8,
    CreateAccount(CreateAccountError),
}

pub open spec fn spec_redeem_error_code(e: CreateAccountFromRegistrationCodeError) -> u16 {
    match e {
        CreateAccountFromRegistrationCodeError::Boundary => 400,
        CreateAccountFromRegistrationCodeError::Multipart(_) => 400,
        CreateAccountFromRegistrationCodeError::InvalidRegistrationCode => 200,
        CreateAccountFromRegistrationCodeError::RequestTooBig => 413,
        CreateAccountFromRegistrationCodeError::BadRequest => 400,
        CreateAccountFromRegistrationCodeError::FieldUtf8 => 400,
        CreateAccountFromRegistrationCodeError::CreateAccount(e2) => spec_create_account_error_code(
            e2,
        ),
    }
}

impl CreateAccountFromRegistrationCodeError {
    pub fn code(&self) -> (c: u16)
        ensures
            c == spec_redeem_error_code(*self),
    {
        match self {
            CreateAccountFromRegistrationCodeError::Boundary => 400,
            CreateAccountFromRegistrationCodeError::Multipart(_) => 400,
            CreateAccountFromRegistrationCodeError::InvalidRegistrationCode => 200,
            CreateAccountFromRegistrationCodeError::RequestTooBig => 413,
            CreateAccountFromRegistrationCodeError::BadRequest => 400,
            CreateAccountFromRegistrationCodeError::FieldUtf8 => 400,
            CreateAccountFromRegistrationCodeError::CreateAccount(e) => e.code(),
        }
    }

    pub fn user_presentable(&self) -> (b: bool)
        ensures
            b == (match *self {
                CreateAccountFromRegistrationCodeError::CreateAccount(
                    e,
                ) => spec_create_account_error_presentable(e),
                _ => true,
            }),
    {
        match self {
            CreateAccountFromRegistrationCodeError::CreateAccount(e) => e.user_presentable(),
            _ => true,
        }
    }

    pub fn content_type(&self) -> (c: ErrorContentType)
        ensures
            c == ErrorContentType::Json,
    {
        ErrorContentType::Json
    }
}

/// The response to a successful account creation.
pub struct CreateAccountResponse {
    pub uuid: Uuid,
    pub session_token: Uuid,
    pub set_cookie: String,
}

/// What a redemption form decides, before any outside call: all three
/// fields present and valid UTF-8, the code known, the username free; the
/// found code fixes the new account's kind.
pub open spec fn spec_redeem(
    chunks: Seq<(MultipartHeader, Vec<u8>)>,
    codes: Seq<RegistrationCode>,
    account_uuids: Seq<(String, Uuid)>,
) -> Result<(Seq<char>, Seq<char>, AccountType), CreateAccountFromRegistrationCodeError> {
    match chunk_field(chunks, "registration_code"@) {
        Option::None => Result::Err(CreateAccountFromRegistrationCodeError::BadRequest),
        Option::Some(cb) => {
            if !vstd::utf8::valid_utf8(cb) {
                Result::Err(CreateAccountFromRegistrationCodeError::FieldUtf8)
            } else {
                match chunk_field(chunks, "username"@) {
                    Option::None => Result::Err(CreateAccountFromRegistrationCodeError::BadRequest),
                    Option::Some(ub) => {
                        if !vstd::utf8::valid_utf8(ub) {
                            Result::Err(CreateAccountFromRegistrationCodeError::FieldUtf8)
                        } else {
                            match chunk_field(chunks, "password"@) {
                                Option::None => Result::Err(
                                    CreateAccountFromRegistrationCodeError::BadRequest,
                                ),
                                Option::Some(pb) => {
                                    if !vstd::utf8::valid_utf8(pb) {
                                        Result::Err(
                                            CreateAccountFromRegistrationCodeError::FieldUtf8,
                                        )
                                    } else {
                                        match spec_find_registration_code(
                                            codes,
                                            vstd::utf8::decode_utf8(cb),
                                        ) {
                                            Option::None => Result::Err(
                                                CreateAccountFromRegistrationCodeError::InvalidRegistrationCode,
                                            ),
                                            Option::Some(rc) => {
                                                if name_get(
                                                    account_uuids,
                                                    vstd::utf8::decode_utf8(ub),
                                                ) is Some {
                                                    Result::Err(
                                                        CreateAccountFromRegistrationCodeError::CreateAccount(
                                                            CreateAccountError::AccountAlreadyExists,
                                                        ),
                                                    )
                                                } else {
                                                    Result::Ok(
                                                        (
                                                            vstd::utf8::decode_utf8(ub),
                                                            vstd::utf8::decode_utf8(pb),
                                                            rc.account_kind,
                                                        ),
                                                    )
                                                }
                                            },
                                        }
                                    }
                                },
                            }
                        }
                    },
                }
            }
        },
    }
}

/// The session cookie sent on registration redemption: `Secure; HttpOnly`.
pub open spec fn registration_cookie(token: Uuid) -> SpecCookie {
    SpecCookie {
        name: "session"@,
        value: uuid_chars(token.0),
        expires: Option::None,
        max_age: Option::None,
        domain: Option::None,
        path: Option::None,
        secure: true,
        http_only: true,
        same_site: Option::None,
    }
}

/// Redeems a registration code: the form must carry `registration_code`,
/// `username` and `password`; the code must exist and fixes the account
/// kind; the new account is logged in at once.
pub fn create_account_from_registration_code(
    chunks: &Vec<(MultipartHeader, Vec<u8>)>,
    db: &mut Db,
    authorized_users: &mut AuthorizedUsers,
) -> (r: Result<CreateAccountResponse, CreateAccountFromRegistrationCodeError>)
    requires
        old(db).wf(),
    ensures
        final(db).wf(),
        ({
            let decision = spec_redeem(
                chunks@,
                old(db).registration_codes@,
                old(db).account_uuids@,
            );
            match r {
                Result::Ok(ok) => {
                    &&& (decision matches Result::Ok(d) && {
                        &&& (entry_get(final(db).accounts@, ok.uuid) matches Option::Some(a)
                            && a.uuid == ok.uuid && a.username@ == d.0 && a.acc_type == d.2
                            && password_matches(d.1, a.password_hash@) && phc_parseable(
                            a.password_hash@,
                        ))
                        &&& name_get(final(db).account_uuids@, d.0) == Option::Some(ok.uuid)
                    })
                    &&& final(authorized_users).sessions@ == old(authorized_users).sessions@.push(
                        (ok.session_token, ok.uuid),
                    )
                    &&& ok.set_cookie@ == spec_render(registration_cookie(ok.session_token))
                    &&& final(db).file_entries == old(db).file_entries
                    &&& final(db).registration_codes == old(db).registration_codes
                },
                Result::Err(e) => {
                    &&& *final(db) == *old(db)
                    &&& final(authorized_users).sessions@ == old(authorized_users).sessions@
                    &&& (match decision {
                        Result::Err(de) => e == de,
                        Result::Ok(_) => e
                            matches CreateAccountFromRegistrationCodeError::CreateAccount(ce) && (
                        ce is PasswordHashingError || ce matches CreateAccountError::DbFailure(_)),
                    })
                },
            }
        }),
{
    let code_bytes = match find_chunk_field(chunks, "registration_code") {
        Some(v) => v,
        None => {
            return Err(CreateAccountFromRegistrationCodeError::BadRequest);
        },
    };
    let code = match string_from_utf8(code_bytes.clone()) {
        Some(s) => s,
        None => {
            return Err(CreateAccountFromRegistrationCodeError::FieldUtf8);
        },
    };
    let username_bytes = match find_chunk_field(chunks, "username") {
        Some(v) => v,
        None => {
            return Err(CreateAccountFromRegistrationCodeError::BadRequest);
        },
    };
    let username = match string_from_utf8(username_bytes.clone()) {
        Some(s) => s,
        None => {
            return Err(CreateAccountFromRegistrationCodeError::FieldUtf8);
        },
    };
    let password_bytes = match find_chunk_field(chunks, "password") {
        Some(v) => v,
        None => {
            return Err(CreateAccountFromRegistrationCodeError::BadRequest);
        },
    };
    let password = match string_from_utf8(password_bytes.clone()) {
        Some(s) => s,
        None => {
            return Err(CreateAccountFromRegistrationCodeError::FieldUtf8);
        },
    };
    let reg_code = match find_registration_code(db, code.as_str()) {
        Some(c) => c,
        None => {
            return Err(CreateAccountFromRegistrationCodeError::InvalidRegistrationCode);
        },
    };
    let uuid = match create_account(db, username, reg_code.account_kind, password.as_str()) {
        Ok(u) => u,
        Err(e) => {
            return Err(CreateAccountFromRegistrationCodeError::CreateAccount(e));
        },
    };
    let session_token = Uuid(random_uuid());
    authorized_users.insert(session_token, uuid);
    let cookie = Cookie {
        name: {
            let s = "session";
            s.to_owned()
        },
        value: fmt_uuid(&session_token),
        expires: None,
        max_age: None,
        domain: None,
        path: None,
        secure: true,
        http_only: true,
        same_site: None,
    };
    let set_cookie = render_set_cookie(&cookie);
    proof {
        lemma_find_code_self(old(db).registration_codes@, code@);
        assert(spec_find_registration_code(old(db).registration_codes@, reg_code.code@)
            == Option::Some(reg_code));
    }
    Ok(CreateAccountResponse { uuid, session_token, set_cookie })
}

} // verus!
// The user-facing texts of the account-route errors.
verus! {

pub open spec fn spec_auth_error_message(e: AuthError) -> Seq<char> {
    match e {
        AuthError::AsciiOnly(f) => crate::error::spec_field_name(f)
            + " must only contain visible ascii characters"@,
        AuthError::Malformed(f) => "Malformed "@ + crate::error::spec_field_name(f) + " data"@,
        AuthError::UuidParse => "malformed uuid"@,
        AuthError::SessionExpired => "Session expired"@,
        AuthError::UnknownUser => "Authorized user doesn't exist"@,
    }
}

impl AuthError {
    /// The user-facing message for this error.
    pub fn message(&self) -> (s: String)
        ensures
            s@ == spec_auth_error_message(*self),
    {
        match self {
            AuthError::AsciiOnly(f) => {
                let mut s = f.name();
                s.append(" must only contain visible ascii characters");
                s
            },
            AuthError::Malformed(f) => {
                let mut s = String::new();
                s.append("Malformed ");
                s.append(f.name().as_str());
                s.append(" data");
                s
            },
            AuthError::UuidParse => {
                let t = "malformed uuid";
                t.to_owned()
            },
            AuthError::SessionExpired => {
                let t = "Session expired";
                t.to_owned()
            },
            AuthError::UnknownUser => {
                let t = "Authorized user doesn't exist";
                t.to_owned()
            },
        }
    }
}

pub open spec fn spec_login_error_message(e: LoginError) -> Seq<char> {
    match e {
        LoginError::LoginFail => "Invalid username or password"@,
        LoginError::Boundary => "Multipart/form-data upload must define a boundary"@,
        LoginError::Multipart(me) => crate::multipart::spec_multipart_error_message(me),
        LoginError::ExpectedUsername => "Username is missing from request body"@,
        LoginError::ExpectedPassword => "Password is missing from request body"@,
        LoginError::BodyTooBig => "Request body is too big"@,
        LoginError::PasswordHash => "Hash problem"@,
        LoginError::UsernameUtf8 => "Expected a valid utf-8 sequence in: username data"@,
        LoginError::PasswordUtf8 => "Expected a valid utf-8 sequence in: password data"@,
    }
}

impl LoginError {
    /// The user-facing message for this error.
    pub fn message(&self) -> (s: String)
        ensures
            s@ == spec_login_error_message(*self),
    {
        match self {
            LoginError::LoginFail => {
                let t = "Invalid username or password";
                t.to_owned()
            },
            LoginError::Boundary => {
                let t = "Multipart/form-data upload must define a boundary";
                t.to_owned()
            },
            LoginError::Multipart(me) => me.message(),
            LoginError::ExpectedUsername => {
                let t = "Username is missing from request body";
                t.to_owned()
            },
            LoginError::ExpectedPassword => {
                let t = "Password is missing from request body";
                t.to_owned()
            },
            LoginError::BodyTooBig => {
                let t = "Request body is too big";
                t.to_owned()
            },
            LoginError::PasswordHash => {
                let t = "Hash problem";
                t.to_owned()
            },
            LoginError::UsernameUtf8 => {
                let t = "Expected a valid utf-8 sequence in: username data";
                t.to_owned()
            },
            LoginError::PasswordUtf8 => {
                let t = "Expected a valid utf-8 sequence in: password data";
                t.to_owned()
            },
        }
    }
}

pub open spec fn spec_create_registration_code_error_message(
    e: CreateRegistrationCodeError,
) -> Seq<char> {
    match e {
        CreateRegistrationCodeError::AuthError(ae) => spec_auth_error_message(ae),
        CreateRegistrationCodeError::Unauthorized => "You must be logged in to do that"@,
        CreateRegistrationCodeError::InsufficientPermissions => "Insufficient permissions"@,
    }
}

impl CreateRegistrationCodeError {
    /// The user-facing message for this error.
    pub fn message(&self) -> (s: String)
        ensures
            s@ == spec_create_registration_code_error_message(*self),
    {
        match self {
            CreateRegistrationCodeError::AuthError(ae) => ae.message(),
            CreateRegistrationCodeError::Unauthorized => {
                let t = "You must be logged in to do that";
                t.to_owned()
            },
            CreateRegistrationCodeError::InsufficientPermissions => {
                let t = "Insufficient permissions";
                t.to_owned()
            },
        }
    }
}

impl CheckRegistrationCodeError {
    /// The user-facing message for this error.
    pub fn message(&self) -> (s: String)
        ensures
            s@ == "Invalid registration code"@,
    {
        let t = "Invalid registration code";
        t.to_owned()
    }
}

pub open spec fn spec_create_account_error_message(e: CreateAccountError) -> Seq<char> {
    match e {
        CreateAccountError::DbFailure(de) => crate::db::spec_db_error_message(de),
        CreateAccountError::AccountAlreadyExists => "Account with that username already exists"@,
        CreateAccountError::PasswordsDoNotMatch => "Entered passwords don't match"@,
        CreateAccountError::PasswordHashingError => "Failed to hash the password"@,
    }
}

impl CreateAccountError {
    /// The user-facing message for this error.
    pub fn message(&self) -> (s: String)
        ensures
            s@ == spec_create_account_error_message(*self),
    {
        match self {
            CreateAccountError::DbFailure(de) => de.message(),
            CreateAccountError::AccountAlreadyExists => {
                let t = "Account with that username already exists";
                t.to_owned()
            },
            CreateAccountError::PasswordsDoNotMatch => {
                let t = "Entered passwords don't match";
                t.to_owned()
            },
            CreateAccountError::PasswordHashingError => {
                let t = "Failed to hash the password";
                t.to_owned()
            },
        }
    }
}

pub open spec fn spec_redeem_error_message(e: CreateAccountFromRegistrationCodeError) -> Seq<
    char,
> {
    match e {
        CreateAccountFromRegistrationCodeError::Boundary => "Multipart/form-data upload must define a boundary"@,
        CreateAccountFromRegistrationCodeError::Multipart(
            me,
        ) => crate::multipart::spec_multipart_error_message(me),
        CreateAccountFromRegistrationCodeError::InvalidRegistrationCode => "Invalid registration code"@,
        CreateAccountFromRegistrationCodeError::RequestTooBig => "Request to big"@,
        CreateAccountFromRegistrationCodeError::BadRequest => "Bad request"@,
        CreateAccountFromRegistrationCodeError::FieldUtf8 => "Expected a valid utf-8 sequence in: form field data"@,
        CreateAccountFromRegistrationCodeError::CreateAccount(
            ce,
        ) => spec_create_account_error_message(ce),
    }
}

impl CreateAccountFromRegistrationCodeError {
    /// The user-facing message for this error.
    pub fn message(&self) -> (s: String)
        ensures
            s@ == spec_redeem_error_message(*self),
    {
        match self {
            CreateAccountFromRegistrationCodeError::Boundary => {
                let t = "Multipart/form-data upload must define a boundary";
                t.to_owned()
            },
            CreateAccountFromRegistrationCodeError::Multipart(me) => me.message(),
            CreateAccountFromRegistrationCodeError::InvalidRegistrationCode => {
                let t = "Invalid registration code";
                t.to_owned()
            },
            CreateAccountFromRegistrationCodeError::RequestTooBig => {
                let t = "Request to big";
                t.to_owned()
            },
            CreateAccountFromRegistrationCodeError::BadRequest => {
                let t = "Bad request";
                t.to_owned()
            },
            CreateAccountFromRegistrationCodeError::FieldUtf8 => {
                let t = "Expected a valid utf-8 sequence in: form field data";
                t.to_owned()
            },
            CreateAccountFromRegistrationCodeError::CreateAccount(ce) => ce.message(),
        }
    }
}

} // verus!
