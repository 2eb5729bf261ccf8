//! End-to-end scenarios over the verified core, with an in-memory blob
//! store standing in for the filesystem.
use aqa_send::account::{
    create_account, create_account_from_registration_code, create_registration_code,
    find_chunk_field, get_logged_in_user, login,
};
use aqa_send::cleanup::cleanup_pass;
use aqa_send::db::Db;
use aqa_send::db_stuff::{AccountType, Uuid};
use aqa_send::delete::{delete, DeleteError};
use aqa_send::multipart::MultipartError;
use aqa_send::upload::{upload, UploadError, MAX_UPLOAD_BODY_SIZE};
use aqa_send::download::{download, DownloadError, DownloadOutcome};
use aqa_send::list::list;
use aqa_send::multipart::{Multipart, MultipartHeader};
use aqa_send::uuid_text::fmt_uuid;
use aqa_send::AuthorizedUsers;
use std::collections::HashMap;

fn single_file_body(file_name: &str, data: &[u8]) -> Vec<u8> {
    let mut body = Vec::new();
    body.extend_from_slice(b"--XYZ\r\nContent-Disposition: form-data; name=\"file\"; filename=\"");
    body.extend_from_slice(file_name.as_bytes());
    body.extend_from_slice(b"\"\r\n\r\n");
    body.extend_from_slice(data);
    body.extend_from_slice(b"\r\n--XYZ--\r\n");
    body
}

fn form_chunks(fields: &[(&str, &str)]) -> Vec<(MultipartHeader, Vec<u8>)> {
    let mut body = Vec::new();
    for (name, value) in fields {
        body.extend_from_slice(b"--XYZ\r\nContent-Disposition: form-data; name=\"");
        body.extend_from_slice(name.as_bytes());
        body.extend_from_slice(b"\"\r\n\r\n");
        body.extend_from_slice(value.as_bytes());
        body.extend_from_slice(b"\r\n");
    }
    body.extend_from_slice(b"--XYZ--\r\n");
    let mut m = Multipart::new(b"--XYZ".to_vec(), 5120);
    m.feed(&body);
    m.finish();
    m.read_all_chunks().unwrap()
}

const FORM_CONTENT_TYPE: &str = "multipart/form-data; boundary=XYZ";

fn upload_one(
    db: &mut Db,
    users: &AuthorizedUsers,
    blob_store: &mut HashMap<Uuid, Vec<u8>>,
    count: &str,
    password: Option<&str>,
    visibility: Option<&str>,
    lifetime: Option<&str>,
    cookie: Option<&str>,
    file_name: &str,
    data: &[u8],
    now: u64,
) -> (Uuid, String) {
    let body = single_file_body(file_name, data);
    let (resp, blobs) = upload(
        Some(FORM_CONTENT_TYPE),
        Some(count),
        password,
        visibility,
        lifetime,
        cookie,
        &body,
        1_000_000,
        now,
        db,
        users,
    )
    .unwrap();
    assert_eq!(resp.0.len(), 1);
    assert_eq!(blobs.len(), 1);
    assert_eq!(resp.0[0].filename, file_name);
    for blob in blobs {
        blob_store.insert(blob.uuid, blob.data);
    }
    (resp.0[0].uuid, resp.0[0].filename.clone())
}

fn serve(
    db: &mut Db,
    users: &AuthorizedUsers,
    blob_store: &HashMap<Uuid, Vec<u8>>,
    uuid: Uuid,
    cookie: Option<&str>,
    query: Option<&str>,
    now: u64,
) -> Result<Vec<u8>, DownloadError> {
    let text = fmt_uuid(&uuid);
    match download(&text, cookie, query, now, db, users) {
        Ok(DownloadOutcome::Serve { uuid, .. }) => Ok(blob_store.get(&uuid).unwrap().clone()),
        Ok(DownloadOutcome::Unauthorized) => Err(DownloadError::InvalidPassword),
        Err(e) => Err(e),
    }
}

fn make_account(db: &mut Db, name: &str, kind: AccountType, password: &str) -> Uuid {
    create_account(db, name.to_string(), kind, password).unwrap()
}

fn login_cookie_header(db: &Db, users: &mut AuthorizedUsers, name: &str, password: &str) -> String {
    let chunks = form_chunks(&[("username", name), ("password", password)]);
    let ok = login(&chunks, db, users).unwrap();
    assert!(ok.set_cookie.starts_with("session="));
    assert!(ok.set_cookie.ends_with("; Secure; HttpOnly; SameSite=None"));
    format!("session={}", fmt_uuid(&ok.session_token))
}

#[test]
fn single_download_lifecycle() {
    let mut db = Db::new();
    let users = AuthorizedUsers::new();
    let mut blob_store = HashMap::new();
    let data: Vec<u8> = (0..143u8).collect();
    let (uuid, filename) = upload_one(
        &mut db,
        &users,
        &mut blob_store,
        "1",
        None,
        None,
        None,
        None,
        "sample_file",
        &data,
        1_000,
    );
    assert_eq!(filename, "sample_file");
    let served = serve(&mut db, &users, &blob_store, uuid, None, None, 2_000).unwrap();
    assert_eq!(served, data);
    assert_eq!(
        serve(&mut db, &users, &blob_store, uuid, None, None, 3_000),
        Err(DownloadError::NotFound)
    );
    let removed = cleanup_pass(&mut db, 4_000);
    assert_eq!(removed.len(), 1);
    assert_eq!(removed[0].0, uuid);
    for (gone, _) in removed {
        blob_store.remove(&gone);
    }
    assert!(db.get(&uuid).is_none());
    assert!(blob_store.get(&uuid).is_none());
}

#[test]
fn bounded_count_eviction() {
    let mut db = Db::new();
    let users = AuthorizedUsers::new();
    let mut blob_store = HashMap::new();
    let data: Vec<u8> = (0..143u8).collect();
    let (uuid, _) = upload_one(
        &mut db,
        &users,
        &mut blob_store,
        "10",
        None,
        None,
        None,
        None,
        "sample_file",
        &data,
        1_000,
    );
    for _ in 0..10 {
        let served = serve(&mut db, &users, &blob_store, uuid, None, None, 2_000).unwrap();
        assert_eq!(served, data);
    }
    assert_eq!(
        serve(&mut db, &users, &blob_store, uuid, None, None, 2_000),
        Err(DownloadError::NotFound)
    );
    let removed = cleanup_pass(&mut db, 3_000);
    assert_eq!(removed.len(), 1);
    assert!(db.get(&uuid).is_none());
}

#[test]
fn unlimited_downloads_survive() {
    let mut db = Db::new();
    let users = AuthorizedUsers::new();
    let mut blob_store = HashMap::new();
    let data: Vec<u8> = (0..143u8).collect();
    let (uuid, _) = upload_one(
        &mut db,
        &users,
        &mut blob_store,
        "infinite",
        None,
        None,
        None,
        None,
        "sample_file",
        &data,
        1_000,
    );
    for _ in 0..20 {
        serve(&mut db, &users, &blob_store, uuid, None, None, 2_000).unwrap();
    }
    assert!(cleanup_pass(&mut db, 3_000).is_empty());
    assert!(db.get(&uuid).is_some());
}

#[test]
fn password_gate() {
    let mut db = Db::new();
    let users = AuthorizedUsers::new();
    let mut blob_store = HashMap::new();
    let data: Vec<u8> = (0..143u8).collect();
    let (uuid, _) = upload_one(
        &mut db,
        &users,
        &mut blob_store,
        "infinite",
        Some("alamakota"),
        None,
        None,
        None,
        "sample_file",
        &data,
        1_000,
    );
    assert_eq!(
        serve(&mut db, &users, &blob_store, uuid, None, None, 2_000),
        Err(DownloadError::InvalidPassword)
    );
    assert_eq!(
        serve(&mut db, &users, &blob_store, uuid, None, Some("password=wrong"), 2_000),
        Err(DownloadError::InvalidPassword)
    );
    let served =
        serve(&mut db, &users, &blob_store, uuid, None, Some("password=alamakota"), 2_000)
            .unwrap();
    assert_eq!(served, data);
}

#[test]
fn lifetime_boundary_download() {
    let mut db = Db::new();
    let users = AuthorizedUsers::new();
    let mut blob_store = HashMap::new();
    let data: Vec<u8> = (0..100u8).collect();
    let (uuid, _) = upload_one(
        &mut db,
        &users,
        &mut blob_store,
        "infinite",
        None,
        None,
        Some("1 min"),
        None,
        "sample_file",
        &data,
        1_000,
    );
    let served = serve(&mut db, &users, &blob_store, uuid, None, None, 61_000).unwrap();
    assert_eq!(served, data);
    assert_eq!(
        serve(&mut db, &users, &blob_store, uuid, None, None, 61_001),
        Err(DownloadError::NotFound)
    );
    let removed = cleanup_pass(&mut db, 61_001);
    assert_eq!(removed.len(), 1);
    assert!(db.get(&uuid).is_none());
}

#[test]
fn private_visibility_and_ownership() {
    let mut db = Db::new();
    let mut users = AuthorizedUsers::new();
    let mut blob_store = HashMap::new();
    let ala = make_account(&mut db, "Ala", AccountType::Admin, "za\u{17c}\u{f3}\u{142}\u{107} g\u{119}si\u{105} ja\u{17a}\u{144}");
    let cookie = login_cookie_header(
        &db,
        &mut users,
        "Ala",
        "za\u{17c}\u{f3}\u{142}\u{107} g\u{119}si\u{105} ja\u{17a}\u{144}",
    );
    let data: Vec<u8> = (0..143u8).collect();
    let (uuid, _) = upload_one(
        &mut db,
        &users,
        &mut blob_store,
        "infinite",
        None,
        Some("private"),
        None,
        Some(&cookie),
        "sample_file",
        &data,
        1_000,
    );
    let anonymous = list(None, None, 2_000, &db, &users).unwrap();
    assert_eq!(anonymous.len(), 0);
    let own = list(Some(&cookie), None, 2_000, &db, &users).unwrap();
    assert_eq!(own.len(), 1);
    assert_eq!(own[0].uuid, uuid);
    assert_eq!(own[0].uploader_uuid, Some(ala));
    assert!(!own[0].has_password);
    let text = fmt_uuid(&uuid);
    assert!(matches!(
        download(&text, None, None, 2_000, &mut db, &users),
        Ok(DownloadOutcome::Unauthorized)
    ));
    let ola = make_account(&mut db, "Ola", AccountType::User, "mapsa");
    let _ = ola;
    let other_cookie = login_cookie_header(&db, &mut users, "Ola", "mapsa");
    let others = list(Some(&other_cookie), None, 2_000, &db, &users).unwrap();
    assert_eq!(others.len(), 0);
    assert!(matches!(
        download(&text, Some(&other_cookie), None, 2_000, &mut db, &users),
        Ok(DownloadOutcome::Unauthorized)
    ));
}

#[test]
fn registration_code_flow() {
    let mut db = Db::new();
    let mut users = AuthorizedUsers::new();
    make_account(&mut db, "Ala", AccountType::Admin, "makota");
    let cookie = login_cookie_header(&db, &mut users, "Ala", "makota");
    assert!(create_registration_code(None, &mut db, &users, AccountType::User).is_err());
    let code = create_registration_code(Some(&cookie), &mut db, &users, AccountType::User)
        .unwrap();
    let chunks = form_chunks(&[
        ("username", "Ola"),
        ("password", "mapsa"),
        ("registration_code", &code),
    ]);
    assert!(find_chunk_field(&chunks, "registration_code").is_some());
    let created = create_account_from_registration_code(&chunks, &mut db, &mut users).unwrap();
    assert!(created.set_cookie.starts_with("session="));
    assert!(created.set_cookie.ends_with("; Secure; HttpOnly"));
    let new_cookie = format!("session={}", fmt_uuid(&created.session_token));
    let who = get_logged_in_user(Some(&new_cookie), &db, &users).unwrap().unwrap();
    assert_eq!(who.username, "Ola");
    assert!(matches!(who.acc_type, AccountType::User));
}

#[test]
fn admin_delete_of_other_users_files() {
    let mut db = Db::new();
    let mut users = AuthorizedUsers::new();
    let mut blob_store = HashMap::new();
    make_account(&mut db, "Ala", AccountType::Admin, "makota");
    make_account(&mut db, "Ola", AccountType::User, "mapsa");
    make_account(&mut db, "Ela", AccountType::Admin, "sowa");
    let ala_cookie = login_cookie_header(&db, &mut users, "Ala", "makota");
    let ola_cookie = login_cookie_header(&db, &mut users, "Ola", "mapsa");
    let ela_cookie = login_cookie_header(&db, &mut users, "Ela", "sowa");
    let data: Vec<u8> = (0..143u8).collect();
    let (x, _) = upload_one(
        &mut db,
        &users,
        &mut blob_store,
        "10",
        None,
        None,
        None,
        Some(&ola_cookie),
        "x_file",
        &data,
        1_000,
    );
    let (y, _) = upload_one(
        &mut db,
        &users,
        &mut blob_store,
        "10",
        None,
        None,
        None,
        Some(&ela_cookie),
        "y_file",
        &data,
        1_000,
    );
    let x_text = fmt_uuid(&x);
    let y_text = fmt_uuid(&y);
    assert!(matches!(
        delete(&y_text, Some(&ola_cookie), &mut db, &users),
        Err(DeleteError::NotAuthorized)
    ));
    assert!(matches!(
        delete(&x_text, None, &mut db, &users),
        Err(DeleteError::NotLoggedIn)
    ));
    delete(&x_text, Some(&ala_cookie), &mut db, &users).unwrap();
    delete(&y_text, Some(&ala_cookie), &mut db, &users).unwrap();
    assert!(db.get(&x).is_none());
    assert!(db.get(&y).is_none());
    assert!(matches!(
        delete(&x_text, Some(&ala_cookie), &mut db, &users),
        Err(DeleteError::NotFound)
    ));
}

#[test]
fn user_deletes_own_file() {
    let mut db = Db::new();
    let mut users = AuthorizedUsers::new();
    let mut blob_store = HashMap::new();
    make_account(&mut db, "Ola", AccountType::User, "mapsa");
    let cookie = login_cookie_header(&db, &mut users, "Ola", "mapsa");
    let data: Vec<u8> = (0..50u8).collect();
    let (uuid, _) = upload_one(
        &mut db,
        &users,
        &mut blob_store,
        "10",
        None,
        None,
        None,
        Some(&cookie),
        "own_file",
        &data,
        1_000,
    );
    delete(&fmt_uuid(&uuid), Some(&cookie), &mut db, &users).unwrap();
    assert!(db.get(&uuid).is_none());
}

#[test]
fn user_cannot_delete_anonymous_files() {
    let mut db = Db::new();
    let mut users = AuthorizedUsers::new();
    let mut blob_store = HashMap::new();
    make_account(&mut db, "Ola", AccountType::User, "mapsa");
    let cookie = login_cookie_header(&db, &mut users, "Ola", "mapsa");
    let data: Vec<u8> = (0..50u8).collect();
    let (uuid, _) = upload_one(
        &mut db,
        &users,
        &mut blob_store,
        "10",
        None,
        None,
        None,
        None,
        "public_file",
        &data,
        1_000,
    );
    assert!(matches!(
        delete(&fmt_uuid(&uuid), Some(&cookie), &mut db, &users),
        Err(DeleteError::NotAuthorized)
    ));
    assert!(db.get(&uuid).is_some());
}

#[test]
fn upload_over_cap_is_refused() {
    let mut db = Db::new();
    let users = AuthorizedUsers::new();
    let data: Vec<u8> = (0..143u8).collect();
    let body = single_file_body("sample_file", &data);
    let r = upload(
        Some(FORM_CONTENT_TYPE),
        Some("1"),
        None,
        None,
        None,
        None,
        &body,
        50,
        1_000,
        &mut db,
        &users,
    );
    let err = r.unwrap_err();
    assert!(matches!(err, UploadError::Multipart(MultipartError::TooBig)));
    assert_eq!(err.code(), 413);
    assert!(MAX_UPLOAD_BODY_SIZE > 50);
    assert!(db.get_account_uuid("nobody").is_none());
    assert_eq!(db.file_entries.len(), 0);
}

#[test]
fn delete_denial_message() {
    assert_eq!(
        DeleteError::NotAuthorized.message(),
        "You can only delete your own files"
    );
    assert_eq!(
        DeleteError::NotLoggedIn.message(),
        "Only logged in users can delete entries"
    );
    assert_eq!(DeleteError::NotAuthorized.code(), 401);
}
