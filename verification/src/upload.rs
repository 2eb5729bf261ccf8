//! The upload route: parse the policy headers, read each file part from the
//! multipart body, mint an identifier per file, and record the entries.
use vstd::prelude::*;

use crate::account::{get_logged_in_user, spec_auth_error_code, spec_logged_in_user, AuthError};
use crate::db::{entry_get, Db};
use crate::db_stuff::{Account, FileEntry, Uuid};
use crate::error::ErrorContentType;
use crate::headers::{bucket_chars, parse_download_count, parse_lifetime, parse_visibility,
    spec_parse_download_count, spec_parse_lifetime, spec_parse_visibility, DownloadCount,
    HeaderError, Lifetime, Password, Visibility};
use crate::multipart::{Multipart, MultipartError, SpecMultipartHeader};
use crate::outside::{random_uuid, url_decodable, url_decode, url_decoded};
use crate::AuthorizedUsers;

verus! {

#[derive(Debug, Clone, Copy, PartialEq, Eq, Structural)]
pub enum UploadError {
    Multipart(MultipartError),
    FileCreate,
    FileWrite,
    InvalidContentType,
    BoundaryExpected,
    AqaHeader(HeaderError),
    DbSerialize,
    PrivateUploadWithoutAccount,
    AuthError(AuthError),
}

pub open spec fn spec_upload_error_code(e: UploadError) -> u16 {
    match e {
        UploadError::Multipart(me) => if me is TooBig {
            413
        } else {
            400
        },
        UploadError::FileCreate => 500,
        UploadError::FileWrite => 500,
        UploadError::InvalidContentType => 400,
        UploadError::BoundaryExpected => 400,
        UploadError::AqaHeader(_) => 400,
        UploadError::DbSerialize => 500,
        UploadError::PrivateUploadWithoutAccount => 401,
        UploadError::AuthError(a) => spec_auth_error_code(a),
    }
}

impl UploadError {
    pub fn code(&self) -> (c: u16)
        ensures
            c == spec_upload_error_code(*self),
    {
        match self {
            UploadError::Multipart(MultipartError::TooBig) => 413,
            UploadError::Multipart(_) => 400,
            UploadError::FileCreate => 500,
            UploadError::FileWrite => 500,
            UploadError::InvalidContentType => 400,
            UploadError::BoundaryExpected => 400,
            UploadError::AqaHeader(_) => 400,
            UploadError::DbSerialize => 500,
            UploadError::PrivateUploadWithoutAccount => 401,
            UploadError::AuthError(a) => a.code(),
        }
    }

    pub fn user_presentable(&self) -> (b: bool)
        ensures
            b == (match *self {
                UploadError::FileCreate => false,
                UploadError::FileWrite => false,
                UploadError::DbSerialize => false,
                _ => true,
            }),
    {
        match self {
            UploadError::FileCreate => false,
            UploadError::FileWrite => false,
            UploadError::DbSerialize => false,
            _ => true,
        }
    }

    pub fn content_type(&self) -> (c: ErrorContentType)
        ensures
            c == ErrorContentType::Json,
    {
        ErrorContentType::Json
    }
}

/// The byte cap on an upload body; a request over it is refused with a
/// payload-too-large error.
pub const MAX_UPLOAD_BODY_SIZE: usize = 1073741824;

/// One uploaded file as named in the response body.
#[derive(Debug)]
pub struct UploadedFile {
    pub uuid: Uuid,
    pub filename: String,
}

/// The upload response: the identifiers and names of the stored files.
#[derive(Debug)]
pub struct UploadResponse(pub Vec<UploadedFile>);

/// A blob the caller must write to disk: its bucket, identifier and bytes.
#[derive(Debug)]
pub struct StoredBlob {
    pub bucket: String,
    pub uuid: Uuid,
    pub data: Vec<u8>,
}

/// The boundary of a `multipart/form-data` content type, with the leading
/// two hyphens the body uses.
pub open spec fn spec_boundary(content_type: Seq<char>) -> Result<Seq<char>, UploadError> {
    let prefix = "multipart/form-data; "@;
    if !(content_type.len() >= prefix.len() && content_type.subrange(0, prefix.len() as int)
        == prefix) {
        Result::Err(UploadError::BoundaryExpected)
    } else {
        let rest = content_type.subrange(prefix.len() as int, content_type.len() as int);
        let bprefix = "boundary="@;
        if !(rest.len() >= bprefix.len() && rest.subrange(0, bprefix.len() as int) == bprefix) {
            Result::Err(UploadError::BoundaryExpected)
        } else {
            Result::Ok("--"@ + rest.subrange(bprefix.len() as int, rest.len() as int))
        }
    }
}

/// Extracts the `--`-prefixed boundary from a content-type header value.
pub fn parse_boundary(content_type: &str) -> (r: Result<String, UploadError>)
    ensures
        match r {
            Result::Ok(b) => spec_boundary(content_type@) == Result::<
                Seq<char>,
                UploadError,
            >::Ok(b@),
            Result::Err(e) => spec_boundary(content_type@) == Result::<
                Seq<char>,
                UploadError,
            >::Err(e),
        },
{
    let len: usize = content_type.unicode_len();
    if !crate::cookie::starts_with_at(content_type, 0, "multipart/form-data; ") {
        return Err(UploadError::BoundaryExpected);
    }
    proof {
        reveal_strlit("multipart/form-data; ");
    }
    let plen: usize = 21;
    if !crate::cookie::starts_with_at(content_type, plen, "boundary=") {
        proof {
            reveal_strlit("boundary=");
            if content_type@.len() >= 30 {
                assert(content_type@.subrange(21, content_type@.len() as int).subrange(0, 9)
                    =~= content_type@.subrange(21, 30));
            }
        }
        return Err(UploadError::BoundaryExpected);
    }
    proof {
        reveal_strlit("boundary=");
        assert(content_type@.subrange(21, content_type@.len() as int).subrange(0, 9)
            =~= content_type@.subrange(21, 30));
    }
    let mut out = String::new();
    out.append("--");
    out.append(content_type.substring_char(plen + 9, len));
    proof {
        reveal_strlit("--");
        let rest = content_type@.subrange(21, content_type@.len() as int);
        assert(rest.subrange(9, rest.len() as int) =~= content_type@.subrange(
            30,
            content_type@.len() as int,
        ));
        assert(out@ =~= "--"@ + rest.subrange(9, rest.len() as int));
    }
    Ok(out)
}

/// What an entry recorded by an upload must hold: the parsed policies, a
/// zero download count, the stored password (the URL-decoded header value),
/// the caller's identity when logged in, and the upload instant.
pub open spec fn spec_upload_entry(
    e: FileEntry,
    count: DownloadCount,
    visibility: Visibility,
    lifetime: Lifetime,
    password: Option<Seq<char>>,
    uploader: Option<Account>,
    now: u64,
) -> bool {
    &&& e.download_count_type == count
    &&& e.download_count == 0
    &&& e.visibility == visibility
    &&& e.lifetime == lifetime
    &&& (match (e.password, password) {
        (Option::Some(pw), Option::Some(pv)) => pw.0@ == pv,
        (Option::None, Option::None) => true,
        _ => false,
    })
    &&& e.upload_date == now
    &&& e.uploader_uuid == (match uploader {
        Option::Some(a) => Option::Some(a.uuid),
        Option::None => Option::<Uuid>::None,
    })
}

/// What an entry takes from its own form part: the part's file name and its
/// content type, with the octet-stream default.
pub open spec fn spec_part_fields(e: FileEntry, h: SpecMultipartHeader) -> bool {
    &&& (h.file_name matches Option::Some(f) && e.filename@ == f)
    &&& e.content_type@ == (match h.content_type {
        Option::Some(ct) => ct,
        Option::None => "application/octet-stream"@,
    })
}

/// Everything an upload checks before it reads the body, in request order.
pub ghost struct UploadGate {
    pub boundary: Seq<char>,
    pub count: DownloadCount,
    pub password: Option<Seq<char>>,
    pub visibility: Visibility,
    pub lifetime: Lifetime,
    pub uploader: Option<Account>,
}

/// The upload gate: content type and boundary, session, the four policy
/// headers, the private-needs-account rule, and the boundary length bound.
pub open spec fn spec_upload_gate(
    content_type: Option<Seq<char>>,
    aqa_download_count: Option<Seq<char>>,
    aqa_password: Option<Seq<char>>,
    aqa_visibility: Option<Seq<char>>,
    aqa_lifetime: Option<Seq<char>>,
    cookie_header: Option<Seq<char>>,
    sessions: Seq<(Uuid, Uuid)>,
    accounts: Seq<(Uuid, Account)>,
) -> Result<UploadGate, UploadError> {
    match content_type {
        Option::None => Result::Err(UploadError::InvalidContentType),
        Option::Some(ct) => match spec_boundary(ct) {
            Result::Err(e) => Result::Err(e),
            Result::Ok(boundary) => match spec_logged_in_user(cookie_header, sessions, accounts) {
                Result::Err(ae) => Result::Err(UploadError::AuthError(ae)),
                Result::Ok(uploader) => match spec_parse_download_count(aqa_download_count) {
                    Result::Err(he) => Result::Err(UploadError::AqaHeader(he)),
                    Result::Ok(count) => {
                        let pw_ok = match aqa_password {
                            Option::Some(p) => url_decodable(p),
                            Option::None => true,
                        };
                        if !pw_ok {
                            Result::Err(UploadError::AqaHeader(HeaderError::PasswordParse))
                        } else {
                            match spec_parse_visibility(aqa_visibility) {
                                Result::Err(he) => Result::Err(UploadError::AqaHeader(he)),
                                Result::Ok(visibility) => match spec_parse_lifetime(aqa_lifetime) {
                                    Result::Err(he) => Result::Err(UploadError::AqaHeader(he)),
                                    Result::Ok(lifetime) => {
                                        if visibility == Visibility::Private && uploader is None {
                                            Result::Err(UploadError::PrivateUploadWithoutAccount)
                                        } else if vstd::utf8::encode_utf8(boundary).len() > 8192 {
                                            Result::Err(UploadError::BoundaryExpected)
                                        } else {
                                            Result::Ok(
                                                UploadGate {
                                                    boundary,
                                                    count,
                                                    password: match aqa_password {
                                                        Option::Some(p) => Option::Some(
                                                            url_decoded(p),
                                                        ),
                                                        Option::None => Option::None,
                                                    },
                                                    visibility,
                                                    lifetime,
                                                    uploader,
                                                },
                                            )
                                        }
                                    },
                                },
                            }
                        }
                    },
                },
            },
        },
    }
}

/// An `Option<&str>` as the character sequences the specs speak of.
pub open spec fn opt_view(v: Option<&str>) -> Option<Seq<char>> {
    match v {
        Option::Some(s) => Option::Some(s@),
        Option::None => Option::None,
    }
}

/// Accepts one upload: checks the session against the visibility, parses
/// the four policy headers, reads the parts of the body under the byte cap,
/// and records one entry per file part.  The returned blobs carry the bytes
/// to write under `<root>/<bucket>/<uuid>`.
#[verifier::rlimit(100)]
#[verifier::spinoff_prover]
pub fn upload(
    content_type: Option<&str>,
    aqa_download_count: Option<&str>,
    aqa_password: Option<&str>,
    aqa_visibility: Option<&str>,
    aqa_lifetime: Option<&str>,
    cookie_header: Option<&str>,
    body: &[u8],
    max_size: usize,
    now: u64,
    db: &mut Db,
    authorized_users: &AuthorizedUsers,
) -> (r: Result<(UploadResponse, Vec<StoredBlob>), UploadError>)
    requires
        old(db).wf(),
    ensures
        final(db).wf(),
        final(db).accounts == old(db).accounts,
        final(db).account_uuids == old(db).account_uuids,
        final(db).registration_codes == old(db).registration_codes,
        r is Err ==> *final(db) == *old(db),
        ({
            let gate = spec_upload_gate(
                opt_view(content_type),
                opt_view(aqa_download_count),
                opt_view(aqa_password),
                opt_view(aqa_visibility),
                opt_view(aqa_lifetime),
                opt_view(cookie_header),
                authorized_users.sessions@,
                old(db).accounts@,
            );
            &&& (gate matches Result::Err(e) ==> r == Result::<
                (UploadResponse, Vec<StoredBlob>),
                UploadError,
            >::Err(e))
            &&& (gate matches Result::Ok(g) ==> {
                let parts_r = crate::multipart::spec_form_parts(
                    body@,
                    vstd::utf8::encode_utf8(g.boundary),
                    max_size as int,
                );
                &&& (parts_r matches Result::Err(me) ==> r == Result::<
                    (UploadResponse, Vec<StoredBlob>),
                    UploadError,
                >::Err(UploadError::Multipart(me)))
                &&& (parts_r matches Result::Ok(parts) ==> {
                    &&& ((exists|j: int|
                        0 <= j < parts.len() && (#[trigger] parts[j]).0.file_name is None) ==> r
                        == Result::<(UploadResponse, Vec<StoredBlob>), UploadError>::Err(
                        UploadError::Multipart(MultipartError::FileNameNotFound),
                    ))
                    &&& ((forall|j: int|
                        0 <= j < parts.len() ==> (#[trigger] parts[j]).0.file_name is Some) ==> (r
                        matches Ok(p) && {
                        let resp = p.0;
                        let blobs = p.1;
                        &&& resp.0@.len() == parts.len()
                        &&& blobs@.len() == parts.len()
                        &&& (forall|j: int|
                            0 <= j < parts.len() ==> {
                                &&& (#[trigger] blobs@[j]).uuid == resp.0@[j].uuid
                                &&& blobs@[j].bucket@ == bucket_chars(g.count)
                                &&& blobs@[j].data@ == parts[j].1
                                &&& (parts[j].0.file_name matches Option::Some(f)
                                    && resp.0@[j].filename@ == f)
                                &&& (entry_get(final(db).file_entries@, blobs@[j].uuid)
                                    matches Option::Some(e) && spec_upload_entry(
                                    e,
                                    g.count,
                                    g.visibility,
                                    g.lifetime,
                                    g.password,
                                    g.uploader,
                                    now,
                                ) && ((forall|j2: int|
                                    j < j2 < parts.len() ==> (#[trigger] blobs@[j2]).uuid
                                        != blobs@[j].uuid) ==> spec_part_fields(e, parts[j].0)))
                            })
                        &&& (forall|k: Uuid|
                            (forall|j: int|
                                0 <= j < parts.len() ==> (#[trigger] blobs@[j]).uuid != k)
                                ==> #[trigger] entry_get(final(db).file_entries@, k) == entry_get(
                                old(db).file_entries@,
                                k,
                            ))
                    }))
                })
            })
        }),
{
    let ct = match content_type {
        Some(c) => c,
        None => {
            return Err(UploadError::InvalidContentType);
        },
    };
    let boundary = match parse_boundary(ct) {
        Ok(b) => b,
        Err(e) => {
            return Err(e);
        },
    };
    let uploader = match get_logged_in_user(cookie_header, db, authorized_users) {
        Ok(u) => u,
        Err(ae) => {
            return Err(UploadError::AuthError(ae));
        },
    };
    let download_count = match parse_download_count(aqa_download_count) {
        Ok(d) => d,
        Err(e) => {
            return Err(UploadError::AqaHeader(e));
        },
    };
    let password: Option<Password> = match aqa_password {
        Some(p) => match url_decode(p) {
            Some(d) => Some(Password(d)),
            None => {
                return Err(UploadError::AqaHeader(HeaderError::PasswordParse));
            },
        },
        None => None,
    };
    let visibility = match parse_visibility(aqa_visibility) {
        Ok(v) => v,
        Err(e) => {
            return Err(UploadError::AqaHeader(e));
        },
    };
    let lifetime = match parse_lifetime(aqa_lifetime) {
        Ok(l) => l,
        Err(e) => {
            return Err(UploadError::AqaHeader(e));
        },
    };
    match (&uploader, visibility) {
        (None, Visibility::Private) => {
            return Err(UploadError::PrivateUploadWithoutAccount);
        },
        _ => (),
    }
    let boundary_bytes = boundary.as_str().as_bytes_vec();
    if boundary_bytes.len() > 8192 {
        return Err(UploadError::BoundaryExpected);
    }
    let ghost gate = UploadGate {
        boundary: boundary@,
        count: download_count,
        password: match aqa_password {
            Option::Some(p) => Option::Some(url_decoded(p@)),
            Option::None => Option::None,
        },
        visibility,
        lifetime,
        uploader,
    };
    let ghost bbytes = boundary_bytes@;
    proof {
        assert(bbytes == vstd::utf8::encode_utf8(gate.boundary));
        assert(spec_upload_gate(
            opt_view(content_type),
            opt_view(aqa_download_count),
            opt_view(aqa_password),
            opt_view(aqa_visibility),
            opt_view(aqa_lifetime),
            opt_view(cookie_header),
            authorized_users.sessions@,
            old(db).accounts@,
        ) == Result::<UploadGate, UploadError>::Ok(gate));
    }
    let mut multipart = Multipart::new(boundary_bytes, max_size);
    multipart.feed(body);
    multipart.finish();
    proof {
        assert(multipart.buf@ =~= body@);
    }
    let chunks = match multipart.read_all_chunks() {
        Ok(c) => c,
        Err(e) => {
            return Err(UploadError::Multipart(e));
        },
    };
    let ghost parts = crate::multipart::chunks_view(chunks@);
    let n = chunks.len();
    let mut i: usize = 0;
    while i < n
        invariant
            i <= n,
            n == chunks@.len(),
            parts == crate::multipart::chunks_view(chunks@),
            forall|j: int| 0 <= j < i ==> (#[trigger] parts[j]).0.file_name is Some,
            *db == *old(db),
            old(db).wf(),
            spec_upload_gate(
                opt_view(content_type),
                opt_view(aqa_download_count),
                opt_view(aqa_password),
                opt_view(aqa_visibility),
                opt_view(aqa_lifetime),
                opt_view(cookie_header),
                authorized_users.sessions@,
                old(db).accounts@,
            ) == Result::<UploadGate, UploadError>::Ok(gate),
            gate.count == download_count,
            gate.visibility == visibility,
            gate.lifetime == lifetime,
            gate.uploader == uploader,
            crate::multipart::spec_form_parts(
                body@,
                vstd::utf8::encode_utf8(gate.boundary),
                max_size as int,
            ) == Result::<Seq<(SpecMultipartHeader, Seq<u8>)>, MultipartError>::Ok(parts),
        decreases n - i,
    {
        proof {
            assert(parts[i as int] == (chunks@[i as int].0@, chunks@[i as int].1@));
        }
        if chunks[i].0.file_name.is_none() {
            proof {
                assert(parts[i as int].0.file_name is None);
            }
            return Err(UploadError::Multipart(MultipartError::FileNameNotFound));
        }
        i = i + 1;
    }
    let ghost spec_uploader = uploader;
    let mut uploaded: Vec<UploadedFile> = Vec::new();
    let mut blobs: Vec<StoredBlob> = Vec::new();
    let mut i: usize = 0;
    while i < n
        invariant
            i <= n,
            db.wf(),
            n == chunks@.len(),
            parts == crate::multipart::chunks_view(chunks@),
            forall|j: int| 0 <= j < n ==> (#[trigger] parts[j]).0.file_name is Some,
            i == blobs@.len(),
            i == uploaded@.len(),
            old(db).wf(),
            db.accounts == old(db).accounts,
            db.account_uuids == old(db).account_uuids,
            db.registration_codes == old(db).registration_codes,
            forall|j: int|
                0 <= j < i ==> {
                    &&& (#[trigger] blobs@[j]).uuid == uploaded@[j].uuid
                    &&& blobs@[j].bucket@ == bucket_chars(download_count)
                    &&& blobs@[j].data@ == parts[j].1
                    &&& (parts[j].0.file_name matches Option::Some(f) && uploaded@[j].filename@
                        == f)
                },
            forall|j: int|
                0 <= j < i ==> (entry_get(db.file_entries@, (#[trigger] blobs@[j]).uuid)
                    matches Option::Some(e) && spec_upload_entry(
                    e,
                    download_count,
                    visibility,
                    lifetime,
                    gate.password,
                    uploader,
                    now,
                ) && ((forall|j2: int|
                    j < j2 < i ==> (#[trigger] blobs@[j2]).uuid != blobs@[j].uuid)
                    ==> spec_part_fields(e, parts[j].0))),
            forall|k: Uuid|
                (forall|j: int| 0 <= j < i ==> (#[trigger] blobs@[j]).uuid != k)
                    ==> #[trigger] entry_get(db.file_entries@, k) == entry_get(
                    old(db).file_entries@,
                    k,
                ),
            (match (&password, gate.password) {
                (Option::Some(pw), Option::Some(pv)) => pw.0@ == pv,
                (Option::None, Option::None) => true,
                _ => false,
            }),
            uploader == spec_uploader,
            spec_upload_gate(
                opt_view(content_type),
                opt_view(aqa_download_count),
                opt_view(aqa_password),
                opt_view(aqa_visibility),
                opt_view(aqa_lifetime),
                opt_view(cookie_header),
                authorized_users.sessions@,
                old(db).accounts@,
            ) == Result::<UploadGate, UploadError>::Ok(gate),
            gate.count == download_count,
            gate.visibility == visibility,
            gate.lifetime == lifetime,
            gate.uploader == uploader,
            crate::multipart::spec_form_parts(
                body@,
                vstd::utf8::encode_utf8(gate.boundary),
                max_size as int,
            ) == Result::<Seq<(SpecMultipartHeader, Seq<u8>)>, MultipartError>::Ok(parts),
        decreases n - i,
    {
        proof {
            assert(parts[i as int] == (chunks@[i as int].0@, chunks@[i as int].1@));
        }
        let upload_uuid = crate::db_stuff::Uuid(random_uuid());
        let file_name = match &chunks[i].0.file_name {
            Some(f) => f.clone(),
            None => {
                proof {
                    assert(false);
                }
                return Err(UploadError::Multipart(MultipartError::FileNameNotFound));
            },
        };
        let entry = FileEntry {
            filename: file_name.clone(),
            content_type: match &chunks[i].0.content_type {
                Some(c) => c.clone(),
                None => {
                    let s = "application/octet-stream";
                    s.to_owned()
                },
            },
            uploader_uuid: match &uploader {
                Some(a) => Some(a.uuid),
                None => None,
            },
            download_count_type: download_count,
            download_count: 0,
            visibility,
            password: match &password {
                Some(p) => Some(p.clone()),
                None => None,
            },
            lifetime,
            upload_date: now,
        };
        let bucket = download_count.bucket();
        let ghost pre = db.file_entries@;
        let ghost gentry = entry;
        let ghost blobs0 = blobs@;
        let ghost uploaded0 = uploaded@;
        db.put(upload_uuid, entry);
        let data = crate::multipart::bytes_range(&chunks[i].1, 0, chunks[i].1.len());
        uploaded.push(UploadedFile { uuid: upload_uuid, filename: file_name });
        blobs.push(StoredBlob { bucket, uuid: upload_uuid, data });
        i = i + 1;
        proof {
            assert(spec_part_fields(gentry, parts[i - 1].0));
            lemma_upload_step(
                pre,
                db.file_entries@,
                old(db).file_entries@,
                blobs0,
                blobs@,
                uploaded0,
                uploaded@,
                gentry,
                upload_uuid,
                i as int,
                parts,
                download_count,
                visibility,
                lifetime,
                gate.password,
                uploader,
                now,
            );
        }
    }
    Ok((UploadResponse(uploaded), blobs))
}

/// One insertion step of the upload loop: the recorded facts carry over to
/// the extended vectors and the updated map.
#[verifier::spinoff_prover]
proof fn lemma_upload_step(
    pre: Seq<(Uuid, FileEntry)>,
    post: Seq<(Uuid, FileEntry)>,
    old_entries: Seq<(Uuid, FileEntry)>,
    blobs0: Seq<StoredBlob>,
    b: Seq<StoredBlob>,
    uploaded0: Seq<UploadedFile>,
    u: Seq<UploadedFile>,
    gentry: FileEntry,
    upload_uuid: Uuid,
    i: int,
    parts: Seq<(SpecMultipartHeader, Seq<u8>)>,
    count: DownloadCount,
    visibility: Visibility,
    lifetime: Lifetime,
    password: Option<Seq<char>>,
    uploader: Option<Account>,
    now: u64,
)
    requires
        i >= 1,
        i <= parts.len(),
        blobs0.len() == i - 1,
        uploaded0.len() == i - 1,
        b == blobs0.push(b[i - 1]),
        u == uploaded0.push(u[i - 1]),
        b[i - 1].uuid == upload_uuid,
        entry_get(post, upload_uuid) == Option::Some(gentry),
        forall|k: Uuid| k != upload_uuid ==> #[trigger] entry_get(post, k) == entry_get(pre, k),
        spec_upload_entry(gentry, count, visibility, lifetime, password, uploader, now),
        spec_part_fields(gentry, parts[i - 1].0),
        forall|j: int|
            0 <= j < i - 1 ==> (entry_get(pre, (#[trigger] blobs0[j]).uuid)
                matches Option::Some(e) && spec_upload_entry(
                e,
                count,
                visibility,
                lifetime,
                password,
                uploader,
                now,
            ) && ((forall|j2: int|
                j < j2 < i - 1 ==> (#[trigger] blobs0[j2]).uuid != blobs0[j].uuid)
                ==> spec_part_fields(e, parts[j].0))),
        forall|k: Uuid|
            (forall|j: int| 0 <= j < i - 1 ==> (#[trigger] blobs0[j]).uuid != k)
                ==> #[trigger] entry_get(pre, k) == entry_get(old_entries, k),
    ensures
        forall|j: int|
            0 <= j < i ==> (entry_get(post, (#[trigger] b[j]).uuid) matches Option::Some(e)
                && spec_upload_entry(e, count, visibility, lifetime, password, uploader, now) && ((
            forall|j2: int| j < j2 < i ==> (#[trigger] b[j2]).uuid != b[j].uuid)
                ==> spec_part_fields(e, parts[j].0))),
        forall|k: Uuid|
            (forall|j: int| 0 <= j < i ==> (#[trigger] b[j]).uuid != k) ==> #[trigger] entry_get(
                post,
                k,
            ) == entry_get(old_entries, k),
{
    assert(forall|j: int| 0 <= j < i - 1 ==> #[trigger] b[j] == blobs0[j]);
    assert(forall|j: int| 0 <= j < i - 1 ==> #[trigger] u[j] == uploaded0[j]);
    assert forall|k: Uuid| (forall|j: int| 0 <= j < i ==> (#[trigger] b[j]).uuid != k) implies
        #[trigger] entry_get(post, k) == entry_get(old_entries, k) by {
        assert(b[i - 1].uuid != k);
        assert forall|j: int| 0 <= j < i - 1 implies (#[trigger] blobs0[j]).uuid != k by {
            assert(b[j] == blobs0[j]);
            assert(b[j].uuid != k);
        }
        assert(entry_get(pre, k) == entry_get(old_entries, k));
    }
    assert forall|j: int| 0 <= j < i implies (entry_get(post, (#[trigger] b[j]).uuid)
        matches Option::Some(e) && spec_upload_entry(
        e,
        count,
        visibility,
        lifetime,
        password,
        uploader,
        now,
    ) && ((forall|j2: int| j < j2 < i ==> (#[trigger] b[j2]).uuid != b[j].uuid)
        ==> spec_part_fields(e, parts[j].0))) by {
        if j == i - 1 {
        } else {
            assert(b[j] == blobs0[j]);
            if b[j].uuid == upload_uuid {
                assert(b[i - 1].uuid == b[j].uuid);
            } else {
                assert(entry_get(post, b[j].uuid) == entry_get(pre, b[j].uuid));
                assert(entry_get(pre, blobs0[j].uuid) matches Option::Some(e2)
                    && spec_upload_entry(
                    e2,
                    count,
                    visibility,
                    lifetime,
                    password,
                    uploader,
                    now,
                ));
                if forall|j2: int| j < j2 < i ==> (#[trigger] b[j2]).uuid != b[j].uuid {
                    assert forall|j2: int| j < j2 < i - 1 implies (#[trigger] blobs0[j2]).uuid
                        != blobs0[j].uuid by {
                        assert(b[j2] == blobs0[j2]);
                        assert(b[j2].uuid != b[j].uuid);
                    }
                }
            }
        }
    }
}

} // verus!
// The user-facing texts of the upload errors.
verus! {

pub open spec fn spec_upload_error_message(e: UploadError) -> Seq<char> {
    match e {
        UploadError::Multipart(me) => crate::multipart::spec_multipart_error_message(me),
        UploadError::FileCreate => "Failed to create new file"@,
        UploadError::FileWrite => "Io error occurred when writing uploaded file"@,
        UploadError::InvalidContentType => "Upload requires `multipart/form-data` Content-Type"@,
        UploadError::BoundaryExpected => "Multipart/form-data upload must define a boundary"@,
        UploadError::AqaHeader(he) => crate::headers::spec_header_error_message(he),
        UploadError::DbSerialize => "Serialization failure"@,
        UploadError::PrivateUploadWithoutAccount => "Only logged in users can set visibility to private"@,
        UploadError::AuthError(ae) => crate::account::spec_auth_error_message(ae),
    }
}

impl UploadError {
    /// The user-facing message for this error.
    pub fn message(&self) -> (s: String)
        ensures
            s@ == spec_upload_error_message(*self),
    {
        match self {
            UploadError::Multipart(me) => me.message(),
            UploadError::FileCreate => {
                let t = "Failed to create new file";
                t.to_owned()
            },
            UploadError::FileWrite => {
                let t = "Io error occurred when writing uploaded file";
                t.to_owned()
            },
            UploadError::InvalidContentType => {
                let t = "Upload requires `multipart/form-data` Content-Type";
                t.to_owned()
            },
            UploadError::BoundaryExpected => {
                let t = "Multipart/form-data upload must define a boundary";
                t.to_owned()
            },
            UploadError::AqaHeader(he) => he.message(),
            UploadError::DbSerialize => {
                let t = "Serialization failure";
                t.to_owned()
            },
            UploadError::PrivateUploadWithoutAccount => {
                let t = "Only logged in users can set visibility to private";
                t.to_owned()
            },
            UploadError::AuthError(ae) => ae.message(),
        }
    }
}

} // verus!
