//! The listing route: projects the live, visible entries into client-facing
//! records.  A stored password is never echoed; only its presence is.
use vstd::prelude::*;

use crate::account::spec_auth_error_code;
use crate::cleanup::{is_exhausted, is_expired, spec_evicted};
use crate::cookie::{pairs_lookup, parse_cookie, spec_parse_cookie};
use crate::db::{entry_get, Db};
use crate::db_stuff::{Account, FileEntry, Uuid};
use crate::error::{ErrorContentType, Field};
use crate::headers::{Lifetime, Visibility};
use crate::uuid_text::{parse_uuid, spec_parse_uuid};
use crate::{query_get, query_lookup, spec_query_pairs, uri_query_iter, AuthorizedUsers};

verus! {

#[derive(Debug, Clone, Copy, PartialEq, Eq, Structural)]
pub enum ListError {
    Json,
    MalformedSessionCookie,
    AsciiOnly(Field),
    Malformed(Field),
    UnknownUser,
}

pub open spec fn spec_list_error_code(e: ListError) -> u16 {
    match e {
        ListError::Json => 500,
        ListError::MalformedSessionCookie => 400,
        ListError::AsciiOnly(_) => 400,
        ListError::Malformed(_) => 400,
        ListError::UnknownUser => 400,
    }
}

impl ListError {
    pub fn code(&self) -> (c: u16)
        ensures
            c == spec_list_error_code(*self),
    {
        match self {
            ListError::Json => 500,
            ListError::MalformedSessionCookie => 400,
            ListError::AsciiOnly(_) => 400,
            ListError::Malformed(_) => 400,
            ListError::UnknownUser => 400,
        }
    }

    pub fn user_presentable(&self) -> (b: bool)
        ensures
            b == !(*self matches ListError::Json),
    {
        match self {
            ListError::Json => false,
            _ => true,
        }
    }

    pub fn content_type(&self) -> (c: ErrorContentType)
        ensures
            c == ErrorContentType::Json,
    {
        ErrorContentType::Json
    }
}

/// The client-facing projection of an entry.  It carries whether a password
/// is set, never the password itself.
#[derive(Debug)]
pub struct FileModel {
    pub uuid: Uuid,
    pub filename: String,
    pub content_type: String,
    pub uploader_uuid: Option<Uuid>,
    pub download_count: u64,
    pub visibility: Visibility,
    pub has_password: bool,
    pub lifetime: Lifetime,
    pub upload_date: u64,
}

/// How the listing resolves a viewer: like the authorization pipeline, but
/// an unknown session token reads as anonymous rather than as an error.
pub open spec fn spec_list_user(
    cookie_header: Option<Seq<char>>,
    sessions: Seq<(Uuid, Uuid)>,
    accounts: Seq<(Uuid, Account)>,
) -> Result<Option<Account>, ListError> {
    match cookie_header {
        Option::None => Result::Ok(Option::None),
        Option::Some(h) => match spec_parse_cookie(h) {
            Option::None => Result::Err(ListError::Malformed(Field::Cookie)),
            Option::Some(pairs) => match pairs_lookup(pairs, "session"@) {
                Option::None => Result::Ok(Option::None),
                Option::Some(sv) => match spec_parse_uuid(sv) {
                    Option::None => Result::Err(ListError::MalformedSessionCookie),
                    Option::Some(su) => match entry_get(sessions, su) {
                        Option::None => Result::Ok(Option::None),
                        Option::Some(uu) => match entry_get(accounts, uu) {
                            Option::None => Result::Err(ListError::UnknownUser),
                            Option::Some(a) => Result::Ok(Option::Some(a)),
                        },
                    },
                },
            },
        },
    }
}

/// Whether the viewer sees an entry at all: public, or their own.
pub open spec fn spec_visible(e: FileEntry, viewer: Option<Account>) -> bool {
    e.visibility == Visibility::Public || (viewer matches Option::Some(a) && e.uploader_uuid
        matches Option::Some(up) && up == a.uuid)
}

/// Whether an entry stands in the listing for a viewer: visible, owned when
/// `?uploader=me` filters, and neither expired nor exhausted.
pub open spec fn spec_listed(
    e: FileEntry,
    viewer: Option<Account>,
    only_self: bool,
    now: u64,
) -> bool {
    &&& spec_visible(e, viewer)
    &&& (only_self ==> (viewer matches Option::Some(a) && (e.uploader_uuid
        matches Option::Some(up) && up == a.uuid)))
    &&& !spec_evicted(e, now)
}

/// The entries the listing shows, in map order.
pub open spec fn spec_list_entries(
    s: Seq<(Uuid, FileEntry)>,
    viewer: Option<Account>,
    only_self: bool,
    now: u64,
) -> Seq<(Uuid, FileEntry)>
    decreases s.len(),
{
    if s.len() == 0 {
        Seq::empty()
    } else if spec_listed(s[0].1, viewer, only_self, now) {
        seq![s[0]] + spec_list_entries(s.drop_first(), viewer, only_self, now)
    } else {
        spec_list_entries(s.drop_first(), viewer, only_self, now)
    }
}

/// Whether a model is the projection of an entry: same fields, with the
/// password reduced to its presence.
pub open spec fn spec_model_of(m: FileModel, uuid: Uuid, e: FileEntry) -> bool {
    &&& m.uuid == uuid
    &&& m.filename@ == e.filename@
    &&& m.content_type@ == e.content_type@
    &&& m.uploader_uuid == e.uploader_uuid
    &&& m.download_count == e.download_count
    &&& m.visibility == e.visibility
    &&& m.has_password == (e.password is Some)
    &&& m.lifetime == e.lifetime
    &&& m.upload_date == e.upload_date
}

/// Whether `?uploader=me` filters the listing to the viewer's uploads.
pub open spec fn spec_only_self(query: Option<Seq<char>>) -> bool {
    match query {
        Option::None => false,
        Option::Some(q) => query_lookup(spec_query_pairs(q, 0), "uploader"@) == Option::Some(
            "me"@,
        ),
    }
}

proof fn lemma_list_entries_push(
    s: Seq<(Uuid, FileEntry)>,
    x: (Uuid, FileEntry),
    viewer: Option<Account>,
    only_self: bool,
    now: u64,
)
    ensures
        spec_list_entries(s.push(x), viewer, only_self, now) == spec_list_entries(
            s,
            viewer,
            only_self,
            now,
        ) + (if spec_listed(x.1, viewer, only_self, now) {
            seq![x]
        } else {
            Seq::<(Uuid, FileEntry)>::empty()
        }),
    decreases s.len(),
{
    let t = s.push(x);
    if s.len() == 0 {
        assert(t[0] == x);
        let e0 = t.drop_first();
        assert(e0 =~= Seq::<(Uuid, FileEntry)>::empty());
        assert(spec_list_entries(e0, viewer, only_self, now) =~= Seq::<(Uuid, FileEntry)>::empty());
        if spec_listed(x.1, viewer, only_self, now) {
            assert(spec_list_entries(t, viewer, only_self, now) =~= spec_list_entries(
                s,
                viewer,
                only_self,
                now,
            ) + seq![x]);
        } else {
            assert(spec_list_entries(t, viewer, only_self, now) =~= spec_list_entries(
                s,
                viewer,
                only_self,
                now,
            ));
        }
    } else {
        assert(t[0] == s[0]);
        assert(t.drop_first() =~= s.drop_first().push(x));
        lemma_list_entries_push(s.drop_first(), x, viewer, only_self, now);
        if spec_listed(x.1, viewer, only_self, now) {
            assert(spec_list_entries(t, viewer, only_self, now) =~= spec_list_entries(
                s,
                viewer,
                only_self,
                now,
            ) + seq![x]);
        } else {
            assert(spec_list_entries(t, viewer, only_self, now) =~= spec_list_entries(
                s,
                viewer,
                only_self,
                now,
            ));
        }
    }
}

/// Lists the live entries the caller may see, as client-facing projections.
pub fn list(
    cookie_header: Option<&str>,
    query: Option<&str>,
    now: u64,
    db: &Db,
    authorized_users: &AuthorizedUsers,
) -> (r: Result<Vec<FileModel>, ListError>)
    ensures
        ({
            let hdr = match cookie_header {
                Option::Some(h) => Option::<Seq<char>>::Some(h@),
                Option::None => Option::<Seq<char>>::None,
            };
            let q = match query {
                Option::Some(s) => Option::<Seq<char>>::Some(s@),
                Option::None => Option::<Seq<char>>::None,
            };
            match spec_list_user(hdr, authorized_users.sessions@, db.accounts@) {
                Result::Err(e) => r == Result::<Vec<FileModel>, ListError>::Err(e),
                Result::Ok(viewer) => {
                    let shown = spec_list_entries(
                        db.file_entries@,
                        viewer,
                        spec_only_self(q),
                        now,
                    );
                    r matches Ok(models) && models@.len() == shown.len() && (forall|j: int|
                        0 <= j < shown.len() ==> spec_model_of(
                            #[trigger] models@[j],
                            shown[j].0,
                            shown[j].1,
                        ))
                },
            }
        }),
{
    let viewer: Option<Account> = match cookie_header {
        None => None,
        Some(header) => {
            let pairs = match parse_cookie(header) {
                Some(p) => p,
                None => {
                    return Err(ListError::Malformed(Field::Cookie));
                },
            };
            match crate::cookie::cookie_get(&pairs, "session") {
                None => None,
                Some(sv) => {
                    let su = match parse_uuid(sv.as_str()) {
                        Some(u) => u,
                        None => {
                            return Err(ListError::MalformedSessionCookie);
                        },
                    };
                    match authorized_users.get_user_uuid(&su) {
                        None => None,
                        Some(uu) => match db.get_account(&uu) {
                            Some(a) => Some(a),
                            None => {
                                return Err(ListError::UnknownUser);
                            },
                        },
                    }
                },
            }
        },
    };
    let only_self: bool = match query {
        None => false,
        Some(q) => {
            let pairs = uri_query_iter(q);
            match query_get(&pairs, "uploader") {
                Some(v) => crate::strutil::str_eq(v.as_str(), "me"),
                None => false,
            }
        },
    };
    let ghost gviewer = viewer;
    let n = db.file_entries.len();
    let mut models: Vec<FileModel> = Vec::new();
    let mut i: usize = 0;
    while i < n
        invariant
            i <= n,
            n == db.file_entries@.len(),
            gviewer == viewer,
            ({
                let shown = spec_list_entries(
                    db.file_entries@.subrange(0, i as int),
                    gviewer,
                    only_self,
                    now,
                );
                models@.len() == shown.len() && (forall|j: int|
                    0 <= j < shown.len() ==> spec_model_of(
                        #[trigger] models@[j],
                        shown[j].0,
                        shown[j].1,
                    ))
            }),
        decreases n - i,
    {
        let uuid = db.file_entries[i].0;
        let e = &db.file_entries[i].1;
        let ghost prefix = db.file_entries@.subrange(0, i as int);
        proof {
            lemma_list_entries_push(prefix, db.file_entries@[i as int], gviewer, only_self, now);
            assert(db.file_entries@.subrange(0, i as int + 1) =~= prefix.push(
                db.file_entries@[i as int],
            ));
        }
        let visible: bool = match e.visibility {
            Visibility::Public => true,
            Visibility::Private => match (&e.uploader_uuid, &viewer) {
                (Some(up), Some(a)) => *up == a.uuid,
                _ => false,
            },
        };
        let self_ok: bool = if only_self {
            match (&viewer, &e.uploader_uuid) {
                (Some(a), Some(up)) => *up == a.uuid,
                _ => false,
            }
        } else {
            true
        };
        if visible && self_ok && !is_exhausted(e) && !is_expired(e, now) {
            let model = FileModel {
                uuid,
                filename: e.filename.clone(),
                content_type: e.content_type.clone(),
                uploader_uuid: e.uploader_uuid,
                download_count: e.download_count,
                visibility: e.visibility,
                has_password: e.password.is_some(),
                lifetime: e.lifetime,
                upload_date: e.upload_date,
            };
            models.push(model);
        }
        i = i + 1;
    }
    proof {
        assert(db.file_entries@.subrange(0, n as int) =~= db.file_entries@);
    }
    Ok(models)
}

} // verus!
// The user-facing texts of the listing errors.
verus! {

pub open spec fn spec_list_error_message(e: ListError) -> Seq<char> {
    match e {
        ListError::Json => "Serialization failure"@,
        ListError::MalformedSessionCookie => "malformed session cookie"@,
        ListError::AsciiOnly(f) => crate::error::spec_field_name(f)
            + " must only contain visible ascii characters"@,
        ListError::Malformed(f) => "Malformed "@ + crate::error::spec_field_name(f) + " data"@,
        ListError::UnknownUser => "Authorized user doesn't exist"@,
    }
}

impl ListError {
    /// The user-facing message for this error.
    pub fn message(&self) -> (s: String)
        ensures
            s@ == spec_list_error_message(*self),
    {
        match self {
            ListError::Json => {
                let t = "Serialization failure";
                t.to_owned()
            },
            ListError::MalformedSessionCookie => {
                let t = "malformed session cookie";
                t.to_owned()
            },
            ListError::AsciiOnly(f) => {
                let mut s = f.name();
                s.append(" must only contain visible ascii characters");
                s
            },
            ListError::Malformed(f) => {
                let mut s = String::new();
                s.append("Malformed ");
                s.append(f.name().as_str());
                s.append(" data");
                s
            },
            ListError::UnknownUser => {
                let t = "Authorized user doesn't exist";
                t.to_owned()
            },
        }
    }
}

} // verus!
