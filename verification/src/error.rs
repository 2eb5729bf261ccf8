//! The uniform error-to-HTTP surface: status phrases and JSON error bodies.
//!
//! Every handler error maps to an HTTP status and a user-presentable flag;
//! when the flag is off, the body shows only the status phrase.
use vstd::prelude::*;

use crate::digits::{dec_chars, fmt_u64};
use crate::strutil::str_eq;

verus! {

/// The request field an authorization error points at.
#[derive(Debug, Clone, Copy, PartialEq, Eq, Structural)]
pub enum Field {
    Cookie,
    ContentType,
}

#[derive(Debug, Clone, Copy, PartialEq, Eq, Structural)]
pub enum ErrorContentType {
    PlainText,
    Json,
    Http,
}

/// The reason phrase for each status the service produces.
pub open spec fn spec_status_phrase(code: u16) -> Seq<char> {
    if code == 200 {
        "OK"@
    } else if code == 201 {
        "Created"@
    } else if code == 204 {
        "No Content"@
    } else if code == 400 {
        "Bad Request"@
    } else if code == 401 {
        "Unauthorized"@
    } else if code == 403 {
        "Forbidden"@
    } else if code == 404 {
        "Not Found"@
    } else if code == 413 {
        "Payload Too Large"@
    } else {
        "Internal Server Error"@
    }
}

/// The status line text, `<code> <phrase>`, shown for errors that are not
/// user-presentable.
pub open spec fn spec_status_text(code: u16) -> Seq<char> {
    dec_chars(code as nat) + " "@ + spec_status_phrase(code)
}

/// Renders `<code> <phrase>` for a status code.
pub fn status_text(code: u16) -> (s: String)
    ensures
        s@ == spec_status_text(code),
{
    let mut s = fmt_u64(code as u64);
    s.append(" ");
    if code == 200 {
        s.append("OK");
    } else if code == 201 {
        s.append("Created");
    } else if code == 204 {
        s.append("No Content");
    } else if code == 400 {
        s.append("Bad Request");
    } else if code == 401 {
        s.append("Unauthorized");
    } else if code == 403 {
        s.append("Forbidden");
    } else if code == 404 {
        s.append("Not Found");
    } else if code == 413 {
        s.append("Payload Too Large");
    } else {
        s.append("Internal Server Error");
    }
    s
}

/// A character as it stands inside a JSON string literal.
pub open spec fn json_escaped_char(c: char) -> Seq<char> {
    if c == '"' {
        seq!['\\', '"']
    } else if c == '\\' {
        seq!['\\', '\\']
    } else if c == '\n' {
        seq!['\\', 'n']
    } else if c == '\r' {
        seq!['\\', 'r']
    } else if c == '\t' {
        seq!['\\', 't']
    } else {
        seq![c]
    }
}

/// A string as it stands inside a JSON string literal.
pub open spec fn json_escaped(s: Seq<char>) -> Seq<char>
    decreases s.len(),
{
    if s.len() == 0 {
        Seq::empty()
    } else {
        json_escaped_char(s[0]) + json_escaped(s.drop_first())
    }
}

proof fn lemma_json_escaped_push(s: Seq<char>, c: char)
    ensures
        json_escaped(s.push(c)) == json_escaped(s) + json_escaped_char(c),
    decreases s.len(),
{
    let t = s.push(c);
    if s.len() == 0 {
        assert(t[0] == c);
        assert(t.drop_first() =~= Seq::<char>::empty());
        assert(json_escaped(t.drop_first()) =~= Seq::<char>::empty());
        assert(json_escaped(t) =~= json_escaped(s) + json_escaped_char(c));
    } else {
        assert(t[0] == s[0]);
        assert(t.drop_first() =~= s.drop_first().push(c));
        lemma_json_escaped_push(s.drop_first(), c);
        assert(json_escaped(t) =~= json_escaped(s) + json_escaped_char(c));
    }
}

/// Escapes a string for embedding in a JSON string literal.
pub fn json_escape(s: &str) -> (r: String)
    ensures
        r@ == json_escaped(s@),
{
    let len: usize = s.unicode_len();
    let mut out = String::new();
    let mut i: usize = 0;
    while i < len
        invariant
            i <= len,
            len == s@.len(),
            out@ == json_escaped(s@.subrange(0, i as int)),
        decreases len - i,
    {
        let c = s.get_char(i);
        if c == '"' {
            out.append("\\\"");
        } else if c == '\\' {
            out.append("\\\\");
        } else if c == '\n' {
            out.append("\\n");
        } else if c == '\r' {
            out.append("\\r");
        } else if c == '\t' {
            out.append("\\t");
        } else {
            out.append(s.substring_char(i, i + 1));
        }
        i = i + 1;
        proof {
            lemma_json_escaped_push(s@.subrange(0, i as int - 1), s@[i as int - 1]);
            assert(s@.subrange(0, i as int) =~= s@.subrange(0, i as int - 1).push(
                s@[i as int - 1],
            ));
            assert(s@.subrange(i as int - 1, i as int) =~= seq![s@[i as int - 1]]);
            proof_char_literals();
            assert(out@ =~= json_escaped(s@.subrange(0, i as int)));
        }
    }
    proof {
        assert(s@.subrange(0, len as int) =~= s@);
    }
    out
}

proof fn proof_char_literals()
    ensures
        "\\\""@ == seq!['\\', '"'],
        "\\\\"@ == seq!['\\', '\\'],
        "\\n"@ == seq!['\\', 'n'],
        "\\r"@ == seq!['\\', 'r'],
        "\\t"@ == seq!['\\', 't'],
{
    reveal_strlit("\\\"");
    reveal_strlit("\\\\");
    reveal_strlit("\\n");
    reveal_strlit("\\r");
    reveal_strlit("\\t");
    assert("\\\""@ =~= seq!['\\', '"']);
    assert("\\\\"@ =~= seq!['\\', '\\']);
    assert("\\n"@ =~= seq!['\\', 'n']);
    assert("\\r"@ =~= seq!['\\', 'r']);
    assert("\\t"@ =~= seq!['\\', 't']);
}

/// The JSON error body: `{"status":<code>,"message":"<escaped message>"}`.
pub open spec fn spec_error_json(code: u16, message: Seq<char>) -> Seq<char> {
    "{\"status\":"@ + dec_chars(code as nat) + ",\"message\":\""@ + json_escaped(message) + "\"}"@
}

/// The body shown for an error: its message when user-presentable, the
/// status line otherwise; as JSON on JSON routes, as plain text elsewhere.
pub open spec fn spec_error_body(
    code: u16,
    message: Seq<char>,
    user_presentable: bool,
    content_type: ErrorContentType,
) -> Seq<char> {
    let shown = if user_presentable {
        message
    } else {
        spec_status_text(code)
    };
    match content_type {
        ErrorContentType::Json => spec_error_json(code, shown),
        _ => shown,
    }
}

/// Renders the response body for a handler error.
pub fn error_body(
    code: u16,
    message: &str,
    user_presentable: bool,
    content_type: ErrorContentType,
) -> (r: String)
    ensures
        r@ == spec_error_body(code, message@, user_presentable, content_type),
{
    let shown: String = if user_presentable {
        message.to_owned()
    } else {
        status_text(code)
    };
    match content_type {
        ErrorContentType::Json => {
            let mut out = String::new();
            out.append("{\"status\":");
            out.append(fmt_u64(code as u64).as_str());
            out.append(",\"message\":\"");
            out.append(json_escape(shown.as_str()).as_str());
            out.append("\"}");
            proof {
                assert(out@ =~= spec_error_body(code, message@, user_presentable, content_type));
            }
            out
        },
        _ => shown,
    }
}

} // verus!
// The one CLI error the command parser reports.
verus! {

/// An unrecognized CLI command.
#[derive(Debug)]
pub struct InvalidCommandError(pub String);

impl InvalidCommandError {
    /// The message shown for an unknown command.
    pub fn message(&self) -> (s: String)
        ensures
            s@ == "Invalid command "@ + self.0@ + ". Run with `help` to see possible values."@,
    {
        let mut s = String::new();
        s.append("Invalid command ");
        s.append(self.0.as_str());
        s.append(". Run with `help` to see possible values.");
        s
    }
}

} // verus!
// The name a field shows in error texts.
verus! {

pub open spec fn spec_field_name(f: Field) -> Seq<char> {
    match f {
        Field::Cookie => "Cookie"@,
        Field::ContentType => "ContentType"@,
    }
}

impl Field {
    /// The field's name, as error texts show it.
    pub fn name(&self) -> (s: String)
        ensures
            s@ == spec_field_name(*self),
    {
        match self {
            Field::Cookie => {
                let t = "Cookie";
                t.to_owned()
            },
            Field::ContentType => {
                let t = "ContentType";
                t.to_owned()
            },
        }
    }
}

} // verus!
