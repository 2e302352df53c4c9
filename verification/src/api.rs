//! The error taxonomy of the API client boundary, and the mapping from raw
//! transport outcomes onto it.
//!
//! The network round trips themselves happen outside this crate; callers
//! hand the transport's status and (already deserialized) bodies in as plain
//! values, and the functions here decide which typed error they mean.

use vstd::prelude::*;

use crate::id::{render_id_spec, PasteId, PasteIdView};

verus! {

/// The error body the backend returns for a failed call: a machine code and
/// a human-readable message.
pub struct ErrorResponse {
    pub code: u16,
    pub message: String,
}

/// The request body for creating a paste; [`CreatePaste::to_json_body`]
/// gives its wire form. An empty `custom_id` is omitted there: the backend
/// raises its own error on an invalid one, so nothing is validated here.
pub struct CreatePaste {
    pub as_user: bool,
    pub content: String,
    pub title: String,
    pub custom_id: String,
    pub id: Option<PasteId>,
    pub pinned: bool,
    pub private: bool,
}

/// The mathematical value of a [`CreatePaste`].
pub struct CreatePasteView {
    pub as_user: bool,
    pub content: Seq<char>,
    pub title: Seq<char>,
    pub custom_id: Seq<char>,
    pub id: Option<PasteIdView>,
    pub pinned: bool,
    pub private: bool,
}

impl View for CreatePaste {
    type V = CreatePasteView;

    open spec fn view(&self) -> CreatePasteView {
        CreatePasteView {
            as_user: self.as_user,
            content: self.content@,
            title: self.title@,
            custom_id: self.custom_id@,
            id: match &self.id {
                Some(p) => Some(p@),
                None => None,
            },
            pinned: self.pinned,
            private: self.private,
        }
    }
}

/// The JSON escape of one character: quotes and backslashes are escaped,
/// the common control characters get their short forms, the remaining
/// control characters a `\u00..` form, and everything else stands as is.
pub open spec fn esc_char(c: char) -> Seq<char> {
    if c == '"' {
        seq!['\\', '"']
    } else if c == '\\' {
        seq!['\\', '\\']
    } else if c == '\n' {
        seq!['\\', 'n']
    } else if c == '\r' {
        seq!['\\', 'r']
    } else if c == '\t' {
        seq!['\\', 't']
    } else if (c as u32) < 0x20 {
        seq!['\\', 'u', '0', '0'] + seq![
            crate::codec::hex_digit(((c as u32) / 16) as int),
            crate::codec::hex_digit(((c as u32) % 16) as int),
        ]
    } else {
        seq![c]
    }
}

/// The JSON escape of a string's characters, in order.
pub open spec fn esc_chars(s: Seq<char>) -> Seq<char>
    decreases s.len(),
{
    if s.len() == 0 {
        seq![]
    } else {
        esc_char(s[0]) + esc_chars(s.drop_first())
    }
}

proof fn lemma_esc_chars_snoc(s: Seq<char>, c: char)
    ensures
        esc_chars(s.push(c)) == esc_chars(s) + esc_char(c),
    decreases s.len(),
{
    if s.len() == 0 {
        reveal_with_fuel(esc_chars, 2);
        assert(s.push(c)[0] == c);
        assert(s.push(c).drop_first() =~= Seq::<char>::empty());
        assert(esc_chars(s.push(c)) =~= esc_char(c));
        assert(esc_chars(s) + esc_char(c) =~= esc_char(c));
    } else {
        assert(s.push(c).drop_first() =~= s.drop_first().push(c));
        lemma_esc_chars_snoc(s.drop_first(), c);
        assert(esc_chars(s.push(c)) =~= esc_chars(s) + esc_char(c));
    }
}

/// The JSON rendering of a boolean.
pub open spec fn bool_chars(b: bool) -> Seq<char> {
    if b {
        "true"@
    } else {
        "false"@
    }
}

/// The JSON wire form of a creation request: every field in declaration
/// order, strings escaped, `custom_id` omitted when empty, and the optional
/// identifier either `null` or its one-segment wire form as a string.
pub open spec fn json_body_spec(v: CreatePasteView) -> Seq<char> {
    "{\"as_user\":"@ + bool_chars(v.as_user) + ",\"content\":\""@ + esc_chars(v.content)
        + "\",\"title\":\""@ + esc_chars(v.title) + "\""@ + (if v.custom_id.len() == 0 {
        Seq::<char>::empty()
    } else {
        ",\"custom_id\":\""@ + esc_chars(v.custom_id) + "\""@
    }) + ",\"id\":"@ + (match v.id {
        None => "null"@,
        Some(p) => seq!['"'] + esc_chars(render_id_spec(p)) + seq!['"'],
    }) + ",\"pinned\":"@ + bool_chars(v.pinned) + ",\"private\":"@ + bool_chars(v.private) + "}"@
}

fn push_json_escaped(dst: &mut Vec<char>, s: &str)
    ensures
        final(dst)@ == old(dst)@ + esc_chars(s@),
{
    let cs = crate::text::str_chars(s);
    let ghost base = dst@;
    let mut i: usize = 0;
    while i < cs.len()
        invariant
            0 <= i <= cs@.len(),
            cs@ == s@,
            dst@ == base + esc_chars(s@.take(i as int)),
        decreases cs@.len() - i,
    {
        let c = cs[i];
        if c == '"' {
            dst.push('\\');
            dst.push('"');
        } else if c == '\\' {
            dst.push('\\');
            dst.push('\\');
        } else if c == '\n' {
            dst.push('\\');
            dst.push('n');
        } else if c == '\r' {
            dst.push('\\');
            dst.push('r');
        } else if c == '\t' {
            dst.push('\\');
            dst.push('t');
        } else if (c as u32) < 0x20 {
            dst.push('\\');
            dst.push('u');
            dst.push('0');
            dst.push('0');
            let d = c as u32;
            proof {
                assert((d / 16) as u8 as int == (d / 16) as int);
                assert((d % 16) as u8 as int == (d % 16) as int);
            }
            dst.push(crate::codec::hex_digit_exec((d / 16) as u8));
            dst.push(crate::codec::hex_digit_exec((d % 16) as u8));
        } else {
            dst.push(c);
        }
        proof {
            assert(s@.take(i as int).push(s@[i as int]) =~= s@.take(i as int + 1));
            lemma_esc_chars_snoc(s@.take(i as int), s@[i as int]);
            assert(dst@ =~= base + esc_chars(s@.take(i as int + 1)));
        }
        i = i + 1;
    }
    proof {
        assert(s@.take(s@.len() as int) =~= s@);
    }
}

fn push_bool(dst: &mut Vec<char>, b: bool)
    ensures
        final(dst)@ == old(dst)@ + bool_chars(b),
{
    if b {
        crate::text::push_str_chars(dst, "true");
    } else {
        crate::text::push_str_chars(dst, "false");
    }
}

impl CreatePaste {
    /// The JSON body this request is sent as.
    pub fn to_json_body(&self) -> (r: String)
        ensures
            r@ == json_body_spec(self@),
    {
        let mut v: Vec<char> = Vec::new();
        crate::text::push_str_chars(&mut v, "{\"as_user\":");
        push_bool(&mut v, self.as_user);
        crate::text::push_str_chars(&mut v, ",\"content\":\"");
        push_json_escaped(&mut v, self.content.as_str());
        crate::text::push_str_chars(&mut v, "\",\"title\":\"");
        push_json_escaped(&mut v, self.title.as_str());
        crate::text::push_str_chars(&mut v, "\"");
        if vstd::string::StrSliceExecFns::unicode_len(self.custom_id.as_str()) != 0 {
            crate::text::push_str_chars(&mut v, ",\"custom_id\":\"");
            push_json_escaped(&mut v, self.custom_id.as_str());
            crate::text::push_str_chars(&mut v, "\"");
        }
        crate::text::push_str_chars(&mut v, ",\"id\":");
        match &self.id {
            None => crate::text::push_str_chars(&mut v, "null"),
            Some(p) => {
                v.push('"');
                let seg = p.render();
                push_json_escaped(&mut v, seg.as_str());
                v.push('"');
            },
        }
        crate::text::push_str_chars(&mut v, ",\"pinned\":");
        push_bool(&mut v, self.pinned);
        crate::text::push_str_chars(&mut v, ",\"private\":");
        push_bool(&mut v, self.private);
        crate::text::push_str_chars(&mut v, "}");
        proof {
            assert(v@ =~= json_body_spec(self@));
        }
        crate::text::chars_string(&v)
    }
}

/// Every failure the routing and data-loading core can surface.
#[derive(Debug)]
pub enum Error {
    /// No route matches; terminal, never retried.
    RouteNotFound,
    /// The requested resource (a paste or a user) does not exist server-side;
    /// carries the resource kind and its identifier.
    ResourceNotFound(&'static str, String),
    /// Structured failure returned by the backend, surfaced verbatim.
    ApiError(u16, String),
    /// The transport returned a failure whose body did not match the expected
    /// error shape; carries the status and its text.
    UnhandledStatus(u16, String),
    /// The embedded hydration payload is missing or malformed; fatal for the
    /// hydration constructor, never masked.
    HydrationDecodeFailure,
    /// The request-scoped context lacks a value the page declared it needs: a
    /// programming-contract violation in the server pipeline, not a
    /// user-facing error.
    PreloadMissing,
}

impl Error {
    /// True when this is the not-found error for the resource `kind`/`id`.
    pub open spec fn is_resource_not_found(self, kind: Seq<char>, id: Seq<char>) -> bool {
        match self {
            Error::ResourceNotFound(k, i) => k@ == kind && i@ == id,
            _ => false,
        }
    }

    /// True when this is the verbatim backend failure `code`/`message`.
    pub open spec fn is_api_error(self, code: u16, message: Seq<char>) -> bool {
        match self {
            Error::ApiError(c, m) => c == code && m@ == message,
            _ => false,
        }
    }

    /// True when this is the catch-all transport failure `status`/`text`.
    pub open spec fn is_unhandled_status(self, status: u16, text: Seq<char>) -> bool {
        match self {
            Error::UnhandledStatus(s, t) => s == status && t@ == text,
            _ => false,
        }
    }
}

/// A status in the 2xx range: the transport call succeeded.
pub open spec fn status_ok(status: u16) -> bool {
    200 <= status < 300
}

/// Maps a failed transport reply onto the taxonomy: a body matching the
/// expected error shape becomes [`Error::ApiError`] with its code and
/// message; anything else becomes the catch-all [`Error::UnhandledStatus`]
/// carrying the raw status and its text.
pub fn map_error_response(status: u16, status_text: String, body: Option<ErrorResponse>) -> (e:
    Error)
    ensures
        match body {
            Some(b) => e.is_api_error(b.code, b.message@),
            None => e.is_unhandled_status(status, status_text@),
        },
{
    match body {
        Some(b) => Error::ApiError(b.code, b.message),
        None => Error::UnhandledStatus(status, status_text),
    }
}

} // verus!
