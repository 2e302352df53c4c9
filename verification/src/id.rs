//! Typed paste identifiers.
//!
//! A paste is identified either anonymously or scoped to the user who owns
//! it. On the wire a scoped identifier is one path segment of the form
//! `user:id`. Route captures are typed: a segment that does not parse as a
//! valid identifier fails the whole pattern, which then falls through to
//! the next one.

use vstd::prelude::*;

verus! {

/// Identifier of a paste: anonymous, or scoped to its owning user.
pub enum PasteId {
    Paste(String),
    UserPaste(String, String),
}

/// The mathematical value of a [`PasteId`].
pub enum PasteIdView {
    Anon { id: Seq<char> },
    Scoped { user: Seq<char>, id: Seq<char> },
}

impl View for PasteId {
    type V = PasteIdView;

    open spec fn view(&self) -> PasteIdView {
        match self {
            PasteId::Paste(id) => PasteIdView::Anon { id: id@ },
            PasteId::UserPaste(user, id) => PasteIdView::Scoped { user: user@, id: id@ },
        }
    }
}

/// Characters an identifier (or a user name) may consist of: ASCII letters,
/// digits, `-` and `_`.
pub open spec fn is_id_char(c: char) -> bool {
    ('0' <= c && c <= '9') || ('a' <= c && c <= 'z') || ('A' <= c && c <= 'Z') || c == '-' || c
        == '_'
}

/// A valid bare identifier: non-empty and made of identifier characters.
pub open spec fn valid_id_chars(s: Seq<char>) -> bool {
    s.len() > 0 && forall|i: int| 0 <= i < s.len() ==> is_id_char(#[trigger] s[i])
}

/// What a path segment parses to: a scoped identifier when it carries a `:`
/// (both halves must be valid), otherwise an anonymous identifier.
pub open spec fn parse_id_spec(seg: Seq<char>) -> Option<PasteIdView> {
    let c = crate::text::char_index(seg, ':');
    if c == seg.len() {
        if valid_id_chars(seg) {
            Some(PasteIdView::Anon { id: seg })
        } else {
            None
        }
    } else {
        let user = seg.take(c);
        let id = seg.skip(c + 1);
        if valid_id_chars(user) && valid_id_chars(id) {
            Some(PasteIdView::Scoped { user, id })
        } else {
            None
        }
    }
}

/// True when `c` may appear in an identifier.
pub fn id_char(c: char) -> (r: bool)
    ensures
        r == is_id_char(c),
{
    ('0' <= c && c <= '9') || ('a' <= c && c <= 'z') || ('A' <= c && c <= 'Z') || c == '-' || c
        == '_'
}

/// True when `s` is a valid bare identifier.
pub fn valid_id(s: &Vec<char>) -> (r: bool)
    ensures
        r == valid_id_chars(s@),
{
    if s.len() == 0 {
        return false;
    }
    let mut i: usize = 0;
    while i < s.len()
        invariant
            0 <= i <= s@.len(),
            s@.len() > 0,
            forall|j: int| 0 <= j < i ==> is_id_char(#[trigger] s@[j]),
        decreases s@.len() - i,
    {
        if !id_char(s[i]) {
            return false;
        }
        i = i + 1;
    }
    true
}

/// A well-formed identifier value: every part a valid bare identifier.
pub open spec fn valid_pid_view(v: PasteIdView) -> bool {
    match v {
        PasteIdView::Anon { id } => valid_id_chars(id),
        PasteIdView::Scoped { user, id } => valid_id_chars(user) && valid_id_chars(id),
    }
}

/// The one-segment wire form of an identifier: the bare id, or `user:id`.
pub open spec fn render_id_spec(v: PasteIdView) -> Seq<char> {
    match v {
        PasteIdView::Anon { id } => id,
        PasteIdView::Scoped { user, id } => user + seq![':'] + id,
    }
}

/// The URL of a paste's JSON representation.
pub open spec fn json_url_spec(v: PasteIdView) -> Seq<char> {
    match v {
        PasteIdView::Anon { id } => seq!['/'] + id + "/json"@,
        PasteIdView::Scoped { user, id } => "/u/"@ + user + seq!['/'] + id + "/json"@,
    }
}

/// The URL a paste is deleted through.
pub open spec fn delete_url_spec(v: PasteIdView) -> Seq<char> {
    "/api/internal/paste/"@ + render_id_spec(v)
}

/// Rendering an identifier and parsing the segment back yields the same
/// identifier: the wire form is lossless for well-formed values.
pub proof fn lemma_parse_render(v: PasteIdView)
    requires
        valid_pid_view(v),
    ensures
        parse_id_spec(render_id_spec(v)) == Some(v),
{
    match v {
        PasteIdView::Anon { id } => {
            assert forall|i: int| 0 <= i < id.len() implies id[i] != ':' by {
                assert(is_id_char(id[i]));
            }
            crate::text::lemma_char_index_is(id, ':', id.len() as int);
        },
        PasteIdView::Scoped { user, id } => {
            let s = user + seq![':'] + id;
            assert forall|i: int| 0 <= i < user.len() implies s[i] != ':' by {
                assert(s[i] == user[i]);
                assert(is_id_char(user[i]));
            }
            assert(s[user.len() as int] == ':');
            crate::text::lemma_char_index_is(s, ':', user.len() as int);
            assert(s.take(user.len() as int) =~= user);
            assert(s.skip(user.len() as int + 1) =~= id);
        },
    }
}

impl PasteId {
    /// The identifier's one-segment wire form: the bare id, or `user:id`.
    pub fn render(&self) -> (r: String)
        ensures
            r@ == render_id_spec(self@),
    {
        match self {
            PasteId::Paste(id) => id.clone(),
            PasteId::UserPaste(user, id) => {
                let mut v = crate::text::str_chars(user.as_str());
                v.push(':');
                crate::text::push_str_chars(&mut v, id.as_str());
                proof {
                    assert(v@ =~= render_id_spec(self@));
                }
                crate::text::chars_string(&v)
            },
        }
    }

    /// The URL this paste's JSON representation is fetched from.
    pub fn to_json_url(&self) -> (r: String)
        ensures
            r@ == json_url_spec(self@),
    {
        let mut v: Vec<char> = Vec::new();
        match self {
            PasteId::Paste(id) => {
                v.push('/');
                crate::text::push_str_chars(&mut v, id.as_str());
                crate::text::push_str_chars(&mut v, "/json");
            },
            PasteId::UserPaste(user, id) => {
                crate::text::push_str_chars(&mut v, "/u/");
                crate::text::push_str_chars(&mut v, user.as_str());
                v.push('/');
                crate::text::push_str_chars(&mut v, id.as_str());
                crate::text::push_str_chars(&mut v, "/json");
            },
        }
        proof {
            assert(v@ =~= json_url_spec(self@));
        }
        crate::text::chars_string(&v)
    }

    /// The URL this paste is deleted through.
    pub fn to_delete_url(&self) -> (r: String)
        ensures
            r@ == delete_url_spec(self@),
    {
        let mut v: Vec<char> = Vec::new();
        crate::text::push_str_chars(&mut v, "/api/internal/paste/");
        let seg = self.render();
        crate::text::push_str_chars(&mut v, seg.as_str());
        proof {
            assert(v@ =~= delete_url_spec(self@));
        }
        crate::text::chars_string(&v)
    }

    /// Parses one path segment into a typed identifier, if it is valid.
    pub fn parse(seg: &Vec<char>) -> (r: Option<PasteId>)
        ensures
            match r {
                Some(p) => parse_id_spec(seg@) == Some(p@),
                None => parse_id_spec(seg@) is None,
            },
    {
        let mut c: usize = 0;
        while c < seg.len() && seg[c as usize] != ':'
            invariant
                0 <= c <= seg@.len(),
                forall|j: int| 0 <= j < c ==> seg@[j] != ':',
            decreases seg@.len() - c,
        {
            c = c + 1;
        }
        proof {
            crate::text::lemma_char_index_is(seg@, ':', c as int);
        }
        if c == seg.len() {
            if valid_id(seg) {
                Some(PasteId::Paste(crate::text::chars_string(seg)))
            } else {
                None
            }
        } else {
            let ghost gseg = seg@;
            let mut user: Vec<char> = Vec::new();
            let mut i: usize = 0;
            while i < c
                invariant
                    0 <= i <= c <= gseg.len(),
                    seg@ == gseg,
                    user@ == gseg.take(c as int).take(i as int),
                decreases c - i,
            {
                user.push(seg[i]);
                proof {
                    assert(user@ =~= gseg.take(c as int).take(i as int + 1));
                }
                i = i + 1;
            }
            proof {
                assert(user@ =~= gseg.take(c as int));
            }
            let mut id: Vec<char> = Vec::new();
            let mut j: usize = c + 1;
            while j < seg.len()
                invariant
                    c as int + 1 <= j <= gseg.len(),
                    seg@ == gseg,
                    id@ == gseg.skip(c as int + 1).take(j - c - 1),
                decreases gseg.len() - j,
            {
                id.push(seg[j]);
                proof {
                    assert(id@ =~= gseg.skip(c as int + 1).take(j - c));
                }
                j = j + 1;
            }
            proof {
                assert(id@ =~= gseg.skip(c as int + 1));
            }
            if valid_id(&user) && valid_id(&id) {
                Some(
                    PasteId::UserPaste(
                        crate::text::chars_string(&user),
                        crate::text::chars_string(&id),
                    ),
                )
            } else {
                None
            }
        }
    }
}

} // verus!
