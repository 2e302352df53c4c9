//! The page data-loading contract for the user listing page: three
//! constructors, one per execution context, that all deliver the same
//! logical data shape for the same arguments, plus the derived metadata.
//!
//! * [`UserPage::from_server_context`] reads preloaded request-scoped state —
//!   no I/O of its own.
//! * [`UserPage::from_hydration`] reads the payload embedded in
//!   server-rendered markup — no network round trip on first paint.
//! * [`UserPage::from_dynamic`] interprets the reply of the one network call
//!   in-app navigation makes; the call itself happens outside this crate and
//!   its outcome is handed in as plain values.

use vstd::prelude::*;

use crate::api::{status_ok, Error, ErrorResponse};
use crate::codec::{decode, decode_spec};
use crate::model::{Context, Meta, PasteSummary, SummaryView, UserPage, UserPageView};
use crate::text::{chars_string, dec_chars, push_str_chars, str_chars, u64_dec_chars};

verus! {

/// The page value assembled from route arguments and loaded summaries.
pub open spec fn page_from(name: Seq<char>, pastes: Seq<SummaryView>) -> UserPageView {
    UserPageView { name, pastes }
}

/// What loading from server context yields: the page when the pipeline
/// preloaded the user's pastes, nothing when it failed to.
pub open spec fn server_context_spec(name: Seq<char>, preloaded: Option<Seq<SummaryView>>) -> Option<
    UserPageView,
> {
    match preloaded {
        Some(l) => Some(page_from(name, l)),
        None => None,
    }
}

fn clone_summaries(v: &Vec<PasteSummary>) -> (r: Vec<PasteSummary>)
    ensures
        r@.map_values(|p: PasteSummary| p@) == v@.map_values(|p: PasteSummary| p@),
{
    let mut r: Vec<PasteSummary> = Vec::new();
    let mut i: usize = 0;
    while i < v.len()
        invariant
            0 <= i <= v@.len(),
            r@.len() == i as int,
            forall|j: int| 0 <= j < i ==> r@[j]@ == v@[j]@,
        decreases v@.len() - i,
    {
        r.push(v[i].clone());
        i = i + 1;
    }
    proof {
        assert(r@.map_values(|p: PasteSummary| p@) =~= v@.map_values(|p: PasteSummary| p@));
    }
    r
}

/// The reply of one user-listing fetch, as plain values: the transport
/// status and its text, the error body if one could be read, and the
/// summaries if the body parsed as such.
pub struct FetchReply {
    pub status: u16,
    pub status_text: String,
    pub error_body: Option<ErrorResponse>,
    pub pastes: Option<Vec<PasteSummary>>,
}

impl UserPage {
    /// Builds the page from request-scoped server state. Succeeds exactly
    /// when the context holds the preloaded value this page declares it
    /// needs; a missing value is a programming-contract violation of the
    /// server pipeline, reported as [`Error::PreloadMissing`].
    pub fn from_server_context(name: String, ctx: &Context) -> (r: Result<UserPage, Error>)
        ensures
            match server_context_spec(name@, ctx.user_pastes_view()) {
                Some(v) => r matches Ok(p) && p@ == v,
                None => r matches Err(e) && e is PreloadMissing,
            },
    {
        match &ctx.user_pastes {
            Some(v) => Ok(UserPage { name, pastes: clone_summaries(v) }),
            None => Err(Error::PreloadMissing),
        }
    }

    /// Builds the page from the payload embedded in server-rendered markup.
    /// Succeeds exactly when the payload attribute is present, decodes, and
    /// names the user the route arguments name; anything else is fatal for
    /// this constructor — it never falls back to a network fetch.
    pub fn from_hydration(name: String, payload: Option<&str>) -> (r: Result<UserPage, Error>)
        ensures
            match payload {
                None => r matches Err(e) && e is HydrationDecodeFailure,
                Some(t) => match decode_spec(t@) {
                    Some(v) => if v.name == name@ {
                        r matches Ok(p) && p@ == v
                    } else {
                        r matches Err(e) && e is HydrationDecodeFailure
                    },
                    None => r matches Err(e) && e is HydrationDecodeFailure,
                },
            },
    {
        match payload {
            Some(t) => match decode(t) {
                Some(p) => if p.name == name {
                    Ok(p)
                } else {
                    Err(Error::HydrationDecodeFailure)
                },
                None => Err(Error::HydrationDecodeFailure),
            },
            None => Err(Error::HydrationDecodeFailure),
        }
    }

    /// Interprets the reply of the dynamic fetch for `name`'s listing. A
    /// `404` means the user does not exist and yields the typed not-found
    /// error; any other success status yields the page when the body parsed
    /// as summaries and the catch-all error when it did not; any other
    /// failure status is mapped through the API error taxonomy.
    pub fn from_dynamic(name: String, reply: FetchReply) -> (r: Result<UserPage, Error>)
        ensures
            reply.status == 404 ==> (r matches Err(e) && e.is_resource_not_found("user"@, name@)),
            reply.status != 404 && status_ok(reply.status) ==> match reply.pastes {
                Some(l) => r matches Ok(p) && p@ == page_from(
                    name@,
                    l@.map_values(|p: PasteSummary| p@),
                ),
                None => r matches Err(e) && e.is_unhandled_status(
                    reply.status,
                    reply.status_text@,
                ),
            },
            reply.status != 404 && !status_ok(reply.status) ==> match reply.error_body {
                Some(b) => r matches Err(e) && e.is_api_error(b.code, b.message@),
                None => r matches Err(e) && e.is_unhandled_status(
                    reply.status,
                    reply.status_text@,
                ),
            },
    {
        if reply.status == 404 {
            return Err(Error::ResourceNotFound("user", name));
        }
        if 200 <= reply.status && reply.status < 300 {
            match reply.pastes {
                Some(pastes) => Ok(UserPage { name, pastes }),
                None => Err(Error::UnhandledStatus(reply.status, reply.status_text)),
            }
        } else {
            Err(crate::api::map_error_response(reply.status, reply.status_text, reply.error_body))
        }
    }

    /// True when the listing holds no pastes: the page renders its
    /// "nothing here" state, distinct from an error and from still-loading.
    pub fn is_empty(&self) -> (r: bool)
        ensures
            r == (self@.pastes.len() == 0),
    {
        self.pastes.len() == 0
    }
}

/// One description line for a paste title.
pub open spec fn summary_line(title: Seq<char>) -> Seq<char> {
    "\u{27A4} "@ + title
}

/// The overflow line naming how many more builds the listing holds.
pub open spec fn more_line(n: int) -> Seq<char> {
    "\u{27A4} .. "@ + dec_chars(n) + " more builds"@
}

/// The line shown when the user has no builds at all.
pub open spec fn no_builds_line() -> Seq<char> {
    "\u{27A4} there aren't any builds yet"@
}

/// The page title: the user's name possessive.
pub open spec fn meta_title(v: UserPageView) -> Seq<char> {
    v.name + "'s builds"@
}

/// The page description: one line per paste for the first three pastes,
/// then a count of the rest; a single placeholder line when there are none.
pub open spec fn meta_description(v: UserPageView) -> Seq<char> {
    let p = v.pastes;
    let nl = "\n"@;
    if p.len() == 0 {
        no_builds_line()
    } else if p.len() == 1 {
        summary_line(p[0].title)
    } else if p.len() == 2 {
        summary_line(p[0].title) + nl + summary_line(p[1].title)
    } else if p.len() == 3 {
        summary_line(p[0].title) + nl + summary_line(p[1].title) + nl + summary_line(p[2].title)
    } else {
        summary_line(p[0].title) + nl + summary_line(p[1].title) + nl + summary_line(p[2].title)
            + nl + more_line(p.len() - 3)
    }
}

impl UserPage {
    /// Derives the page metadata: pure, no I/O. The share image is the
    /// site's logo asset.
    pub fn meta(&self) -> (r: Meta)
        ensures
            r.title@ == meta_title(self@),
            r.description@ == meta_description(self@),
            r.image@ == "/assets/logo.png"@,
            r.color@.len() == 0,
            r.preload@.len() == 0,
            r.prefetch@.len() == 0,
    {
        let mut t = str_chars(self.name.as_str());
        push_str_chars(&mut t, "'s builds");
        proof {
            assert(t@ =~= meta_title(self@));
        }
        let mut d: Vec<char> = Vec::new();
        if self.pastes.len() == 0 {
            push_str_chars(&mut d, "\u{27A4} there aren't any builds yet");
            proof {
                assert(d@ =~= meta_description(self@));
            }
        } else {
            push_str_chars(&mut d, "\u{27A4} ");
            push_str_chars(&mut d, self.pastes[0].title.as_str());
            if self.pastes.len() >= 2 {
                push_str_chars(&mut d, "\n");
                push_str_chars(&mut d, "\u{27A4} ");
                push_str_chars(&mut d, self.pastes[1].title.as_str());
            }
            if self.pastes.len() >= 3 {
                push_str_chars(&mut d, "\n");
                push_str_chars(&mut d, "\u{27A4} ");
                push_str_chars(&mut d, self.pastes[2].title.as_str());
            }
            if self.pastes.len() > 3 {
                push_str_chars(&mut d, "\n");
                push_str_chars(&mut d, "\u{27A4} .. ");
                let n = u64_dec_chars((self.pastes.len() - 3) as u64);
                crate::text::push_chars(&mut d, &n);
                push_str_chars(&mut d, " more builds");
            }
            proof {
                assert(d@ =~= meta_description(self@));
            }
        }
        Meta {
            title: chars_string(&t),
            description: chars_string(&d),
            image: <String as vstd::string::StringExecFns>::from_str("/assets/logo.png"),
            color: String::new(),
            preload: Vec::new(),
            prefetch: Vec::new(),
        }
    }
}

/// Loading from the same context and arguments twice yields equal page
/// data: the server-context constructor is a function of its inputs.
pub proof fn lemma_from_server_context_idempotent(
    name: Seq<char>,
    preloaded: Option<Seq<SummaryView>>,
    v1: UserPageView,
    v2: UserPageView,
)
    requires
        server_context_spec(name, preloaded) == Some(v1),
        server_context_spec(name, preloaded) == Some(v2),
    ensures
        v1 == v2,
{
}

} // verus!
