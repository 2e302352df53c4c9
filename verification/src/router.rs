//! Request classification: one total, deterministic function from
//! `(method, path)` to a [`Route`].
//!
//! Classification order for `GET` is load-bearing and fixed: the asset
//! predicate first, then the application route table, then the per-method
//! endpoint table, then not-found. Within a table, patterns are tried in
//! declaration order and the first structural match wins; captures are typed
//! and a capture that fails to parse fails the whole pattern, falling
//! through to the next one.
//!
//! The asset predicate itself is an external collaborator (it depends on the
//! asset manifest); the caller evaluates it and passes the result in.

use vstd::prelude::*;

use crate::id::{parse_id_spec, valid_id, valid_id_chars, PasteId, PasteIdView};
use crate::text::{char_index, chars_eq_str, chars_string, lemma_char_index_is, str_chars};

verus! {

/// The HTTP methods the tables distinguish; every other verb classifies as
/// not-found.
#[derive(Clone, Copy, PartialEq, Eq, Structural)]
pub enum Method {
    Get,
    Post,
    Delete,
    Other,
}

/// An application page plus its typed arguments, or the not-found sentinel.
pub enum AppRoute {
    Index,
    User(String),
    UserPaste(String, String),
    Paste(String),
    NotFound,
}

/// The mathematical value of an [`AppRoute`].
pub enum AppRouteView {
    Index,
    User(Seq<char>),
    UserPaste(Seq<char>, Seq<char>),
    Paste(Seq<char>),
    NotFound,
}

impl View for AppRoute {
    type V = AppRouteView;

    open spec fn view(&self) -> AppRouteView {
        match self {
            AppRoute::Index => AppRouteView::Index,
            AppRoute::User(n) => AppRouteView::User(n@),
            AppRoute::UserPaste(n, i) => AppRouteView::UserPaste(n@, i@),
            AppRoute::Paste(i) => AppRouteView::Paste(i@),
            AppRoute::NotFound => AppRouteView::NotFound,
        }
    }
}

/// A `GET` endpoint, or the not-found sentinel.
pub enum GetEndpoints {
    Oembed,
    User(String),
    Paste(String),
    UserPaste(String, String),
    PasteJson(String),
    UserPasteJson(String, String),
    PobPaste(PasteId),
    PobUserPaste(String, String),
    Login,
    Oauht2Poe,
    NotFound,
}

/// The mathematical value of a [`GetEndpoints`].
pub enum GetEndpointsView {
    Oembed,
    User(Seq<char>),
    Paste(Seq<char>),
    UserPaste(Seq<char>, Seq<char>),
    PasteJson(Seq<char>),
    UserPasteJson(Seq<char>, Seq<char>),
    PobPaste(PasteIdView),
    PobUserPaste(Seq<char>, Seq<char>),
    Login,
    Oauht2Poe,
    NotFound,
}

impl View for GetEndpoints {
    type V = GetEndpointsView;

    open spec fn view(&self) -> GetEndpointsView {
        match self {
            GetEndpoints::Oembed => GetEndpointsView::Oembed,
            GetEndpoints::User(u) => GetEndpointsView::User(u@),
            GetEndpoints::Paste(i) => GetEndpointsView::Paste(i@),
            GetEndpoints::UserPaste(n, i) => GetEndpointsView::UserPaste(n@, i@),
            GetEndpoints::PasteJson(i) => GetEndpointsView::PasteJson(i@),
            GetEndpoints::UserPasteJson(n, i) => GetEndpointsView::UserPasteJson(n@, i@),
            GetEndpoints::PobPaste(p) => GetEndpointsView::PobPaste(p@),
            GetEndpoints::PobUserPaste(n, i) => GetEndpointsView::PobUserPaste(n@, i@),
            GetEndpoints::Login => GetEndpointsView::Login,
            GetEndpoints::Oauht2Poe => GetEndpointsView::Oauht2Poe,
            GetEndpoints::NotFound => GetEndpointsView::NotFound,
        }
    }
}

/// A `POST` endpoint, or the not-found sentinel. Carries no captures, so it
/// serves as its own mathematical value.
#[derive(Clone, Copy, PartialEq, Eq, Structural)]
pub enum PostEndpoints {
    Upload,
    PobUpload,
    NotFound,
}

/// A `DELETE` endpoint, or the not-found sentinel.
pub enum DeleteEndpoints {
    DeletePaste(PasteId),
    NotFound,
}

/// The mathematical value of a [`DeleteEndpoints`].
pub enum DeleteEndpointsView {
    DeletePaste(PasteIdView),
    NotFound,
}

impl View for DeleteEndpoints {
    type V = DeleteEndpointsView;

    open spec fn view(&self) -> DeleteEndpointsView {
        match self {
            DeleteEndpoints::DeletePaste(p) => DeleteEndpointsView::DeletePaste(p@),
            DeleteEndpoints::NotFound => DeleteEndpointsView::NotFound,
        }
    }
}

/// An internal API call: one endpoint of the table of the request's method.
pub enum Api {
    Get(GetEndpoints),
    Post(PostEndpoints),
    Delete(DeleteEndpoints),
}

/// The mathematical value of an [`Api`].
pub enum ApiView {
    Get(GetEndpointsView),
    Post(PostEndpoints),
    Delete(DeleteEndpointsView),
}

impl View for Api {
    type V = ApiView;

    open spec fn view(&self) -> ApiView {
        match self {
            Api::Get(g) => ApiView::Get(g@),
            Api::Post(p) => ApiView::Post(*p),
            Api::Delete(d) => ApiView::Delete(d@),
        }
    }
}

/// Exactly one handling mode per inbound request.
pub enum Route {
    App(AppRoute),
    Api(Api),
    Asset,
    NotFound,
}

/// The mathematical value of a [`Route`].
pub enum RouteView {
    App(AppRouteView),
    Api(ApiView),
    Asset,
    NotFound,
}

impl View for Route {
    type V = RouteView;

    open spec fn view(&self) -> RouteView {
        match self {
            Route::App(a) => RouteView::App(a@),
            Route::Api(a) => RouteView::Api(a@),
            Route::Asset => RouteView::Asset,
            Route::NotFound => RouteView::NotFound,
        }
    }
}

/// The views of a list of segments.
pub open spec fn seg_views(segs: Seq<Vec<char>>) -> Seq<Seq<char>> {
    segs.map_values(|v: Vec<char>| v@)
}

/// The non-empty `/`-separated segments of a path, in order. Empty segments
/// (leading, trailing or repeated slashes) are dropped, so `/a//b/` has the
/// segments `a`, `b`.
pub open spec fn segments_of(s: Seq<char>) -> Seq<Seq<char>>
    decreases s.len(),
    via segments_of_decreases
{
    if s.len() == 0 {
        seq![]
    } else if s[0] == '/' {
        segments_of(s.drop_first())
    } else {
        let k = char_index(s, '/');
        seq![s.take(k)] + segments_of(s.skip(k))
    }
}

#[via_fn]
proof fn segments_of_decreases(s: Seq<char>) {
    if s.len() > 0 && s[0] != '/' {
        crate::text::lemma_char_index(s, '/');
        assert(char_index(s, '/') >= 1) by {
            if char_index(s, '/') == 0 {
                assert(s[0] == '/');
            }
        }
    }
}

/// The application route table, tried in declaration order: the index page
/// `/`, a user's listing `/u/<name>`, a single user paste `/u/<name>/<id>`,
/// and an anonymous paste `/<id>`. All captures must be valid identifiers.
pub open spec fn match_app_spec(segs: Seq<Seq<char>>) -> AppRouteView {
    if segs.len() == 0 {
        AppRouteView::Index
    } else if segs.len() == 2 && segs[0] == "u"@ && valid_id_chars(segs[1]) {
        AppRouteView::User(segs[1])
    } else if segs.len() == 3 && segs[0] == "u"@ && valid_id_chars(segs[1]) && valid_id_chars(
        segs[2],
    ) {
        AppRouteView::UserPaste(segs[1], segs[2])
    } else if segs.len() == 1 && valid_id_chars(segs[0]) {
        AppRouteView::Paste(segs[0])
    } else {
        AppRouteView::NotFound
    }
}

/// The `GET` endpoint table, tried in declaration order.
pub open spec fn match_get_spec(segs: Seq<Seq<char>>) -> GetEndpointsView {
    if segs.len() == 1 && segs[0] == "oembed.json"@ {
        GetEndpointsView::Oembed
    } else if segs.len() == 4 && segs[0] == "api"@ && segs[1] == "internal"@ && segs[2]
        == "user"@ {
        GetEndpointsView::User(segs[3])
    } else if segs.len() == 2 && segs[1] == "raw"@ {
        GetEndpointsView::Paste(segs[0])
    } else if segs.len() == 4 && segs[0] == "u"@ && segs[3] == "raw"@ {
        GetEndpointsView::UserPaste(segs[1], segs[2])
    } else if segs.len() == 2 && segs[1] == "json"@ {
        GetEndpointsView::PasteJson(segs[0])
    } else if segs.len() == 4 && segs[0] == "u"@ && segs[3] == "json"@ {
        GetEndpointsView::UserPasteJson(segs[1], segs[2])
    } else if segs.len() == 2 && segs[0] == "pob"@ && parse_id_spec(segs[1]) is Some {
        GetEndpointsView::PobPaste(parse_id_spec(segs[1]).unwrap())
    } else if segs.len() == 4 && segs[0] == "pob"@ && segs[1] == "u"@ {
        GetEndpointsView::PobUserPaste(segs[2], segs[3])
    } else if segs.len() == 1 && segs[0] == "login"@ {
        GetEndpointsView::Login
    } else if segs.len() == 3 && segs[0] == "oauth2"@ && segs[1] == "authorization"@ && segs[2]
        == "poe"@ {
        GetEndpointsView::Oauht2Poe
    } else {
        GetEndpointsView::NotFound
    }
}

/// The `POST` endpoint table: paste upload and the external-protocol upload.
pub open spec fn match_post_spec(segs: Seq<Seq<char>>) -> PostEndpoints {
    if segs.len() == 3 && segs[0] == "api"@ && segs[1] == "internal"@ && segs[2] == "paste"@ {
        PostEndpoints::Upload
    } else if segs.len() == 1 && segs[0] == "pob"@ {
        PostEndpoints::PobUpload
    } else {
        PostEndpoints::NotFound
    }
}

/// The `DELETE` endpoint table: paste deletion, with a typed identifier
/// capture.
pub open spec fn match_delete_spec(segs: Seq<Seq<char>>) -> DeleteEndpointsView {
    if segs.len() == 4 && segs[0] == "api"@ && segs[1] == "internal"@ && segs[2] == "paste"@
        && parse_id_spec(segs[3]) is Some {
        DeleteEndpointsView::DeletePaste(parse_id_spec(segs[3]).unwrap())
    } else {
        DeleteEndpointsView::NotFound
    }
}

/// What `(method, path, is_asset)` classifies to, in the fixed order: asset
/// check (GET only), application route table (GET only), the method's
/// endpoint table, not-found.
pub open spec fn classify_spec(method: Method, path: Seq<char>, is_asset: bool) -> RouteView {
    let segs = segments_of(path);
    if method == Method::Get && is_asset {
        RouteView::Asset
    } else if method == Method::Get && !(match_app_spec(segs) is NotFound) {
        RouteView::App(match_app_spec(segs))
    } else {
        match method {
            Method::Get => if !(match_get_spec(segs) is NotFound) {
                RouteView::Api(ApiView::Get(match_get_spec(segs)))
            } else {
                RouteView::NotFound
            },
            Method::Post => if !(match_post_spec(segs) is NotFound) {
                RouteView::Api(ApiView::Post(match_post_spec(segs)))
            } else {
                RouteView::NotFound
            },
            Method::Delete => if !(match_delete_spec(segs) is NotFound) {
                RouteView::Api(ApiView::Delete(match_delete_spec(segs)))
            } else {
                RouteView::NotFound
            },
            Method::Other => RouteView::NotFound,
        }
    }
}

/// Asset precedence: on a `GET` request the asset predicate is consulted
/// before any table, so a path it accepts is always classified as an asset,
/// whatever routes it would also match.
pub proof fn lemma_asset_precedes_routes(path: Seq<char>)
    ensures
        classify_spec(Method::Get, path, true) is Asset,
{
}

/// Application precedence: a `GET` path (not claimed by the asset predicate)
/// that the application table matches is classified as that application
/// route, never as an API call, whatever the `GET` endpoint table would say.
pub proof fn lemma_application_precedes_api(path: Seq<char>)
    requires
        !(match_app_spec(segments_of(path)) is NotFound),
    ensures
        classify_spec(Method::Get, path, false) == RouteView::App(
            match_app_spec(segments_of(path)),
        ),
{
}

/// Classification is deterministic: any two results obtained for the same
/// method, path and asset-predicate value are equal. (It is also total: the
/// classifier has no precondition and [`classify_spec`] is defined on every
/// input.)
pub proof fn lemma_classify_deterministic(
    method: Method,
    path: Seq<char>,
    is_asset: bool,
    r1: RouteView,
    r2: RouteView,
)
    requires
        r1 == classify_spec(method, path, is_asset),
        r2 == classify_spec(method, path, is_asset),
    ensures
        r1 == r2,
{
}

/// Splits a path into its non-empty segments.
fn split_segments(path: &Vec<char>) -> (r: Vec<Vec<char>>)
    ensures
        seg_views(r@) == segments_of(path@),
{
    let ghost p = path@;
    let mut r: Vec<Vec<char>> = Vec::new();
    let mut i: usize = 0;
    proof {
        assert(p.skip(0) =~= p);
        assert(seg_views(r@) + segments_of(p) =~~= segments_of(p));
    }
    while i < path.len()
        invariant
            0 <= i <= p.len(),
            path@ == p,
            seg_views(r@) + segments_of(p.skip(i as int)) =~~= segments_of(p),
        decreases p.len() - i,
    {
        if path[i] == '/' {
            proof {
                assert(p.skip(i as int).drop_first() =~= p.skip(i as int + 1));
            }
            i = i + 1;
        } else {
            let start = i;
            let mut j = i;
            while j < path.len() && path[j] != '/'
                invariant
                    0 <= start <= j <= p.len(),
                    path@ == p,
                    forall|k: int| start <= k < j ==> p[k] != '/',
                decreases p.len() - j,
            {
                j = j + 1;
            }
            let mut word: Vec<char> = Vec::new();
            let mut k = start;
            while k < j
                invariant
                    start <= k <= j <= p.len(),
                    path@ == p,
                    word@ == p.subrange(start as int, k as int),
                decreases j - k,
            {
                word.push(path[k]);
                proof {
                    assert(word@ =~= p.subrange(start as int, k as int + 1));
                }
                k = k + 1;
            }
            let ghost old_r = r@;
            r.push(word);
            proof {
                let suf = p.skip(start as int);
                assert forall|m: int| 0 <= m < j - start implies suf[m] != '/' by {
                    assert(suf[m] == p[start + m]);
                }
                lemma_char_index_is(suf, '/', j - start);
                assert(suf.take(j - start) =~= p.subrange(start as int, j as int));
                assert(suf.skip(j - start) =~= p.skip(j as int));
                assert(segments_of(suf) =~~= seq![word@] + segments_of(p.skip(j as int)));
                assert(seg_views(r@) =~~= seg_views(old_r) + seq![word@]);
                assert(seg_views(r@) + segments_of(p.skip(j as int)) =~~= segments_of(p));
            }
            i = j;
        }
    }
    proof {
        assert(p.skip(p.len() as int) =~= Seq::<char>::empty());
        assert(seg_views(r@) =~~= segments_of(p));
    }
    r
}

/// Matches the application route table.
fn match_app(segs: &Vec<Vec<char>>) -> (r: AppRoute)
    ensures
        r@ == match_app_spec(seg_views(segs@)),
{
    if segs.len() == 0 {
        return AppRoute::Index;
    }
    if segs.len() == 2 && chars_eq_str(&segs[0], "u") && valid_id(&segs[1]) {
        return AppRoute::User(chars_string(&segs[1]));
    }
    if segs.len() == 3 && chars_eq_str(&segs[0], "u") && valid_id(&segs[1]) && valid_id(&segs[2]) {
        return AppRoute::UserPaste(chars_string(&segs[1]), chars_string(&segs[2]));
    }
    if segs.len() == 1 && valid_id(&segs[0]) {
        return AppRoute::Paste(chars_string(&segs[0]));
    }
    AppRoute::NotFound
}

/// Matches the `GET` endpoint table.
fn match_get(segs: &Vec<Vec<char>>) -> (r: GetEndpoints)
    ensures
        r@ == match_get_spec(seg_views(segs@)),
{
    if segs.len() == 1 && chars_eq_str(&segs[0], "oembed.json") {
        return GetEndpoints::Oembed;
    }
    if segs.len() == 4 && chars_eq_str(&segs[0], "api") && chars_eq_str(&segs[1], "internal")
        && chars_eq_str(&segs[2], "user") {
        return GetEndpoints::User(chars_string(&segs[3]));
    }
    if segs.len() == 2 && chars_eq_str(&segs[1], "raw") {
        return GetEndpoints::Paste(chars_string(&segs[0]));
    }
    if segs.len() == 4 && chars_eq_str(&segs[0], "u") && chars_eq_str(&segs[3], "raw") {
        return GetEndpoints::UserPaste(chars_string(&segs[1]), chars_string(&segs[2]));
    }
    if segs.len() == 2 && chars_eq_str(&segs[1], "json") {
        return GetEndpoints::PasteJson(chars_string(&segs[0]));
    }
    if segs.len() == 4 && chars_eq_str(&segs[0], "u") && chars_eq_str(&segs[3], "json") {
        return GetEndpoints::UserPasteJson(chars_string(&segs[1]), chars_string(&segs[2]));
    }
    if segs.len() == 2 && chars_eq_str(&segs[0], "pob") {
        if let Some(id) = PasteId::parse(&segs[1]) {
            return GetEndpoints::PobPaste(id);
        }
    }
    if segs.len() == 4 && chars_eq_str(&segs[0], "pob") && chars_eq_str(&segs[1], "u") {
        return GetEndpoints::PobUserPaste(chars_string(&segs[2]), chars_string(&segs[3]));
    }
    if segs.len() == 1 && chars_eq_str(&segs[0], "login") {
        return GetEndpoints::Login;
    }
    if segs.len() == 3 && chars_eq_str(&segs[0], "oauth2") && chars_eq_str(
        &segs[1],
        "authorization",
    ) && chars_eq_str(&segs[2], "poe") {
        return GetEndpoints::Oauht2Poe;
    }
    GetEndpoints::NotFound
}

/// Matches the `POST` endpoint table.
fn match_post(segs: &Vec<Vec<char>>) -> (r: PostEndpoints)
    ensures
        r == match_post_spec(seg_views(segs@)),
{
    if segs.len() == 3 && chars_eq_str(&segs[0], "api") && chars_eq_str(&segs[1], "internal")
        && chars_eq_str(&segs[2], "paste") {
        return PostEndpoints::Upload;
    }
    if segs.len() == 1 && chars_eq_str(&segs[0], "pob") {
        return PostEndpoints::PobUpload;
    }
    PostEndpoints::NotFound
}

/// Matches the `DELETE` endpoint table.
fn match_delete(segs: &Vec<Vec<char>>) -> (r: DeleteEndpoints)
    ensures
        r@ == match_delete_spec(seg_views(segs@)),
{
    if segs.len() == 4 && chars_eq_str(&segs[0], "api") && chars_eq_str(&segs[1], "internal")
        && chars_eq_str(&segs[2], "paste") {
        if let Some(id) = PasteId::parse(&segs[3]) {
            return DeleteEndpoints::DeletePaste(id);
        }
    }
    DeleteEndpoints::NotFound
}

impl Route {
    /// Classifies an inbound request. Total over every method, path and
    /// asset-predicate value, and deterministic: the result is a function of
    /// exactly these three inputs.
    pub fn new(method: Method, path: &str, is_asset: bool) -> (r: Route)
        ensures
            r@ == classify_spec(method, path@, is_asset),
    {
        let chars = str_chars(path);
        let segs = split_segments(&chars);
        if method == Method::Get {
            if is_asset {
                return Route::Asset;
            }
            let app = match_app(&segs);
            if !matches!(app, AppRoute::NotFound) {
                return Route::App(app);
            }
        }
        match method {
            Method::Get => {
                let e = match_get(&segs);
                if !matches!(e, GetEndpoints::NotFound) {
                    return Route::Api(Api::Get(e));
                }
            },
            Method::Post => {
                let e = match_post(&segs);
                if !matches!(e, PostEndpoints::NotFound) {
                    return Route::Api(Api::Post(e));
                }
            },
            Method::Delete => {
                let e = match_delete(&segs);
                if !matches!(e, DeleteEndpoints::NotFound) {
                    return Route::Api(Api::Delete(e));
                }
            },
            Method::Other => {},
        }
        Route::NotFound
    }
}

} // verus!
