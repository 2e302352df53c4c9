use pastesite::id::PasteId;
use pastesite::router::{Api, AppRoute, DeleteEndpoints, GetEndpoints, Method, PostEndpoints, Route};

#[test]
fn classify_internal_user_endpoint() {
    // Four segments match no application route, so the GET endpoint table wins.
    let r = Route::new(Method::Get, "/api/internal/user/foo", false);
    assert!(matches!(
        r,
        Route::Api(Api::Get(GetEndpoints::User(ref u))) if u == "foo"
    ));
}

#[test]
fn classify_delete_paste() {
    let r = Route::new(Method::Delete, "/api/internal/paste/abc123", false);
    assert!(matches!(
        r,
        Route::Api(Api::Delete(DeleteEndpoints::DeletePaste(PasteId::Paste(ref id)))) if id == "abc123"
    ));
}

#[test]
fn classify_unknown_path_not_found() {
    let r = Route::new(Method::Get, "/some/unknown/path", false);
    assert!(matches!(r, Route::NotFound));
}

#[test]
fn classify_is_total_and_deterministic() {
    let paths = [
        "", "/", "/login", "/abc", "/u/foo", "/u/foo/bar", "/pob/", "/x/y/z/w/v",
        "/api/internal/paste/", "///", "/oembed.json", "/pob/a:b",
    ];
    let methods = [Method::Get, Method::Post, Method::Delete, Method::Other];
    for path in paths {
        for method in methods {
            for asset in [false, true] {
                // Total: every combination yields a route without panicking.
                let a = Route::new(method, path, asset);
                // Deterministic: a second call agrees with the first.
                let b = Route::new(method, path, asset);
                assert_eq!(route_shape(&a), route_shape(&b));
            }
        }
    }
}

/// A comparable rendering of a route for the determinism check.
fn route_shape(r: &Route) -> String {
    match r {
        Route::App(AppRoute::Index) => format!("app index"),
        Route::App(AppRoute::User(u)) => format!("app user {u}"),
        Route::App(AppRoute::UserPaste(u, i)) => format!("app userpaste {u} {i}"),
        Route::App(AppRoute::Paste(i)) => format!("app paste {i}"),
        Route::App(AppRoute::NotFound) => format!("app notfound"),
        Route::Api(_) => format!("api"),
        Route::Asset => format!("asset"),
        Route::NotFound => format!("notfound"),
    }
}

#[test]
fn asset_check_precedes_application_routes() {
    // "/u/foo" matches the application table, but the asset predicate wins.
    let r = Route::new(Method::Get, "/u/foo", true);
    assert!(matches!(r, Route::Asset));
    // Assets are only reachable via GET.
    let r = Route::new(Method::Post, "/pob/", true);
    assert!(matches!(r, Route::Api(Api::Post(PostEndpoints::PobUpload))));
}

#[test]
fn application_routes_precede_get_endpoints() {
    // "/login" is both an application paste route (one valid identifier
    // segment) and a GET endpoint; application matching comes first.
    let r = Route::new(Method::Get, "/login", false);
    assert!(matches!(r, Route::App(AppRoute::Paste(ref id)) if id == "login"));
}

#[test]
fn classify_application_routes() {
    assert!(matches!(Route::new(Method::Get, "/", false), Route::App(AppRoute::Index)));
    assert!(matches!(
        Route::new(Method::Get, "/u/someone", false),
        Route::App(AppRoute::User(ref u)) if u == "someone"
    ));
    assert!(matches!(
        Route::new(Method::Get, "/u/someone/abc", false),
        Route::App(AppRoute::UserPaste(ref u, ref i)) if u == "someone" && i == "abc"
    ));
    assert!(matches!(
        Route::new(Method::Get, "/xyz_123", false),
        Route::App(AppRoute::Paste(ref i)) if i == "xyz_123"
    ));
}

#[test]
fn classify_get_endpoints() {
    // "oembed.json" holds a dot, so it is no valid paste identifier and
    // falls through the application table to the endpoint table.
    assert!(matches!(
        Route::new(Method::Get, "/oembed.json", false),
        Route::Api(Api::Get(GetEndpoints::Oembed))
    ));
    assert!(matches!(
        Route::new(Method::Get, "/abc/raw", false),
        Route::Api(Api::Get(GetEndpoints::Paste(ref i))) if i == "abc"
    ));
    assert!(matches!(
        Route::new(Method::Get, "/u/someone/abc/raw", false),
        Route::Api(Api::Get(GetEndpoints::UserPaste(ref u, ref i))) if u == "someone" && i == "abc"
    ));
    assert!(matches!(
        Route::new(Method::Get, "/abc/json", false),
        Route::Api(Api::Get(GetEndpoints::PasteJson(ref i))) if i == "abc"
    ));
    assert!(matches!(
        Route::new(Method::Get, "/u/someone/abc/json", false),
        Route::Api(Api::Get(GetEndpoints::UserPasteJson(ref u, ref i))) if u == "someone" && i == "abc"
    ));
    assert!(matches!(
        Route::new(Method::Get, "/oauth2/authorization/poe", false),
        Route::Api(Api::Get(GetEndpoints::Oauht2Poe))
    ));
}

#[test]
fn classify_pob_import_endpoints() {
    assert!(matches!(
        Route::new(Method::Get, "/pob/abc123", false),
        Route::Api(Api::Get(GetEndpoints::PobPaste(PasteId::Paste(ref i)))) if i == "abc123"
    ));
    assert!(matches!(
        Route::new(Method::Get, "/pob/someone:abc", false),
        Route::Api(Api::Get(GetEndpoints::PobPaste(PasteId::UserPaste(ref u, ref i))))
            if u == "someone" && i == "abc"
    ));
    assert!(matches!(
        Route::new(Method::Get, "/pob/u/someone/abc", false),
        Route::Api(Api::Get(GetEndpoints::PobUserPaste(ref u, ref i)))
            if u == "someone" && i == "abc"
    ));
    // A capture that fails to parse as an identifier fails the pattern.
    assert!(matches!(Route::new(Method::Get, "/pob/a:b:c", false), Route::NotFound));
    assert!(matches!(Route::new(Method::Get, "/pob/:abc", false), Route::NotFound));
}

#[test]
fn classify_post_endpoints() {
    assert!(matches!(
        Route::new(Method::Post, "/api/internal/paste/", false),
        Route::Api(Api::Post(PostEndpoints::Upload))
    ));
    assert!(matches!(
        Route::new(Method::Post, "/pob/", false),
        Route::Api(Api::Post(PostEndpoints::PobUpload))
    ));
    assert!(matches!(Route::new(Method::Post, "/login", false), Route::NotFound));
}

#[test]
fn classify_other_method_not_found() {
    assert!(matches!(Route::new(Method::Other, "/u/foo", false), Route::NotFound));
    assert!(matches!(Route::new(Method::Other, "/u/foo", true), Route::NotFound));
}

#[test]
fn trailing_and_repeated_slashes_are_ignored() {
    assert!(matches!(
        Route::new(Method::Delete, "/api/internal/paste/abc123/", false),
        Route::Api(Api::Delete(DeleteEndpoints::DeletePaste(PasteId::Paste(ref i)))) if i == "abc123"
    ));
    assert!(matches!(
        Route::new(Method::Get, "//u//foo", false),
        Route::App(AppRoute::User(ref u)) if u == "foo"
    ));
}

#[test]
fn paste_id_wire_form_round_trips() {
    let id = PasteId::UserPaste("someone".to_string(), "abc123".to_string());
    let seg: Vec<char> = id.render().chars().collect();
    assert!(matches!(
        PasteId::parse(&seg),
        Some(PasteId::UserPaste(ref u, ref i)) if u == "someone" && i == "abc123"
    ));
    assert_eq!(id.to_json_url(), "/u/someone/abc123/json");
    assert_eq!(id.to_delete_url(), "/api/internal/paste/someone:abc123");
    let anon = PasteId::Paste("abc123".to_string());
    assert_eq!(anon.render(), "abc123");
    assert_eq!(anon.to_json_url(), "/abc123/json");
    assert_eq!(anon.to_delete_url(), "/api/internal/paste/abc123");
}

#[test]
fn computed_urls_resolve_through_the_router() {
    let anon = PasteId::Paste("abc123".to_string());
    assert!(matches!(
        Route::new(Method::Get, &anon.to_json_url(), false),
        Route::Api(Api::Get(GetEndpoints::PasteJson(ref i))) if i == "abc123"
    ));
    let id = PasteId::UserPaste("someone".to_string(), "abc123".to_string());
    assert!(matches!(
        Route::new(Method::Get, &id.to_json_url(), false),
        Route::Api(Api::Get(GetEndpoints::UserPasteJson(ref u, ref i)))
            if u == "someone" && i == "abc123"
    ));
    assert!(matches!(
        Route::new(Method::Delete, &id.to_delete_url(), false),
        Route::Api(Api::Delete(DeleteEndpoints::DeletePaste(PasteId::UserPaste(ref u, ref i))))
            if u == "someone" && i == "abc123"
    ));
}

#[test]
fn paste_id_parse_validates_segments() {
    let seg: Vec<char> = "abc-123_X".chars().collect();
    assert!(matches!(
        PasteId::parse(&seg),
        Some(PasteId::Paste(ref i)) if i == "abc-123_X"
    ));
    let seg: Vec<char> = "user:abc".chars().collect();
    assert!(matches!(
        PasteId::parse(&seg),
        Some(PasteId::UserPaste(ref u, ref i)) if u == "user" && i == "abc"
    ));
    let empty: Vec<char> = Vec::new();
    assert!(PasteId::parse(&empty).is_none());
    let bad: Vec<char> = "a b".chars().collect();
    assert!(PasteId::parse(&bad).is_none());
    let bad: Vec<char> = "user:".chars().collect();
    assert!(PasteId::parse(&bad).is_none());
    let bad: Vec<char> = ":abc".chars().collect();
    assert!(PasteId::parse(&bad).is_none());
}
