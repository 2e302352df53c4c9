use pastesite::api::{CreatePaste, Error, ErrorResponse};
use pastesite::id::PasteId;
use pastesite::codec::encode;
use pastesite::model::{Context, PasteSummary, UserPage};
use pastesite::page::FetchReply;

fn summary(id: &str, title: &str) -> PasteSummary {
    PasteSummary {
        id: id.to_string(),
        user: Some("someone".to_string()),
        title: title.to_string(),
        ascendancy_or_class: "Trickster".to_string(),
        version: "3.23".to_string(),
        main_skill_name: "Lightning Arrow".to_string(),
        last_modified: 42,
    }
}

#[test]
fn server_context_loads_preloaded_pastes() {
    let ctx = Context { user_pastes: Some(vec![summary("a", "one"), summary("b", "two")]) };
    let page = UserPage::from_server_context("someone".to_string(), &ctx).unwrap();
    assert_eq!(page.name, "someone");
    assert_eq!(page.pastes.len(), 2);
    assert_eq!(page.pastes[0].id, "a");
    assert_eq!(page.pastes[1].title, "two");
}

#[test]
fn server_context_is_idempotent() {
    // The same context and arguments yield equal page data both times.
    let ctx = Context { user_pastes: Some(vec![summary("a", "one")]) };
    let p1 = UserPage::from_server_context("someone".to_string(), &ctx).unwrap();
    let p2 = UserPage::from_server_context("someone".to_string(), &ctx).unwrap();
    assert_eq!(p1.name, p2.name);
    assert_eq!(p1.pastes.len(), p2.pastes.len());
    for (x, y) in p1.pastes.iter().zip(p2.pastes.iter()) {
        assert_eq!(x.id, y.id);
        assert_eq!(x.title, y.title);
        assert_eq!(x.last_modified, y.last_modified);
    }
}

#[test]
fn server_context_missing_preload_fails() {
    let ctx = Context { user_pastes: None };
    let r = UserPage::from_server_context("someone".to_string(), &ctx);
    assert!(matches!(r, Err(Error::PreloadMissing)));
}

#[test]
fn hydration_restores_embedded_page() {
    let page = UserPage { name: "someone".to_string(), pastes: vec![summary("a", "one")] };
    let payload = encode(&page);
    let back = UserPage::from_hydration("someone".to_string(), Some(&payload)).unwrap();
    assert_eq!(back.name, "someone");
    assert_eq!(back.pastes.len(), 1);
    assert_eq!(back.pastes[0].title, "one");
}

#[test]
fn hydration_of_empty_listing_is_empty_not_an_error() {
    // A payload that encodes zero pastes hydrates into the "nothing here"
    // state: success with an empty listing, never an error and never a
    // listing mistaken for still-loading.
    let page = UserPage { name: "someone".to_string(), pastes: Vec::new() };
    let payload = encode(&page);
    assert!(!payload.is_empty());
    let back = UserPage::from_hydration("someone".to_string(), Some(&payload)).unwrap();
    assert!(back.is_empty());
}

#[test]
fn hydration_missing_payload_is_fatal() {
    let r = UserPage::from_hydration("someone".to_string(), None);
    assert!(matches!(r, Err(Error::HydrationDecodeFailure)));
}

#[test]
fn hydration_malformed_payload_is_fatal() {
    let r = UserPage::from_hydration("someone".to_string(), Some("definitely not a payload"));
    assert!(matches!(r, Err(Error::HydrationDecodeFailure)));
    let r = UserPage::from_hydration("someone".to_string(), Some(""));
    assert!(matches!(r, Err(Error::HydrationDecodeFailure)));
}

#[test]
fn hydration_payload_for_another_user_is_fatal() {
    let page = UserPage { name: "someone".to_string(), pastes: Vec::new() };
    let payload = encode(&page);
    let r = UserPage::from_hydration("someoneelse".to_string(), Some(&payload));
    assert!(matches!(r, Err(Error::HydrationDecodeFailure)));
}

fn reply(status: u16, text: &str) -> FetchReply {
    FetchReply {
        status,
        status_text: text.to_string(),
        error_body: None,
        pastes: None,
    }
}

#[test]
fn dynamic_missing_user_is_resource_not_found() {
    let r = UserPage::from_dynamic("ghost".to_string(), reply(404, "Not Found"));
    assert!(matches!(
        r,
        Err(Error::ResourceNotFound(kind, ref id)) if kind == "user" && id == "ghost"
    ));
}

#[test]
fn dynamic_success_builds_page() {
    let mut rep = reply(200, "OK");
    rep.pastes = Some(vec![summary("a", "one")]);
    let page = UserPage::from_dynamic("someone".to_string(), rep).unwrap();
    assert_eq!(page.name, "someone");
    assert_eq!(page.pastes.len(), 1);
}

#[test]
fn dynamic_error_body_surfaces_verbatim() {
    let mut rep = reply(422, "Unprocessable Entity");
    rep.error_body = Some(ErrorResponse { code: 1042, message: "paste too large".to_string() });
    let r = UserPage::from_dynamic("someone".to_string(), rep);
    assert!(matches!(
        r,
        Err(Error::ApiError(code, ref msg)) if code == 1042 && msg == "paste too large"
    ));
}

#[test]
fn dynamic_unrecognized_failure_is_unhandled_status() {
    let r = UserPage::from_dynamic("someone".to_string(), reply(502, "Bad Gateway"));
    assert!(matches!(
        r,
        Err(Error::UnhandledStatus(status, ref text)) if status == 502 && text == "Bad Gateway"
    ));
}

#[test]
fn dynamic_success_without_parsable_body_is_unhandled() {
    let r = UserPage::from_dynamic("someone".to_string(), reply(204, "No Content"));
    assert!(matches!(
        r,
        Err(Error::UnhandledStatus(status, ref text)) if status == 204 && text == "No Content"
    ));
}

#[test]
fn map_error_response_prefers_the_error_shape() {
    let e = pastesite::api::map_error_response(
        500,
        "Internal Server Error".to_string(),
        Some(ErrorResponse { code: 9, message: "boom".to_string() }),
    );
    assert!(matches!(e, Error::ApiError(9, ref m) if m == "boom"));
    let e = pastesite::api::map_error_response(500, "Internal Server Error".to_string(), None);
    assert!(matches!(
        e,
        Error::UnhandledStatus(500, ref t) if t == "Internal Server Error"
    ));
}

#[test]
fn create_paste_body_omits_empty_custom_id() {
    let req = CreatePaste {
        as_user: true,
        content: "line1\nline2 \"quoted\" \\ tab\t".to_string(),
        title: "My Build".to_string(),
        custom_id: String::new(),
        id: None,
        pinned: false,
        private: true,
    };
    assert_eq!(
        req.to_json_body(),
        "{\"as_user\":true,\"content\":\"line1\\nline2 \\\"quoted\\\" \\\\ tab\\t\",\
         \"title\":\"My Build\",\"id\":null,\"pinned\":false,\"private\":true}"
    );
}

#[test]
fn create_paste_body_with_all_fields() {
    let req = CreatePaste {
        as_user: false,
        content: "x".to_string(),
        title: "t".to_string(),
        custom_id: "mine".to_string(),
        id: Some(PasteId::UserPaste("someone".to_string(), "abc".to_string())),
        pinned: true,
        private: false,
    };
    assert_eq!(
        req.to_json_body(),
        "{\"as_user\":false,\"content\":\"x\",\"title\":\"t\",\"custom_id\":\"mine\",\
         \"id\":\"someone:abc\",\"pinned\":true,\"private\":false}"
    );
}

#[test]
fn create_paste_body_escapes_control_characters() {
    let req = CreatePaste {
        as_user: false,
        content: "\u{1}\u{1f}".to_string(),
        title: String::new(),
        custom_id: String::new(),
        id: None,
        pinned: false,
        private: false,
    };
    assert_eq!(
        req.to_json_body(),
        "{\"as_user\":false,\"content\":\"\\u0001\\u001f\",\"title\":\"\",\
         \"id\":null,\"pinned\":false,\"private\":false}"
    );
}

#[test]
fn meta_of_empty_listing() {
    let page = UserPage { name: "someone".to_string(), pastes: Vec::new() };
    let meta = page.meta();
    assert_eq!(meta.title, "someone's builds");
    assert_eq!(meta.description, "\u{27A4} there aren't any builds yet");
    assert_eq!(meta.image, "/assets/logo.png");
    assert!(meta.color.is_empty());
    assert!(meta.preload.is_empty());
    assert!(meta.prefetch.is_empty());
}

#[test]
fn meta_lists_first_three_builds() {
    let page = UserPage {
        name: "someone".to_string(),
        pastes: vec![summary("a", "one"), summary("b", "two")],
    };
    let meta = page.meta();
    assert_eq!(meta.description, "\u{27A4} one\n\u{27A4} two");
    let page = UserPage {
        name: "someone".to_string(),
        pastes: vec![
            summary("a", "one"),
            summary("b", "two"),
            summary("c", "three"),
        ],
    };
    assert_eq!(page.meta().description, "\u{27A4} one\n\u{27A4} two\n\u{27A4} three");
}

#[test]
fn meta_counts_builds_beyond_three() {
    let page = UserPage {
        name: "someone".to_string(),
        pastes: vec![
            summary("a", "one"),
            summary("b", "two"),
            summary("c", "three"),
            summary("d", "four"),
            summary("e", "five"),
            summary("f", "six"),
            summary("g", "seven"),
            summary("h", "eight"),
            summary("i", "nine"),
            summary("j", "ten"),
            summary("k", "eleven"),
            summary("l", "twelve"),
            summary("m", "thirteen"),
        ],
    };
    let meta = page.meta();
    assert_eq!(
        meta.description,
        "\u{27A4} one\n\u{27A4} two\n\u{27A4} three\n\u{27A4} .. 10 more builds"
    );
}
