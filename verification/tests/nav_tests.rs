use pastesite::api::Error;
use pastesite::model::UserPage;
use pastesite::nav::{PageSlot, SlotContent};

fn page(name: &str) -> UserPage {
    UserPage { name: name.to_string(), pastes: Vec::new() }
}

#[test]
fn fresh_slot_is_empty_and_not_loading() {
    let slot = PageSlot::new();
    assert!(matches!(slot.content(), SlotContent::Empty));
    assert!(!slot.is_loading());
}

#[test]
fn single_navigation_applies() {
    let mut slot = PageSlot::new();
    let t = slot.begin_navigation();
    assert!(slot.is_loading());
    slot.apply_result(t, Ok(page("someone")));
    assert!(!slot.is_loading());
    assert!(matches!(slot.content(), SlotContent::Ready(ref p) if p.name == "someone"));
}

#[test]
fn failed_navigation_shows_the_error() {
    let mut slot = PageSlot::new();
    let t = slot.begin_navigation();
    slot.apply_result(t, Err(Error::ResourceNotFound("user", "ghost".to_string())));
    assert!(matches!(
        slot.content(),
        SlotContent::Failed(Error::ResourceNotFound(kind, ref id)) if *kind == "user" && id == "ghost"
    ));
}

#[test]
fn pending_navigation_keeps_previous_content_visible() {
    // No premature teardown: while the fetch is pending, the previous page
    // stays in place.
    let mut slot = PageSlot::new();
    let t = slot.begin_navigation();
    slot.apply_result(t, Ok(page("first")));
    let _later = slot.begin_navigation();
    assert!(slot.is_loading());
    assert!(matches!(slot.content(), SlotContent::Ready(ref p) if p.name == "first"));
}

#[test]
fn superseding_navigation_wins_when_it_resolves_first() {
    // B is issued before A's fetch resolves; B resolves first, then A's
    // stale result arrives. The slot must keep B's outcome.
    let mut slot = PageSlot::new();
    let a = slot.begin_navigation();
    let b = slot.begin_navigation();
    slot.apply_result(b, Ok(page("bee")));
    slot.apply_result(a, Ok(page("aye")));
    assert!(matches!(slot.content(), SlotContent::Ready(ref p) if p.name == "bee"));
}

#[test]
fn superseding_navigation_wins_when_it_resolves_last() {
    // A resolves first, but was already superseded by B: A is discarded and
    // B's later result applies.
    let mut slot = PageSlot::new();
    let a = slot.begin_navigation();
    let b = slot.begin_navigation();
    slot.apply_result(a, Ok(page("aye")));
    assert!(slot.is_loading());
    assert!(matches!(slot.content(), SlotContent::Empty));
    slot.apply_result(b, Ok(page("bee")));
    assert!(matches!(slot.content(), SlotContent::Ready(ref p) if p.name == "bee"));
}

#[test]
fn stale_error_does_not_replace_applied_content() {
    // A dynamic failure from a superseded navigation must leave the newer
    // page intact rather than blanking it.
    let mut slot = PageSlot::new();
    let a = slot.begin_navigation();
    let b = slot.begin_navigation();
    slot.apply_result(b, Ok(page("bee")));
    slot.apply_result(a, Err(Error::UnhandledStatus(500, "Internal".to_string())));
    assert!(matches!(slot.content(), SlotContent::Ready(ref p) if p.name == "bee"));
}

#[test]
fn tokens_are_single_use() {
    let mut slot = PageSlot::new();
    let t = slot.begin_navigation();
    slot.apply_result(t, Ok(page("first")));
    // The token was consumed: a second result for it changes nothing.
    slot.apply_result(t, Ok(page("second")));
    assert!(matches!(slot.content(), SlotContent::Ready(ref p) if p.name == "first"));
}
