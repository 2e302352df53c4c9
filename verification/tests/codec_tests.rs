use pastesite::codec::{decode, encode, parse_page, serialize_page};
use pastesite::model::{PasteSummary, UserPage};

fn summary(id: &str, user: Option<&str>, title: &str) -> PasteSummary {
    PasteSummary {
        id: id.to_string(),
        user: user.map(|u| u.to_string()),
        title: title.to_string(),
        ascendancy_or_class: "Ascendant".to_string(),
        version: "3.23".to_string(),
        main_skill_name: "Spark".to_string(),
        last_modified: 1_700_000_000_123,
    }
}

fn assert_pages_equal(a: &UserPage, b: &UserPage) {
    assert_eq!(a.name, b.name);
    assert_eq!(a.pastes.len(), b.pastes.len());
    for (x, y) in a.pastes.iter().zip(b.pastes.iter()) {
        assert_eq!(x.id, y.id);
        assert_eq!(x.user, y.user);
        assert_eq!(x.title, y.title);
        assert_eq!(x.ascendancy_or_class, y.ascendancy_or_class);
        assert_eq!(x.version, y.version);
        assert_eq!(x.main_skill_name, y.main_skill_name);
        assert_eq!(x.last_modified, y.last_modified);
    }
}

#[test]
fn round_trip_two_pastes() {
    let page = UserPage {
        name: "someone".to_string(),
        pastes: vec![
            summary("abc123", Some("someone"), "My first build"),
            summary("def456", None, "K\u{e4}mpfer \u{27A4} v2"),
        ],
    };
    let text = encode(&page);
    let back = decode(&text).expect("the encoding of a page must decode");
    assert_pages_equal(&page, &back);
}

#[test]
fn round_trip_empty_listing() {
    let page = UserPage { name: "someone".to_string(), pastes: Vec::new() };
    let text = encode(&page);
    // An empty listing still encodes to a non-empty token, so its presence
    // can be told from "payload not computed".
    assert!(!text.is_empty());
    let back = decode(&text).expect("the empty listing must decode");
    assert_eq!(back.name, "someone");
    assert!(back.pastes.is_empty());
}

#[test]
fn round_trip_empty_name_and_fields() {
    let page = UserPage {
        name: String::new(),
        pastes: vec![PasteSummary {
            id: String::new(),
            user: Some(String::new()),
            title: String::new(),
            ascendancy_or_class: String::new(),
            version: String::new(),
            main_skill_name: String::new(),
            last_modified: 0,
        }],
    };
    let text = encode(&page);
    let back = decode(&text).expect("must decode");
    assert_pages_equal(&page, &back);
}

#[test]
fn encoding_is_attribute_safe() {
    let page = UserPage {
        name: "a\"b<c>&d' e".to_string(),
        pastes: vec![summary("abc", None, "title with \"quotes\" & <tags>")],
    };
    let text = encode(&page);
    assert!(text.chars().all(|c| c.is_ascii_hexdigit() && !c.is_ascii_uppercase()));
}

#[test]
fn decode_rejects_invalid_text() {
    // Not hexadecimal at all.
    assert!(decode("not a payload!").is_none());
    // Odd length.
    assert!(decode("abc").is_none());
    // Uppercase digits are outside the alphabet.
    assert!(decode("AB").is_none());
    // Valid hexadecimal, but not a serialization.
    assert!(decode("00").is_none());
    assert!(decode("").is_none());
}

#[test]
fn decode_rejects_trailing_bytes() {
    let page = UserPage { name: "x".to_string(), pastes: Vec::new() };
    let mut text = encode(&page);
    assert!(decode(&text).is_some());
    text.push_str("00");
    assert!(decode(&text).is_none());
}

#[test]
fn decode_rejects_truncation() {
    let page = UserPage { name: "someone".to_string(), pastes: vec![summary("abc", None, "t")] };
    let text = encode(&page);
    let cut = &text[..text.len() - 2];
    assert!(decode(cut).is_none());
}

#[test]
fn serialize_and_parse_bytes() {
    let page = UserPage {
        name: "n".to_string(),
        pastes: vec![summary("id1", Some("n"), "hello")],
    };
    let bytes = serialize_page(&page);
    let back = parse_page(&bytes).expect("canonical bytes must parse");
    assert_pages_equal(&page, &back);
    // A flipped option tag is rejected rather than guessed at.
    let mut bad = bytes.clone();
    // name "n" takes 8+4 bytes, the count 8, the id "id1" 8+12; the user
    // presence tag follows.
    let tag_pos = (8 + 4) + 8 + (8 + 12);
    assert_eq!(bad[tag_pos], 1);
    bad[tag_pos] = 7;
    assert!(parse_page(&bad).is_none());
}
