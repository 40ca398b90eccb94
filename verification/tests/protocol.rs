use cumments::models::SiteId;
use cumments::protocol::{
    build_outbound_event, extract_comment_data, parse_room_alias, CummentsMetadata,
    MessageContent,
};

fn body(text: &str) -> MessageContent {
    MessageContent { metadata: None, body: Some(text.to_string()) }
}

#[test]
fn room_alias_gives_tenant_and_thread() {
    let (site, slug) = parse_room_alias("demo.example_hello").unwrap();
    assert_eq!(site, SiteId::new("demo.example").unwrap());
    assert_eq!(slug, "hello");
}

#[test]
fn room_alias_is_cut_at_the_first_separator() {
    let (site, slug) = parse_room_alias("#demo_hello_world").unwrap();
    assert_eq!(site.as_str(), "demo");
    assert_eq!(slug, "hello_world");
    let (site, slug) = parse_room_alias("###a_").unwrap();
    assert_eq!(site.as_str(), "a");
    assert_eq!(slug, "");
    let (site, slug) = parse_room_alias("_x").unwrap();
    assert_eq!(site.as_str(), "");
    assert_eq!(slug, "x");
}

#[test]
fn room_alias_without_tenant_is_none() {
    assert!(parse_room_alias("hello").is_none());
    assert!(parse_room_alias("").is_none());
    assert!(parse_room_alias("Demo_hello").is_none());
    assert!(parse_room_alias("a#b_c").is_none());
    let long = format!("{}_x", "a".repeat(65));
    assert!(parse_room_alias(&long).is_none());
}

#[test]
fn outbound_event_carries_metadata_and_fallback() {
    let e = build_outbound_event("Ferris", "hi", Some("fp".to_string()), Some("t1".to_string()));
    assert_eq!(e.msgtype, "m.text");
    assert_eq!(e.body, "**Ferris** (Guest): hi");
    assert_eq!(e.metadata.author_name, "Ferris");
    assert!(e.metadata.is_guest);
    assert_eq!(e.metadata.origin_content, "hi");
    assert_eq!(e.metadata.author_fingerprint.as_deref(), Some("fp"));
    assert_eq!(e.metadata.txn_id.as_deref(), Some("t1"));
    assert_eq!(e.reply_to, None);
}

#[test]
fn metadata_decides_where_there_is_any() {
    let content = MessageContent {
        metadata: Some(CummentsMetadata {
            author_name: "Ferris".to_string(),
            is_guest: true,
            origin_content: "hi".to_string(),
            author_fingerprint: Some("fp".to_string()),
            txn_id: Some("t".to_string()),
        }),
        body: Some("**Someone** (Guest): else".to_string()),
    };
    let r = extract_comment_data(&content, "@bot:x", "@bot:x");
    assert_eq!(
        r,
        ("Ferris".to_string(), true, "hi".to_string(), Some("fp".to_string()), Some("t".to_string()))
    );
}

#[test]
fn body_of_the_service_is_read_as_a_guest_comment() {
    let r = extract_comment_data(&body("**Ferris** (Guest): hi there"), "@bot:x", "@bot:x");
    assert_eq!(r, ("Ferris".to_string(), true, "hi there".to_string(), None, None));
    // the first marker cuts, later ones belong to the text
    let r = extract_comment_data(&body("**A** (Guest): b (Guest): c"), "@bot:x", "@bot:x");
    assert_eq!(r, ("A".to_string(), true, "b (Guest): c".to_string(), None, None));
    // all stars at either end go
    let r = extract_comment_data(&body("****A**** (Guest): x"), "@bot:x", "@bot:x");
    assert_eq!(r.0, "A");
    let r = extract_comment_data(&body("*A* (Guest): x"), "@bot:x", "@bot:x");
    assert_eq!(r.0, "*A*");
    let r = extract_comment_data(&body(" (Guest): x"), "@bot:x", "@bot:x");
    assert_eq!(r, ("".to_string(), true, "x".to_string(), None, None));
}

#[test]
fn other_body_of_the_service_is_its_own() {
    let r = extract_comment_data(&body("maintenance"), "@bot:x", "@bot:x");
    assert_eq!(r, ("Bot".to_string(), false, "maintenance".to_string(), None, None));
    let r = extract_comment_data(&MessageContent { metadata: None, body: None }, "@bot:x", "@bot:x");
    assert_eq!(r, ("Bot".to_string(), false, "".to_string(), None, None));
}

#[test]
fn other_senders_speak_for_themselves() {
    let r = extract_comment_data(&body("**Ferris** (Guest): hi"), "@alice:x", "@bot:x");
    assert_eq!(
        r,
        ("@alice:x".to_string(), false, "**Ferris** (Guest): hi".to_string(), None, None)
    );
}

#[test]
fn fallback_reads_back_what_was_built() {
    let e = build_outbound_event("Ferris", "hi", None, None);
    let r = extract_comment_data(
        &MessageContent { metadata: None, body: Some(e.body) },
        "@bot:x",
        "@bot:x",
    );
    assert_eq!(r, ("Ferris".to_string(), true, "hi".to_string(), None, None));
}
