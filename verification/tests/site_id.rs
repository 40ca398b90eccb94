use cumments::models::SiteId;

#[test]
fn site_id_accepts_lowercase_dots_and_hyphens() {
    let id = SiteId::new("demo.example").unwrap();
    assert_eq!(id.as_str(), "demo.example");
    assert!(SiteId::new("my-site.org").is_ok());
    assert!(SiteId::new("").is_ok());
}

#[test]
fn site_id_rejects_underscore_first() {
    let err = SiteId::new("Bad_site").unwrap_err();
    assert_eq!(
        err,
        "Site ID cannot contain underscores ('_'). Please use hyphens ('-') or dots ('.') instead."
    );
}

#[test]
fn site_id_rejects_other_characters() {
    assert_eq!(SiteId::new("Upper").unwrap_err(), "Site ID contains invalid characters.");
    assert_eq!(SiteId::new("a b").unwrap_err(), "Site ID contains invalid characters.");
    assert_eq!(SiteId::new("caf\u{e9}").unwrap_err(), "Site ID contains invalid characters.");
}

#[test]
fn site_id_rejects_more_than_64_characters() {
    let long = "a".repeat(65);
    assert_eq!(SiteId::new(&long).unwrap_err(), "Site ID is too long (max 64 chars).");
    let ok = "a".repeat(64);
    assert!(SiteId::new(&ok).is_ok());
}

#[test]
fn site_id_taken_unchecked_can_be_checked_later() {
    let id = SiteId::new_unchecked("Not_valid".to_string());
    assert_eq!(id.as_str(), "Not_valid");
    assert!(!id.is_valid());
    assert!(SiteId::new_unchecked("fine".to_string()).is_valid());
    assert_eq!(SiteId::new("a.b").unwrap(), SiteId::new_unchecked("a.b".to_string()));
    assert_ne!(SiteId::new("a.b").unwrap(), SiteId::new("a-b").unwrap());
    assert_eq!(SiteId::new("a.b").unwrap().clone().as_str(), "a.b");
}
