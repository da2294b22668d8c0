use thread_archive::models::{Fullname, ThingKind};

#[test]
fn test_parse_rejects_malformed() {
    assert!(Fullname::parse("zz_123").is_none());
    assert!(Fullname::parse("noUnderscore").is_none());
    assert!(Fullname::parse("").is_none());
    assert!(Fullname::parse("t3_ab_c").is_none());
    assert!(Fullname::parse("_abc").is_none());
}

#[test]
fn test_parse_wellformed() {
    let f = Fullname::parse("t3_abc").expect("well-formed fullname");
    assert!(matches!(f.kind, ThingKind::Link));
    assert_eq!(f.id, "abc");
    let g = Fullname::parse("Listing_x").expect("well-formed fullname");
    assert!(matches!(g.kind, ThingKind::Listing));
    assert_eq!(g.id, "x");
    let h = Fullname::parse("t1_").expect("empty id is allowed");
    assert!(matches!(h.kind, ThingKind::Comment));
    assert_eq!(h.id, "");
}

#[test]
fn test_format_then_parse_round_trip() {
    let x = Fullname {
        kind: ThingKind::Subreddit,
        id: "abc123".to_string(),
    };
    let s = x.format();
    assert_eq!(s, "t5_abc123");
    let back = Fullname::parse(&s).expect("formatted value parses");
    assert!(matches!(back.kind, ThingKind::Subreddit));
    assert_eq!(back.id, "abc123");
}

#[test]
fn test_kind_tags() {
    assert_eq!(ThingKind::Listing.tag(), "Listing");
    assert_eq!(ThingKind::Comment.tag(), "t1");
    assert_eq!(ThingKind::Account.tag(), "t2");
    assert_eq!(ThingKind::Link.tag(), "t3");
    assert_eq!(ThingKind::Message.tag(), "t4");
    assert_eq!(ThingKind::Subreddit.tag(), "t5");
    assert_eq!(ThingKind::Award.tag(), "t6");
    assert_eq!(ThingKind::PromoCampaign.tag(), "t8");
}

#[test]
fn test_from_string() {
    assert!(matches!(ThingKind::from_string("t1"), Some(ThingKind::Comment)));
    assert!(matches!(ThingKind::from_string("t8"), Some(ThingKind::PromoCampaign)));
    assert!(ThingKind::from_string("t7").is_none());
    assert!(ThingKind::from_string("").is_none());
}

#[test]
fn test_from_fullname() {
    assert!(matches!(ThingKind::from_fullname("t3_123"), Some(ThingKind::Link)));
    assert!(ThingKind::from_fullname("t3_1_2").is_none());
    assert!(ThingKind::from_fullname("zz_123").is_none());
    assert!(ThingKind::from_fullname("plain").is_none());
}
