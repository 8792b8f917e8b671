use rv::version::{parse_request, RubyRequest, RubyVersion};

#[test]
fn parse_exact_version() {
    let r = parse_request("3.4.5");
    assert!(matches!(
        r,
        Some(RubyRequest::Exact(RubyVersion { major: 3, minor: 4, patch: 5 }))
    ));
}

#[test]
fn parse_partial_versions() {
    assert!(matches!(parse_request("3"), Some(RubyRequest::Major(3))));
    assert!(matches!(
        parse_request("3.4"),
        Some(RubyRequest::MajorMinor(3, 4))
    ));
}

#[test]
fn parse_latest() {
    assert!(matches!(parse_request("latest"), Some(RubyRequest::Latest)));
}

#[test]
fn parse_rejects_malformed() {
    assert!(parse_request("").is_none());
    assert!(parse_request("3.").is_none());
    assert!(parse_request(".5").is_none());
    assert!(parse_request("3..5").is_none());
    assert!(parse_request("3.04.5").is_none());
    assert!(parse_request("a.b.c").is_none());
    assert!(parse_request("3.4.5.6").is_none());
    assert!(parse_request("3.4.5 ").is_none());
    assert!(parse_request("lates").is_none());
    assert!(parse_request("latest2").is_none());
}

#[test]
fn parse_u64_bounds() {
    assert!(matches!(
        parse_request("18446744073709551615"),
        Some(RubyRequest::Major(u64::MAX))
    ));
    assert!(parse_request("18446744073709551616").is_none());
}

#[test]
fn render_round_trip() {
    let req = RubyRequest::Exact(RubyVersion::new(3, 4, 5));
    let s = req.render();
    assert_eq!(s.as_str(), "3.4.5");
    assert!(matches!(
        parse_request(s.as_str()),
        Some(RubyRequest::Exact(RubyVersion { major: 3, minor: 4, patch: 5 }))
    ));
    assert_eq!(RubyRequest::MajorMinor(3, 4).render().as_str(), "3.4");
    assert_eq!(RubyRequest::Major(10).render().as_str(), "10");
    assert_eq!(RubyRequest::Latest.render().as_str(), "latest");
}

#[test]
fn version_ordering() {
    let a = RubyVersion::new(3, 4, 5);
    let b = RubyVersion::new(3, 10, 0);
    let c = RubyVersion::new(2, 99, 99);
    assert!(b.is_newer_than(&a));
    assert!(!a.is_newer_than(&b));
    assert!(a.is_newer_than(&c));
    assert!(!a.is_newer_than(&a));
}

#[test]
fn request_matching() {
    let v = RubyVersion::new(3, 4, 5);
    assert!(RubyRequest::Latest.matches_version(&v));
    assert!(RubyRequest::Major(3).matches_version(&v));
    assert!(!RubyRequest::Major(2).matches_version(&v));
    assert!(RubyRequest::MajorMinor(3, 4).matches_version(&v));
    assert!(!RubyRequest::MajorMinor(3, 5).matches_version(&v));
    assert!(RubyRequest::Exact(v).matches_version(&v));
    assert!(!RubyRequest::Exact(RubyVersion::new(3, 4, 6)).matches_version(&v));
}
