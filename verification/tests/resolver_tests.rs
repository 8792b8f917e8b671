use rv::cache::cache_key;
use rv::installer::{install_dir_for, plan_source, InstallSource};
use rv::platform::PlatformTag;
use rv::resolver::{pick_latest, remote_release, resolve_local, InstalledRuby};
use rv::uninstall::{uninstall, Error};
use rv::version::{RubyRequest, RubyVersion};

fn installed(major: u64, minor: u64, patch: u64, tag: PlatformTag) -> InstalledRuby {
    let v = RubyVersion::new(major, minor, patch);
    let path = format!("/opt/rubies/{}.{}.{}", major, minor, patch);
    InstalledRuby { version: v, tag, path }
}

#[test]
fn resolve_local_picks_highest_prefix_match() {
    let host = PlatformTag::Arm64Linux;
    let list = vec![
        installed(3, 4, 1, host),
        installed(3, 4, 7, host),
        installed(3, 3, 9, host),
        installed(3, 4, 5, host),
    ];
    let r = resolve_local(&RubyRequest::MajorMinor(3, 4), host, &list);
    assert_eq!(r, Some(1));
    let r = resolve_local(&RubyRequest::Major(3), host, &list);
    assert_eq!(r, Some(1));
}

#[test]
fn resolve_local_exact_needs_exact_version_and_platform() {
    let host = PlatformTag::Ventura;
    let list = vec![
        installed(3, 4, 5, PlatformTag::Arm64Sonoma),
        installed(3, 4, 6, host),
    ];
    let req = RubyRequest::Exact(RubyVersion::new(3, 4, 5));
    assert_eq!(resolve_local(&req, host, &list), None);
    let req = RubyRequest::Exact(RubyVersion::new(3, 4, 6));
    assert_eq!(resolve_local(&req, host, &list), Some(1));
}

#[test]
fn resolve_local_empty_is_none() {
    let list: Vec<InstalledRuby> = Vec::new();
    assert_eq!(
        resolve_local(&RubyRequest::Latest, PlatformTag::Ventura, &list),
        None
    );
}

#[test]
fn pick_latest_takes_the_newest() {
    let versions = vec![
        RubyVersion::new(3, 4, 5),
        RubyVersion::new(3, 10, 0),
        RubyVersion::new(2, 7, 8),
    ];
    assert_eq!(pick_latest(&versions), Some(RubyVersion::new(3, 10, 0)));
    let empty: Vec<RubyVersion> = Vec::new();
    assert_eq!(pick_latest(&empty), None);
}

#[test]
fn remote_release_is_deterministic() {
    let v = RubyVersion::new(3, 4, 5);
    let r = remote_release("https://example.com", &v, PlatformTag::Ventura);
    assert_eq!(
        r.url.as_str(),
        "https://example.com/portable-ruby-3.4.5.ventura.bottle.tar.gz"
    );
    assert_eq!(r.filename.as_str(), "portable-ruby-3.4.5.ventura.bottle.tar.gz");
}

#[test]
fn plan_source_without_override_is_remote() {
    let v = RubyVersion::new(3, 4, 5);
    let s = plan_source(None, "https://example.com", &v, PlatformTag::Ventura);
    match s {
        InstallSource::Remote(r) => assert_eq!(
            r.url.as_str(),
            "https://example.com/portable-ruby-3.4.5.ventura.bottle.tar.gz"
        ),
        InstallSource::Local(_) => panic!("no override was supplied"),
    }
}

#[test]
fn install_dir_is_version_scoped() {
    let v = RubyVersion::new(3, 4, 5);
    assert_eq!(
        install_dir_for("/opt/rubies", &v, PlatformTag::Arm64Sonoma).as_str(),
        "/opt/rubies/3.4.5/arm64_sonoma"
    );
}

#[test]
fn uninstall_no_match_fails_with_no_matching_ruby() {
    let host = PlatformTag::Arm64Linux;
    let list = vec![installed(3, 3, 0, host)];
    let req = RubyRequest::Exact(RubyVersion::new(3, 4, 5));
    match uninstall(&req, host, &list) {
        Err(Error::NoMatchingRuby) => {}
        other => panic!("expected NoMatchingRuby, got {:?}", other),
    }
}

#[test]
fn uninstall_match_plans_the_matched_directory() {
    let host = PlatformTag::Arm64Linux;
    let list = vec![installed(3, 3, 0, host), installed(3, 4, 5, host)];
    let req = RubyRequest::MajorMinor(3, 4);
    let dir = uninstall(&req, host, &list).expect("a match exists");
    assert_eq!(dir.as_str(), "/opt/rubies/3.4.5");
}

#[test]
fn cache_key_is_the_hex_digest_of_the_url() {
    // sha-256 of "abc"
    assert_eq!(
        cache_key("abc").as_str(),
        "ba7816bf8f01cfea414140de5dae2223b00361a396177a9cb410ff61f20015ad"
    );
}
