use rv::platform::{
    filename_for, parse_arch, parse_os, platform_tag, tag_str, url_for, Arch, Os, PlatformTag,
};
use rv::version::RubyVersion;

#[test]
fn tag_table_is_exhaustive() {
    assert!(matches!(
        platform_tag(Os::Macos, Arch::Aarch64),
        PlatformTag::Arm64Sonoma
    ));
    assert!(matches!(
        platform_tag(Os::Macos, Arch::X86_64),
        PlatformTag::Ventura
    ));
    assert!(matches!(
        platform_tag(Os::Linux, Arch::X86_64),
        PlatformTag::X8664Linux
    ));
    assert!(matches!(
        platform_tag(Os::Linux, Arch::Aarch64),
        PlatformTag::Arm64Linux
    ));
}

#[test]
fn tag_names() {
    assert_eq!(tag_str(PlatformTag::Arm64Sonoma), "arm64_sonoma");
    assert_eq!(tag_str(PlatformTag::Ventura), "ventura");
    assert_eq!(tag_str(PlatformTag::X8664Linux), "x86_64_linux");
    assert_eq!(tag_str(PlatformTag::Arm64Linux), "arm64_linux");
}

#[test]
fn host_name_parsing() {
    assert!(matches!(parse_os("macos"), Some(Os::Macos)));
    assert!(matches!(parse_os("linux"), Some(Os::Linux)));
    assert!(parse_os("windows").is_none());
    assert!(parse_os("").is_none());
    assert!(matches!(parse_arch("aarch64"), Some(Arch::Aarch64)));
    assert!(matches!(parse_arch("x86_64"), Some(Arch::X86_64)));
    assert!(parse_arch("riscv64").is_none());
}

#[test]
fn bottle_filenames_follow_the_template() {
    let v = RubyVersion::new(3, 4, 5);
    assert_eq!(
        filename_for(&v, PlatformTag::Arm64Sonoma).as_str(),
        "portable-ruby-3.4.5.arm64_sonoma.bottle.tar.gz"
    );
    assert_eq!(
        filename_for(&v, PlatformTag::Ventura).as_str(),
        "portable-ruby-3.4.5.ventura.bottle.tar.gz"
    );
    assert_eq!(
        filename_for(&v, PlatformTag::X8664Linux).as_str(),
        "portable-ruby-3.4.5.x86_64_linux.bottle.tar.gz"
    );
    assert_eq!(
        filename_for(&v, PlatformTag::Arm64Linux).as_str(),
        "portable-ruby-3.4.5.arm64_linux.bottle.tar.gz"
    );
}

#[test]
fn download_urls_join_base_and_filename() {
    let v = RubyVersion::new(3, 4, 5);
    assert_eq!(
        url_for("https://example.com/releases", &v, PlatformTag::Arm64Linux).as_str(),
        "https://example.com/releases/portable-ruby-3.4.5.arm64_linux.bottle.tar.gz"
    );
}
