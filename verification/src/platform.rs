use crate::version::{str_eq, version_str, RubyVersion};
use vstd::prelude::*;
use vstd::string::StringExecFns;

verus! {

/// A supported operating system.
#[derive(Clone, Copy, PartialEq, Eq, Structural, Debug)]
pub enum Os {
    Macos,
    Linux,
}

/// A supported processor architecture.
#[derive(Clone, Copy, PartialEq, Eq, Structural, Debug)]
pub enum Arch {
    Aarch64,
    X86_64,
}

/// The compatibility tag of a prebuilt archive, one per supported
/// (operating system, architecture) pair.
#[derive(Clone, Copy, PartialEq, Eq, Structural, Debug)]
pub enum PlatformTag {
    Arm64Sonoma,
    Ventura,
    X8664Linux,
    Arm64Linux,
}

/// The tag table: exactly one tag per supported pair.
pub open spec fn tag_of(os: Os, arch: Arch) -> PlatformTag {
    match (os, arch) {
        (Os::Macos, Arch::Aarch64) => PlatformTag::Arm64Sonoma,
        (Os::Macos, Arch::X86_64) => PlatformTag::Ventura,
        (Os::Linux, Arch::X86_64) => PlatformTag::X8664Linux,
        (Os::Linux, Arch::Aarch64) => PlatformTag::Arm64Linux,
    }
}

pub fn platform_tag(os: Os, arch: Arch) -> (t: PlatformTag)
    ensures
        t == tag_of(os, arch),
{
    match (os, arch) {
        (Os::Macos, Arch::Aarch64) => PlatformTag::Arm64Sonoma,
        (Os::Macos, Arch::X86_64) => PlatformTag::Ventura,
        (Os::Linux, Arch::X86_64) => PlatformTag::X8664Linux,
        (Os::Linux, Arch::Aarch64) => PlatformTag::Arm64Linux,
    }
}

pub open spec fn os_str(os: Os) -> Seq<char> {
    match os {
        Os::Macos => "macos"@,
        Os::Linux => "linux"@,
    }
}

pub open spec fn arch_str(arch: Arch) -> Seq<char> {
    match arch {
        Arch::Aarch64 => "aarch64"@,
        Arch::X86_64 => "x86_64"@,
    }
}

/// Recognizes a host operating system name. An unknown name is an
/// unsupported host: a configuration error, not a retryable failure.
pub fn parse_os(s: &str) -> (r: Option<Os>)
    ensures
        match r {
            Some(os) => s@ == os_str(os),
            None => s@ != "macos"@ && s@ != "linux"@,
        },
{
    if str_eq(s, "macos") {
        Some(Os::Macos)
    } else if str_eq(s, "linux") {
        Some(Os::Linux)
    } else {
        None
    }
}

/// Recognizes a host architecture name.
pub fn parse_arch(s: &str) -> (r: Option<Arch>)
    ensures
        match r {
            Some(a) => s@ == arch_str(a),
            None => s@ != "aarch64"@ && s@ != "x86_64"@,
        },
{
    if str_eq(s, "aarch64") {
        Some(Arch::Aarch64)
    } else if str_eq(s, "x86_64") {
        Some(Arch::X86_64)
    } else {
        None
    }
}

pub open spec fn tag_chars(t: PlatformTag) -> Seq<char> {
    match t {
        PlatformTag::Arm64Sonoma => "arm64_sonoma"@,
        PlatformTag::Ventura => "ventura"@,
        PlatformTag::X8664Linux => "x86_64_linux"@,
        PlatformTag::Arm64Linux => "arm64_linux"@,
    }
}

pub fn tag_str(t: PlatformTag) -> (r: &'static str)
    ensures
        r@ == tag_chars(t),
{
    match t {
        PlatformTag::Arm64Sonoma => "arm64_sonoma",
        PlatformTag::Ventura => "ventura",
        PlatformTag::X8664Linux => "x86_64_linux",
        PlatformTag::Arm64Linux => "arm64_linux",
    }
}

/// The fixed naming template of the upstream distributor:
/// `portable-ruby-<version>.<tag>.bottle.tar.gz`.
pub open spec fn bottle_filename(v: RubyVersion, t: PlatformTag) -> Seq<char> {
    "portable-ruby-"@ + version_str(v) + "."@ + tag_chars(t) + ".bottle.tar.gz"@
}

pub fn filename_for(v: &RubyVersion, t: PlatformTag) -> (s: String)
    ensures
        s@ == bottle_filename(*v, t),
{
    let mut s = "portable-ruby-".to_owned();
    s.append(v.render().as_str());
    s.append(".");
    s.append(tag_str(t));
    s.append(".bottle.tar.gz");
    proof {
        assert(s@ =~= bottle_filename(*v, t));
    }
    s
}

/// The download address: the releases base joined with the bottle name.
pub open spec fn download_url(base: Seq<char>, v: RubyVersion, t: PlatformTag) -> Seq<char> {
    base + "/"@ + bottle_filename(v, t)
}

pub fn url_for(base: &str, v: &RubyVersion, t: PlatformTag) -> (s: String)
    ensures
        s@ == download_url(base@, *v, t),
{
    let mut s = base.to_owned();
    s.append("/");
    s.append(filename_for(v, t).as_str());
    proof {
        assert(s@ =~= download_url(base@, *v, t));
    }
    s
}

} // verus!
