use crate::platform::{bottle_filename, download_url, tag_chars, PlatformTag};
use crate::resolver::{remote_release, RemoteRelease};
use crate::version::{version_str, RubyVersion};
use vstd::prelude::*;
use vstd::string::StringExecFns;

verus! {

/// Where the archive for an install comes from: a user-supplied local
/// path, or the deterministic remote release fetched through the cache.
pub enum InstallSource {
    Local(String),
    Remote(RemoteRelease),
}

/// A supplied local archive path skips resolver, transport and cache
/// entirely; otherwise the remote release descriptor is computed from
/// the version and the platform alone.
pub fn plan_source(
    tarball_override: Option<String>,
    base: &str,
    version: &RubyVersion,
    tag: PlatformTag,
) -> (r: InstallSource)
    ensures
        match tarball_override {
            Some(p) => r == InstallSource::Local(p),
            None => r is Remote && r->Remote_0.url@ == download_url(base@, *version, tag)
                && r->Remote_0.filename@ == bottle_filename(*version, tag),
        },
{
    match tarball_override {
        Some(p) => InstallSource::Local(p),
        None => InstallSource::Remote(remote_release(base, version, tag)),
    }
}

/// The version-scoped install target: `<root>/<version>/<tag>`.
pub open spec fn install_dir_spec(root: Seq<char>, v: RubyVersion, t: PlatformTag) -> Seq<char> {
    root + "/"@ + version_str(v) + "/"@ + tag_chars(t)
}

pub fn install_dir_for(root: &str, v: &RubyVersion, t: PlatformTag) -> (s: String)
    ensures
        s@ == install_dir_spec(root@, *v, t),
{
    let mut s = root.to_owned();
    s.append("/");
    s.append(v.render().as_str());
    s.append("/");
    s.append(crate::platform::tag_str(t));
    proof {
        assert(s@ =~= install_dir_spec(root@, *v, t));
    }
    s
}

/// The install root override, if given, replaces the default for this
/// single invocation only.
pub fn effective_install_root<'a>(default_root: &'a str, override_root: &'a Option<String>) -> (r:
    &'a str)
    ensures
        r@ == match override_root {
            Some(d) => d@,
            None => default_root@,
        },
{
    match override_root {
        Some(d) => d.as_str(),
        None => default_root,
    }
}

} // verus!
