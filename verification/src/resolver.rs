use crate::platform::{bottle_filename, download_url, filename_for, url_for, PlatformTag};
use crate::version::{request_matches, version_le, RubyRequest, RubyVersion};
use vstd::prelude::*;

verus! {

/// An already-extracted runtime: what a scan of the install root finds.
#[derive(Clone, Debug)]
pub struct InstalledRuby {
    pub version: RubyVersion,
    pub tag: PlatformTag,
    pub path: String,
}

/// A resolved download target. No network round-trip computes it: the
/// filename follows the distributor's fixed naming convention.
#[derive(Clone, Debug)]
pub struct RemoteRelease {
    pub url: String,
    pub filename: String,
}

/// Whether an installed runtime satisfies a request on this host.
pub open spec fn candidate(req: RubyRequest, host: PlatformTag, r: InstalledRuby) -> bool {
    request_matches(req, r.version) && r.tag == host
}

/// Local resolution: the highest installed version satisfying the
/// request on the host platform, or nothing.
pub fn resolve_local(
    request: &RubyRequest,
    host: PlatformTag,
    installed: &Vec<InstalledRuby>,
) -> (r: Option<usize>)
    ensures
        match r {
            Some(i) => i < installed@.len() && candidate(*request, host, installed@[i as int])
                && forall|j: int|
                0 <= j < installed@.len() && candidate(*request, host, #[trigger] installed@[j])
                    ==> version_le(installed@[j].version, installed@[i as int].version),
            None => forall|j: int|
                0 <= j < installed@.len() ==> !candidate(*request, host, #[trigger] installed@[j]),
        },
{
    let mut best: Option<usize> = None;
    let mut k: usize = 0;
    while k < installed.len()
        invariant
            0 <= k <= installed@.len(),
            match best {
                Some(b) => b < k && candidate(*request, host, installed@[b as int]) && forall|
                    j: int,
                |
                    0 <= j < k && candidate(*request, host, #[trigger] installed@[j])
                        ==> version_le(installed@[j].version, installed@[b as int].version),
                None => forall|j: int|
                    0 <= j < k ==> !candidate(*request, host, #[trigger] installed@[j]),
            },
        decreases installed@.len() - k,
    {
        let c = &installed[k];
        if request.matches_version(&c.version) && c.tag == host {
            best = match best {
                None => Some(k),
                Some(b) => {
                    if c.version.is_newer_than(&installed[b].version) {
                        Some(k)
                    } else {
                        Some(b)
                    }
                },
            };
        }
        k += 1;
    }
    best
}

/// The newest version in a releases index, used to give `latest` a
/// concrete value; nothing on an empty index.
pub fn pick_latest(versions: &Vec<RubyVersion>) -> (r: Option<RubyVersion>)
    ensures
        match r {
            Some(v) => versions@.contains(v) && forall|j: int|
                0 <= j < versions@.len() ==> version_le(#[trigger] versions@[j], v),
            None => versions@.len() == 0,
        },
{
    if versions.len() == 0 {
        return None;
    }
    let mut bestv: RubyVersion = versions[0];
    let mut k: usize = 1;
    proof {
        assert(versions@.contains(versions@[0]));
    }
    while k < versions.len()
        invariant
            1 <= k <= versions@.len(),
            versions@.contains(bestv),
            forall|j: int| 0 <= j < k ==> version_le(#[trigger] versions@[j], bestv),
        decreases versions@.len() - k,
    {
        let c = versions[k];
        if c.is_newer_than(&bestv) {
            bestv = c;
            proof {
                assert(versions@.contains(versions@[k as int]));
            }
        }
        k += 1;
    }
    Some(bestv)
}

/// Remote resolution: the deterministic release descriptor for a
/// concrete version on a platform.
pub fn remote_release(base: &str, v: &RubyVersion, t: PlatformTag) -> (r: RemoteRelease)
    ensures
        r.url@ == download_url(base@, *v, t),
        r.filename@ == bottle_filename(*v, t),
{
    RemoteRelease { url: url_for(base, v, t), filename: filename_for(v, t) }
}

} // verus!
