use crate::fsmodel::DiskModel;
use crate::platform::PlatformTag;
use crate::resolver::{candidate, resolve_local, InstalledRuby};
use crate::version::{version_le, RubyRequest};
use vstd::prelude::*;

verus! {

/// Why an uninstall failed.
#[derive(Debug)]
pub enum Error {
    /// No installed runtime satisfies the request.
    NoMatchingRuby,
    /// The matched directory could not be deleted.
    IoError { dir: String, message: String },
}

/// Resolves the runtime to uninstall: the directory of the best local
/// match is what is to be removed; with no match nothing is touched and
/// the operation fails with `NoMatchingRuby`.
pub fn uninstall(
    request: &RubyRequest,
    host: PlatformTag,
    installed: &Vec<InstalledRuby>,
) -> (r: Result<String, Error>)
    ensures
        match r {
            Ok(dir) => exists|i: int|
                0 <= i < installed@.len() && candidate(*request, host, #[trigger] installed@[i])
                    && dir@ == installed@[i].path@ && forall|j: int|
                    0 <= j < installed@.len() && candidate(*request, host, #[trigger] installed@[j])
                        ==> version_le(installed@[j].version, installed@[i].version),
            Err(e) => e is NoMatchingRuby && forall|j: int|
                0 <= j < installed@.len() ==> !candidate(*request, host, #[trigger] installed@[j]),
        },
{
    match resolve_local(request, host, installed) {
        Some(i) => {
            let dir = installed[i].path.clone();
            proof {
                assert(candidate(*request, host, installed@[i as int]));
            }
            Ok(dir)
        },
        None => Err(Error::NoMatchingRuby),
    }
}

/// The only filesystem change an uninstall may make: removing the
/// directory tree of the resolved runtime. A failed resolution removes
/// nothing.
pub open spec fn uninstall_effect(m: DiskModel, resolved_dir: Option<Seq<char>>) -> DiskModel {
    match resolved_dir {
        Some(d) => m.remove_dir(d),
        None => m,
    }
}

/// Uninstall precondition: with no installed match the filesystem model
/// is left exactly as it was.
pub proof fn lemma_uninstall_no_match_unchanged(m: DiskModel)
    ensures
        uninstall_effect(m, None) == m,
{
}

} // verus!
