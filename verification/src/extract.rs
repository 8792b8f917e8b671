use crate::fsmodel::DiskModel;
use vstd::prelude::*;
use vstd::string::StringExecFns;

verus! {

/// Why an install from an archive failed.
#[derive(Clone, Copy, PartialEq, Eq, Structural, Debug)]
pub enum ExtractError {
    /// Bad compression header, truncated stream, or malformed entries.
    InvalidArchive,
    /// The staging directory could not be promoted.
    PromoteFailed,
}

/// The phases of one extraction: unpack the archive into a staging
/// directory; on success promote it by one atomic directory rename; on
/// an invalid archive remove the staging content and fail, leaving the
/// archive itself untouched.
#[derive(Clone, Copy, PartialEq, Eq, Structural, Debug)]
pub enum ExtractState {
    Unpack,
    Promote,
    Cleanup,
    Ready,
    Failed(ExtractError),
}

/// What the driver must do next.
#[derive(Clone, Copy, PartialEq, Eq, Structural, Debug)]
pub enum ExtractAction {
    Unpack,
    PromoteDir,
    RemoveStaging,
    Done,
}

/// What the driver observed when it performed the action.
#[derive(Clone, Copy, PartialEq, Eq, Structural, Debug)]
pub enum ExtractEvent {
    UnpackOk,
    UnpackFailed,
    PromoteOk,
    PromoteFailed,
    StagingRemoved,
}

pub open spec fn extract_action_of(s: ExtractState) -> ExtractAction {
    match s {
        ExtractState::Unpack => ExtractAction::Unpack,
        ExtractState::Promote => ExtractAction::PromoteDir,
        ExtractState::Cleanup => ExtractAction::RemoveStaging,
        ExtractState::Ready => ExtractAction::Done,
        ExtractState::Failed(_) => ExtractAction::Done,
    }
}

pub open spec fn extract_event_fits(s: ExtractState, e: ExtractEvent) -> bool {
    match (s, e) {
        (ExtractState::Unpack, ExtractEvent::UnpackOk) => true,
        (ExtractState::Unpack, ExtractEvent::UnpackFailed) => true,
        (ExtractState::Promote, ExtractEvent::PromoteOk) => true,
        (ExtractState::Promote, ExtractEvent::PromoteFailed) => true,
        (ExtractState::Cleanup, ExtractEvent::StagingRemoved) => true,
        _ => false,
    }
}

pub open spec fn extract_next(s: ExtractState, e: ExtractEvent) -> ExtractState {
    match (s, e) {
        (ExtractState::Unpack, ExtractEvent::UnpackOk) => ExtractState::Promote,
        (ExtractState::Unpack, ExtractEvent::UnpackFailed) => ExtractState::Cleanup,
        (ExtractState::Promote, ExtractEvent::PromoteOk) => ExtractState::Ready,
        (ExtractState::Promote, ExtractEvent::PromoteFailed) => ExtractState::Failed(
            ExtractError::PromoteFailed,
        ),
        (ExtractState::Cleanup, ExtractEvent::StagingRemoved) => ExtractState::Failed(
            ExtractError::InvalidArchive,
        ),
        _ => s,
    }
}

/// What the filesystem may look like after the action a correct driver
/// performed to produce the event. Unpacking only reads the archive
/// file and writes under the staging directory; a failed unpack may
/// leave partial staging content, or none.
pub open spec fn extract_event_effect(
    m0: DiskModel,
    m1: DiskModel,
    staging: Seq<char>,
    install: Seq<char>,
    e: ExtractEvent,
) -> bool {
    match e {
        ExtractEvent::UnpackOk => m1 == m0.mk_dir(staging),
        ExtractEvent::UnpackFailed => m1 == m0 || m1 == m0.mk_dir(staging),
        ExtractEvent::PromoteOk => m0.has_dir(staging) && m1 == m0.rename_dir(staging, install),
        ExtractEvent::PromoteFailed => m1 == m0,
        ExtractEvent::StagingRemoved => m1 == m0.remove_dir(staging),
    }
}

/// The staging directory a target is unpacked into before promotion.
pub open spec fn staging_dir_spec(install_dir: Seq<char>) -> Seq<char> {
    install_dir + ".staging"@
}

pub fn staging_dir(install_dir: &str) -> (s: String)
    ensures
        s@ == staging_dir_spec(install_dir@),
{
    let mut s = install_dir.to_owned();
    s.append(".staging");
    s
}

/// The staging directory never coincides with the install directory.
pub proof fn lemma_staging_distinct(install_dir: Seq<char>)
    ensures
        staging_dir_spec(install_dir) != install_dir,
{
    reveal_strlit(".staging");
    assert(staging_dir_spec(install_dir).len() == install_dir.len() + 8);
}

/// One install of an archive into a target directory. The driver
/// repeatedly asks for `action`, performs it, and reports the outcome
/// through `step`.
pub struct ArchiveInstall {
    pub tarball_path: String,
    pub staging: String,
    pub install_dir: String,
    pub state: ExtractState,
}

impl ArchiveInstall {
    pub open spec fn wf(self) -> bool {
        self.staging@ == staging_dir_spec(self.install_dir@)
    }

    pub fn new(tarball_path: &str, install_dir: &str) -> (x: ArchiveInstall)
        ensures
            x.wf(),
            x.tarball_path@ == tarball_path@,
            x.install_dir@ == install_dir@,
            x.state == ExtractState::Unpack,
    {
        ArchiveInstall {
            tarball_path: tarball_path.to_owned(),
            staging: staging_dir(install_dir),
            install_dir: install_dir.to_owned(),
            state: ExtractState::Unpack,
        }
    }

    pub fn action(&self) -> (a: ExtractAction)
        ensures
            a == extract_action_of(self.state),
    {
        match self.state {
            ExtractState::Unpack => ExtractAction::Unpack,
            ExtractState::Promote => ExtractAction::PromoteDir,
            ExtractState::Cleanup => ExtractAction::RemoveStaging,
            ExtractState::Ready => ExtractAction::Done,
            ExtractState::Failed(_) => ExtractAction::Done,
        }
    }

    pub fn step(&mut self, e: ExtractEvent)
        requires
            extract_event_fits(old(self).state, e),
        ensures
            final(self).state == extract_next(old(self).state, e),
            final(self).tarball_path == old(self).tarball_path,
            final(self).staging == old(self).staging,
            final(self).install_dir == old(self).install_dir,
    {
        let next = match (self.state, e) {
            (ExtractState::Unpack, ExtractEvent::UnpackOk) => ExtractState::Promote,
            (ExtractState::Unpack, ExtractEvent::UnpackFailed) => ExtractState::Cleanup,
            (ExtractState::Promote, ExtractEvent::PromoteOk) => ExtractState::Ready,
            (ExtractState::Promote, ExtractEvent::PromoteFailed) => ExtractState::Failed(
                ExtractError::PromoteFailed,
            ),
            (ExtractState::Cleanup, ExtractEvent::StagingRemoved) => ExtractState::Failed(
                ExtractError::InvalidArchive,
            ),
            (s, _) => s,
        };
        self.state = next;
    }
}

/// The end state of an extraction run.
pub open spec fn extract_run_end(s0: ExtractState, events: Seq<ExtractEvent>) -> ExtractState
    decreases events.len(),
{
    if events.len() == 0 {
        s0
    } else {
        extract_run_end(extract_next(s0, events[0]), events.drop_first())
    }
}

/// Extraction-failure isolation: an archive that does not unpack fails
/// the install, creates no install directory, removes the staging
/// directory, and leaves every file — the cached archive included —
/// exactly as it was.
pub proof fn lemma_extract_failure_isolated(
    m0: DiskModel,
    m1: DiskModel,
    m2: DiskModel,
    install_dir: Seq<char>,
)
    requires
        !m0.has_dir(install_dir),
        !m0.has_dir(staging_dir_spec(install_dir)),
        extract_event_effect(
            m0,
            m1,
            staging_dir_spec(install_dir),
            install_dir,
            ExtractEvent::UnpackFailed,
        ),
        extract_event_effect(
            m1,
            m2,
            staging_dir_spec(install_dir),
            install_dir,
            ExtractEvent::StagingRemoved,
        ),
    ensures
        extract_run_end(
            ExtractState::Unpack,
            seq![ExtractEvent::UnpackFailed, ExtractEvent::StagingRemoved],
        ) == ExtractState::Failed(ExtractError::InvalidArchive),
        !m2.has_dir(install_dir),
        !m2.has_dir(staging_dir_spec(install_dir)),
        m2.files == m0.files,
        m2.dirs == m0.dirs,
{
    lemma_staging_distinct(install_dir);
    let es = seq![ExtractEvent::UnpackFailed, ExtractEvent::StagingRemoved];
    let s1 = extract_next(ExtractState::Unpack, es[0]);
    let t1 = es.drop_first();
    let t2 = t1.drop_first();
    assert(t1[0] == es[1]);
    assert(t2.len() == 0);
    let s2 = extract_next(s1, t1[0]);
    assert(extract_run_end(ExtractState::Unpack, es) == extract_run_end(s1, t1));
    assert(extract_run_end(s1, t1) == extract_run_end(s2, t2));
    assert(extract_run_end(s2, t2) == s2);
    assert(m2.dirs =~= m0.dirs);
}

/// A successful extraction promotes the staging directory whole: the
/// install directory exists afterward and the staging directory does not.
pub proof fn lemma_extract_success(m0: DiskModel, m1: DiskModel, m2: DiskModel, install_dir: Seq<char>)
    requires
        extract_event_effect(
            m0,
            m1,
            staging_dir_spec(install_dir),
            install_dir,
            ExtractEvent::UnpackOk,
        ),
        extract_event_effect(
            m1,
            m2,
            staging_dir_spec(install_dir),
            install_dir,
            ExtractEvent::PromoteOk,
        ),
    ensures
        extract_run_end(
            ExtractState::Unpack,
            seq![ExtractEvent::UnpackOk, ExtractEvent::PromoteOk],
        ) == ExtractState::Ready,
        m2.has_dir(install_dir),
        !m2.has_dir(staging_dir_spec(install_dir)),
        m2.files == m0.files,
{
    lemma_staging_distinct(install_dir);
    let es = seq![ExtractEvent::UnpackOk, ExtractEvent::PromoteOk];
    let s1 = extract_next(ExtractState::Unpack, es[0]);
    let t1 = es.drop_first();
    let t2 = t1.drop_first();
    assert(t1[0] == es[1]);
    assert(t2.len() == 0);
    let s2 = extract_next(s1, t1[0]);
    assert(extract_run_end(ExtractState::Unpack, es) == extract_run_end(s1, t1));
    assert(extract_run_end(s1, t1) == extract_run_end(s2, t2));
    assert(extract_run_end(s2, t2) == s2);
}

} // verus!
