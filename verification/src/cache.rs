use crate::fsmodel::DiskModel;
use crate::version::{digit_char, digit_str};
use sha2::Digest;
use vstd::prelude::*;
use vstd::string::StringExecFns;

verus! {

/// The digest that keys the cache: identical URL, identical key.
pub uninterp spec fn sha256_of(bytes: Seq<u8>) -> Seq<u8>;

/// Relies on sha2::Sha256 through `digest::Digest::digest`: the hash is
/// a pure function of the input bytes, and is 32 bytes long.
#[verifier::external_body]
fn sha256(bytes: &[u8]) -> (r: Vec<u8>)
    ensures
        r@ == sha256_of(bytes@),
        r@.len() == 32,
{
    sha2::Sha256::digest(bytes).to_vec()
}

/// Lower-case hexadecimal, two characters per byte, first byte first.
pub open spec fn hex_of(bytes: Seq<u8>) -> Seq<char>
    decreases bytes.len(),
{
    if bytes.len() == 0 {
        Seq::empty()
    } else {
        hex_of(bytes.drop_last()) + seq![
            digit_char((bytes.last() / 16) as u8),
            digit_char((bytes.last() % 16) as u8),
        ]
    }
}

pub fn to_hex(bytes: &Vec<u8>) -> (s: String)
    ensures
        s@ == hex_of(bytes@),
{
    let mut s = String::new();
    let mut i: usize = 0;
    while i < bytes.len()
        invariant
            0 <= i <= bytes@.len(),
            s@ == hex_of(bytes@.take(i as int)),
        decreases bytes@.len() - i,
    {
        let b = bytes[i];
        s.append(digit_str(b / 16));
        s.append(digit_str(b % 16));
        proof {
            assert(bytes@.take(i + 1).drop_last() =~= bytes@.take(i as int));
            assert(bytes@.take(i + 1).last() == b);
        }
        i += 1;
    }
    proof {
        assert(bytes@.take(bytes@.len() as int) =~= bytes@);
    }
    s
}

/// The cache key of a download URL: the hexadecimal digest of its bytes.
pub open spec fn url_digest(url: Seq<char>) -> Seq<char> {
    hex_of(sha256_of(vstd::utf8::encode_utf8(url)))
}

pub fn cache_key(url: &str) -> (s: String)
    ensures
        s@ == url_digest(url@),
{
    let bytes = url.as_bytes();
    let d = sha256(bytes);
    to_hex(&d)
}

/// Where a completed blob lives:
/// `<cache_root>/<schema>/tarballs/<digest>.tar.gz`.
pub open spec fn final_path_spec(root: Seq<char>, url: Seq<char>) -> Seq<char> {
    root + "/ruby-v0/tarballs/"@ + url_digest(url) + ".tar.gz"@
}

/// Where an in-progress download is written before its atomic rename.
pub open spec fn temp_path_spec(root: Seq<char>, url: Seq<char>) -> Seq<char> {
    final_path_spec(root, url) + ".tmp"@
}

pub fn final_path(root: &str, url: &str) -> (s: String)
    ensures
        s@ == final_path_spec(root@, url@),
{
    let mut s = root.to_owned();
    s.append("/ruby-v0/tarballs/");
    s.append(cache_key(url).as_str());
    s.append(".tar.gz");
    proof {
        assert(s@ =~= final_path_spec(root@, url@));
    }
    s
}

pub fn temp_path(root: &str, url: &str) -> (s: String)
    ensures
        s@ == temp_path_spec(root@, url@),
{
    let mut s = final_path(root, url);
    s.append(".tmp");
    s
}

/// The transient path never coincides with the final path.
pub proof fn lemma_paths_distinct(root: Seq<char>, url: Seq<char>)
    ensures
        final_path_spec(root, url) != temp_path_spec(root, url),
{
    reveal_strlit(".tmp");
    assert(temp_path_spec(root, url).len() == final_path_spec(root, url).len() + 4);
}

/// Why a fetch failed: a non-success status, an unreachable host, or a
/// transfer that broke off part way.
#[derive(Clone, Copy, PartialEq, Eq, Structural, Debug)]
pub enum FetchFailure {
    HttpStatus(u16),
    ConnectionError,
    Interrupted,
}

#[derive(Clone, Copy, PartialEq, Eq, Structural, Debug)]
pub enum CacheError {
    Fetch(FetchFailure),
    PromoteFailed,
}

/// The phases of one `get_or_fetch`: probe the final path; on a miss
/// download to the transient path; promote it by one atomic rename; on
/// any fetch failure remove the transient path before failing.
#[derive(Clone, Copy, PartialEq, Eq, Structural, Debug)]
pub enum CacheState {
    Probe,
    Fetch,
    Promote,
    Cleanup(FetchFailure),
    Ready { hit: bool },
    Failed(CacheError),
}

/// What the driver must do next.
#[derive(Clone, Copy, PartialEq, Eq, Structural, Debug)]
pub enum CacheAction {
    Probe,
    Download,
    Promote,
    RemoveTemp,
    Done,
}

/// What the driver observed when it performed the action.
#[derive(Clone, Copy, PartialEq, Eq, Structural, Debug)]
pub enum CacheEvent {
    Probed(bool),
    FetchOk,
    FetchFailed(FetchFailure),
    PromoteOk,
    PromoteFailed,
    TempRemoved,
}

pub open spec fn cache_action_of(s: CacheState) -> CacheAction {
    match s {
        CacheState::Probe => CacheAction::Probe,
        CacheState::Fetch => CacheAction::Download,
        CacheState::Promote => CacheAction::Promote,
        CacheState::Cleanup(_) => CacheAction::RemoveTemp,
        CacheState::Ready { .. } => CacheAction::Done,
        CacheState::Failed(_) => CacheAction::Done,
    }
}

/// Which observations can answer the pending action.
pub open spec fn cache_event_fits(s: CacheState, e: CacheEvent) -> bool {
    match (s, e) {
        (CacheState::Probe, CacheEvent::Probed(_)) => true,
        (CacheState::Fetch, CacheEvent::FetchOk) => true,
        (CacheState::Fetch, CacheEvent::FetchFailed(_)) => true,
        (CacheState::Promote, CacheEvent::PromoteOk) => true,
        (CacheState::Promote, CacheEvent::PromoteFailed) => true,
        (CacheState::Cleanup(_), CacheEvent::TempRemoved) => true,
        _ => false,
    }
}

pub open spec fn cache_next(s: CacheState, e: CacheEvent) -> CacheState {
    match (s, e) {
        (CacheState::Probe, CacheEvent::Probed(true)) => CacheState::Ready { hit: true },
        (CacheState::Probe, CacheEvent::Probed(false)) => CacheState::Fetch,
        (CacheState::Fetch, CacheEvent::FetchOk) => CacheState::Promote,
        (CacheState::Fetch, CacheEvent::FetchFailed(f)) => CacheState::Cleanup(f),
        (CacheState::Promote, CacheEvent::PromoteOk) => CacheState::Ready { hit: false },
        (CacheState::Promote, CacheEvent::PromoteFailed) => CacheState::Failed(
            CacheError::PromoteFailed,
        ),
        (CacheState::Cleanup(f), CacheEvent::TempRemoved) => CacheState::Failed(
            CacheError::Fetch(f),
        ),
        _ => s,
    }
}

/// What the filesystem may look like after the action a correct driver
/// performed to produce the event. `served` is what the origin serves
/// for the URL; a failed fetch may leave any partial bytes at the
/// transient path, or none.
pub open spec fn cache_event_effect(
    m0: DiskModel,
    m1: DiskModel,
    temp: Seq<char>,
    fin: Seq<char>,
    e: CacheEvent,
    served: Seq<u8>,
) -> bool {
    match e {
        CacheEvent::Probed(b) => m1 == m0 && (b <==> m0.has_file(fin)),
        CacheEvent::FetchOk => m1 == m0.write_file(temp, served),
        CacheEvent::FetchFailed(_) => m1 == m0 || (exists|partial: Seq<u8>|
            m1 == m0.write_file(temp, partial)),
        CacheEvent::PromoteOk => m0.has_file(temp) && m1 == m0.rename_file(temp, fin),
        CacheEvent::PromoteFailed => m1 == m0,
        CacheEvent::TempRemoved => m1 == m0.remove_file(temp),
    }
}

/// One `get_or_fetch` of a URL through the content-addressed cache.
/// The driver repeatedly asks for `action`, performs it on the real
/// filesystem and network, and reports the outcome through `step`.
pub struct CacheFetch {
    pub url: String,
    pub final_path: String,
    pub temp_path: String,
    pub state: CacheState,
}

impl CacheFetch {
    /// The paths are the ones the cache layout prescribes for the URL.
    pub open spec fn wf(self, root: Seq<char>) -> bool {
        self.final_path@ == final_path_spec(root, self.url@) && self.temp_path@ == temp_path_spec(
            root,
            self.url@,
        )
    }

    pub fn new(root: &str, url: &str) -> (c: CacheFetch)
        ensures
            c.wf(root@),
            c.url@ == url@,
            c.state == CacheState::Probe,
    {
        CacheFetch {
            url: url.to_owned(),
            final_path: final_path(root, url),
            temp_path: temp_path(root, url),
            state: CacheState::Probe,
        }
    }

    pub fn action(&self) -> (a: CacheAction)
        ensures
            a == cache_action_of(self.state),
    {
        match self.state {
            CacheState::Probe => CacheAction::Probe,
            CacheState::Fetch => CacheAction::Download,
            CacheState::Promote => CacheAction::Promote,
            CacheState::Cleanup(_) => CacheAction::RemoveTemp,
            CacheState::Ready { .. } => CacheAction::Done,
            CacheState::Failed(_) => CacheAction::Done,
        }
    }

    pub fn step(&mut self, e: CacheEvent)
        requires
            cache_event_fits(old(self).state, e),
        ensures
            final(self).state == cache_next(old(self).state, e),
            final(self).url == old(self).url,
            final(self).final_path == old(self).final_path,
            final(self).temp_path == old(self).temp_path,
    {
        let next = match (self.state, e) {
            (CacheState::Probe, CacheEvent::Probed(true)) => CacheState::Ready { hit: true },
            (CacheState::Probe, CacheEvent::Probed(false)) => CacheState::Fetch,
            (CacheState::Fetch, CacheEvent::FetchOk) => CacheState::Promote,
            (CacheState::Fetch, CacheEvent::FetchFailed(f)) => CacheState::Cleanup(f),
            (CacheState::Promote, CacheEvent::PromoteOk) => CacheState::Ready { hit: false },
            (CacheState::Promote, CacheEvent::PromoteFailed) => CacheState::Failed(
                CacheError::PromoteFailed,
            ),
            (CacheState::Cleanup(f), CacheEvent::TempRemoved) => CacheState::Failed(
                CacheError::Fetch(f),
            ),
            (s, _) => s,
        };
        self.state = next;
    }

    /// The human-visible notice a hit emits in place of a download.
    pub fn skip_notice(&self) -> (s: String)
        ensures
            s@ == self.final_path@ + " already exists, skipping download"@,
    {
        let mut s = self.final_path.clone();
        s.append(" already exists, skipping download");
        s
    }
}

/// How many downloads a run performs: the number of steps taken from
/// the fetch state.
pub open spec fn fetch_count(s0: CacheState, events: Seq<CacheEvent>) -> nat
    decreases events.len(),
{
    if events.len() == 0 {
        0
    } else {
        (if s0 is Fetch {
            1nat
        } else {
            0nat
        }) + fetch_count(cache_next(s0, events[0]), events.drop_first())
    }
}

/// The end state of a run.
pub open spec fn run_end(s0: CacheState, events: Seq<CacheEvent>) -> CacheState
    decreases events.len(),
{
    if events.len() == 0 {
        s0
    } else {
        run_end(cache_next(s0, events[0]), events.drop_first())
    }
}

/// Atomicity: a run that misses, downloads and promotes ends ready,
/// leaves exactly the served bytes at the final path, and leaves no
/// transient file behind.
pub proof fn lemma_fetch_success_atomic(
    m0: DiskModel,
    m1: DiskModel,
    m2: DiskModel,
    m3: DiskModel,
    root: Seq<char>,
    url: Seq<char>,
    served: Seq<u8>,
)
    requires
        cache_event_effect(
            m0,
            m1,
            temp_path_spec(root, url),
            final_path_spec(root, url),
            CacheEvent::Probed(false),
            served,
        ),
        cache_event_effect(
            m1,
            m2,
            temp_path_spec(root, url),
            final_path_spec(root, url),
            CacheEvent::FetchOk,
            served,
        ),
        cache_event_effect(
            m2,
            m3,
            temp_path_spec(root, url),
            final_path_spec(root, url),
            CacheEvent::PromoteOk,
            served,
        ),
    ensures
        run_end(
            CacheState::Probe,
            seq![CacheEvent::Probed(false), CacheEvent::FetchOk, CacheEvent::PromoteOk],
        ) == (CacheState::Ready { hit: false }),
        !m3.has_file(temp_path_spec(root, url)),
        m3.has_file(final_path_spec(root, url)),
        m3.file_at(final_path_spec(root, url)) == served,
{
    lemma_paths_distinct(root, url);
    let es = seq![CacheEvent::Probed(false), CacheEvent::FetchOk, CacheEvent::PromoteOk];
    lemma_run_end_three(CacheState::Probe, es);
}

/// Unfolds a three-event run.
proof fn lemma_run_end_three(s0: CacheState, es: Seq<CacheEvent>)
    requires
        es.len() == 3,
    ensures
        run_end(s0, es) == cache_next(cache_next(cache_next(s0, es[0]), es[1]), es[2]),
        fetch_count(s0, es) == (if s0 is Fetch {
            1nat
        } else {
            0nat
        }) + (if cache_next(s0, es[0]) is Fetch {
            1nat
        } else {
            0nat
        }) + (if cache_next(cache_next(s0, es[0]), es[1]) is Fetch {
            1nat
        } else {
            0nat
        }),
{
    let s1 = cache_next(s0, es[0]);
    let s2 = cache_next(s1, es[1]);
    let s3 = cache_next(s2, es[2]);
    let t1 = es.drop_first();
    let t2 = t1.drop_first();
    let t3 = t2.drop_first();
    assert(t1[0] == es[1] && t2[0] == es[2]);
    assert(t3.len() == 0);
    assert(run_end(s0, es) == run_end(s1, t1));
    assert(run_end(s1, t1) == run_end(s2, t2));
    assert(run_end(s2, t2) == run_end(s3, t3));
    assert(run_end(s3, t3) == s3);
    assert(fetch_count(s3, t3) == 0);
    assert(fetch_count(s0, es) == (if s0 is Fetch {
        1nat
    } else {
        0nat
    }) + fetch_count(s1, t1));
    assert(fetch_count(s1, t1) == (if s1 is Fetch {
        1nat
    } else {
        0nat
    }) + fetch_count(s2, t2));
    assert(fetch_count(s2, t2) == (if s2 is Fetch {
        1nat
    } else {
        0nat
    }) + fetch_count(s3, t3));
}

/// Unfolds a one-event run.
proof fn lemma_run_end_one(s0: CacheState, es: Seq<CacheEvent>)
    requires
        es.len() == 1,
    ensures
        run_end(s0, es) == cache_next(s0, es[0]),
        fetch_count(s0, es) == (if s0 is Fetch {
            1nat
        } else {
            0nat
        }),
{
    let t1 = es.drop_first();
    assert(t1.len() == 0);
    assert(run_end(s0, es) == run_end(cache_next(s0, es[0]), t1));
    assert(fetch_count(cache_next(s0, es[0]), t1) == 0);
}

/// Failure cleanliness: a run that misses and then fails its fetch ends
/// failed with that fetch error, and leaves neither the final file nor
/// the transient file behind.
pub proof fn lemma_fetch_failure_clean(
    m0: DiskModel,
    m1: DiskModel,
    m2: DiskModel,
    m3: DiskModel,
    root: Seq<char>,
    url: Seq<char>,
    served: Seq<u8>,
    f: FetchFailure,
)
    requires
        cache_event_effect(
            m0,
            m1,
            temp_path_spec(root, url),
            final_path_spec(root, url),
            CacheEvent::Probed(false),
            served,
        ),
        cache_event_effect(
            m1,
            m2,
            temp_path_spec(root, url),
            final_path_spec(root, url),
            CacheEvent::FetchFailed(f),
            served,
        ),
        cache_event_effect(
            m2,
            m3,
            temp_path_spec(root, url),
            final_path_spec(root, url),
            CacheEvent::TempRemoved,
            served,
        ),
    ensures
        run_end(
            CacheState::Probe,
            seq![CacheEvent::Probed(false), CacheEvent::FetchFailed(f), CacheEvent::TempRemoved],
        ) == CacheState::Failed(CacheError::Fetch(f)),
        !m3.has_file(temp_path_spec(root, url)),
        !m3.has_file(final_path_spec(root, url)),
{
    lemma_paths_distinct(root, url);
    let es = seq![CacheEvent::Probed(false), CacheEvent::FetchFailed(f), CacheEvent::TempRemoved];
    lemma_run_end_three(CacheState::Probe, es);
}

/// Idempotent cache reuse: the successful first run downloads exactly
/// once and leaves the final file in place; a second run of the same
/// URL can only probe a hit, downloads zero times, and changes nothing.
pub proof fn lemma_second_run_no_download(
    m0: DiskModel,
    m1: DiskModel,
    m2: DiskModel,
    m3: DiskModel,
    root: Seq<char>,
    url: Seq<char>,
    served: Seq<u8>,
)
    requires
        cache_event_effect(
            m0,
            m1,
            temp_path_spec(root, url),
            final_path_spec(root, url),
            CacheEvent::Probed(false),
            served,
        ),
        cache_event_effect(
            m1,
            m2,
            temp_path_spec(root, url),
            final_path_spec(root, url),
            CacheEvent::FetchOk,
            served,
        ),
        cache_event_effect(
            m2,
            m3,
            temp_path_spec(root, url),
            final_path_spec(root, url),
            CacheEvent::PromoteOk,
            served,
        ),
    ensures
        fetch_count(
            CacheState::Probe,
            seq![CacheEvent::Probed(false), CacheEvent::FetchOk, CacheEvent::PromoteOk],
        ) == 1,
        forall|b: bool, m4: DiskModel|
            cache_event_effect(
                m3,
                m4,
                temp_path_spec(root, url),
                final_path_spec(root, url),
                CacheEvent::Probed(b),
                served,
            ) ==> b == true && m4 == m3,
        cache_next(CacheState::Probe, CacheEvent::Probed(true)) == (CacheState::Ready {
            hit: true,
        }),
        fetch_count(CacheState::Probe, seq![CacheEvent::Probed(true)]) == 0,
{
    lemma_fetch_success_atomic(m0, m1, m2, m3, root, url, served);
    let es = seq![CacheEvent::Probed(false), CacheEvent::FetchOk, CacheEvent::PromoteOk];
    lemma_run_end_three(CacheState::Probe, es);
    let e1 = seq![CacheEvent::Probed(true)];
    lemma_run_end_one(CacheState::Probe, e1);
}

} // verus!
