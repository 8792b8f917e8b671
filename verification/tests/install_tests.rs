use rv::cache::{cache_key, CacheAction, CacheError, CacheEvent, CacheFetch, CacheState, FetchFailure};
use rv::extract::{ArchiveInstall, ExtractAction, ExtractError, ExtractEvent, ExtractState};
use rv::installer::{plan_source, InstallSource};
use rv::platform::PlatformTag;
use rv::version::RubyVersion;
use std::collections::{HashMap, HashSet};

/// Drives one `get_or_fetch` against an in-memory filesystem, playing
/// the part of the unverified I/O layer; returns how many downloads
/// were performed.
fn run_cache(
    files: &mut HashMap<String, Vec<u8>>,
    cache: &mut CacheFetch,
    origin: &Result<Vec<u8>, FetchFailure>,
) -> usize {
    let mut downloads = 0;
    loop {
        match cache.action() {
            CacheAction::Probe => {
                let hit = files.contains_key(cache.final_path.as_str());
                cache.step(CacheEvent::Probed(hit));
            }
            CacheAction::Download => {
                downloads += 1;
                match origin {
                    Ok(bytes) => {
                        files.insert(cache.temp_path.clone(), bytes.clone());
                        cache.step(CacheEvent::FetchOk);
                    }
                    Err(f) => {
                        if matches!(f, FetchFailure::Interrupted) {
                            files.insert(cache.temp_path.clone(), b"par".to_vec());
                        }
                        cache.step(CacheEvent::FetchFailed(*f));
                    }
                }
            }
            CacheAction::Promote => {
                let bytes = files.remove(cache.temp_path.as_str()).unwrap();
                files.insert(cache.final_path.clone(), bytes);
                cache.step(CacheEvent::PromoteOk);
            }
            CacheAction::RemoveTemp => {
                files.remove(cache.temp_path.as_str());
                cache.step(CacheEvent::TempRemoved);
            }
            CacheAction::Done => return downloads,
        }
    }
}

/// Drives one extraction; `valid` says whether the archive unpacks.
fn run_extract(dirs: &mut HashSet<String>, x: &mut ArchiveInstall, valid: bool) {
    loop {
        match x.action() {
            ExtractAction::Unpack => {
                if valid {
                    dirs.insert(x.staging.clone());
                    x.step(ExtractEvent::UnpackOk);
                } else {
                    dirs.insert(x.staging.clone());
                    x.step(ExtractEvent::UnpackFailed);
                }
            }
            ExtractAction::PromoteDir => {
                dirs.remove(x.staging.as_str());
                dirs.insert(x.install_dir.clone());
                x.step(ExtractEvent::PromoteOk);
            }
            ExtractAction::RemoveStaging => {
                dirs.remove(x.staging.as_str());
                x.step(ExtractEvent::StagingRemoved);
            }
            ExtractAction::Done => return,
        }
    }
}

fn mock_tarball() -> Vec<u8> {
    b"mock gzip tarball bytes".to_vec()
}

#[test]
fn test_ruby_install_successful_download() {
    let cache_dir = "/tmp-test/cache";
    let url = "http://origin.test/latest/download/ruby-3.4.5.arm64_sonoma.tar.gz";
    let tarball_content = mock_tarball();

    let mut files: HashMap<String, Vec<u8>> = HashMap::new();
    let mut cache = CacheFetch::new(cache_dir, url);
    run_cache(&mut files, &mut cache, &Ok(tarball_content.clone()));
    assert!(matches!(cache.state, CacheState::Ready { hit: false }));

    let key = cache_key(url);
    let tarball_path = format!("{}/ruby-v0/tarballs/{}.tar.gz", cache_dir, key.as_str());
    let temp_path = format!("{}/ruby-v0/tarballs/{}.tar.gz.tmp", cache_dir, key.as_str());
    assert!(files.contains_key(&tarball_path), "Tarball should be cached");
    assert!(
        !files.contains_key(&temp_path),
        "Temp file should not exist after successful download"
    );
    let cached_content = files.get(&tarball_path).expect("Should be able to read cached tarball");
    assert_eq!(
        cached_content, &tarball_content,
        "Cached content should match downloaded content"
    );
}

#[test]
fn test_ruby_install_from_tarball() {
    let tarball_path = "/tmp-test/ruby-3.4.5.arm64_sonoma.tar.gz";
    let v = RubyVersion::new(3, 4, 5);
    let source = plan_source(
        Some(tarball_path.to_owned()),
        "http://origin.test",
        &v,
        PlatformTag::Arm64Sonoma,
    );
    let local = match source {
        InstallSource::Local(p) => p,
        InstallSource::Remote(_) => panic!("a supplied tarball must skip the remote pipeline"),
    };
    assert_eq!(local.as_str(), tarball_path);

    let mut dirs: HashSet<String> = HashSet::new();
    let mut x = ArchiveInstall::new(local.as_str(), "/tmp-test/rubies/3.4.5/arm64_sonoma");
    run_extract(&mut dirs, &mut x, true);
    assert!(matches!(x.state, ExtractState::Ready));
    assert!(dirs.contains("/tmp-test/rubies/3.4.5/arm64_sonoma"));
}

#[test]
fn test_ruby_install_http_failure_no_empty_file() {
    let cache_dir = "/tmp-test/cache";
    let url = "http://origin.test/portable-ruby-3.4.5.arm64_sonoma.bottle.tar.gz";

    let mut files: HashMap<String, Vec<u8>> = HashMap::new();
    let mut cache = CacheFetch::new(cache_dir, url);
    run_cache(
        &mut files,
        &mut cache,
        &Err(FetchFailure::HttpStatus(404)),
    );
    assert!(matches!(cache.state, CacheState::Failed(_)));

    let key = cache_key(url);
    let tarball_path = format!("{}/ruby-v0/tarballs/{}.tar.gz", cache_dir, key.as_str());
    let temp_path = format!("{}/ruby-v0/tarballs/{}.tar.gz.tmp", cache_dir, key.as_str());
    assert!(
        !files.contains_key(&tarball_path),
        "No tarball should be created on HTTP failure"
    );
    assert!(
        !files.contains_key(&temp_path),
        "No temp file should remain on HTTP failure"
    );
}

#[test]
fn test_ruby_install_interrupted_download_cleanup() {
    let cache_dir = "/tmp-test/cache";
    let url = "http://origin.test/latest/download/ruby-3.4.5.arm64_sonoma.tar.gz";

    // The origin serves the short body whole: the download itself
    // succeeds and is cached; the content is somebody else's problem.
    let mut files: HashMap<String, Vec<u8>> = HashMap::new();
    let mut cache = CacheFetch::new(cache_dir, url);
    run_cache(&mut files, &mut cache, &Ok(b"partial".to_vec()));

    let key = cache_key(url);
    let tarball_path = format!("{}/ruby-v0/tarballs/{}.tar.gz", cache_dir, key.as_str());
    let temp_path = format!("{}/ruby-v0/tarballs/{}.tar.gz.tmp", cache_dir, key.as_str());
    assert!(
        files.contains_key(&tarball_path),
        "Tarball should exist at {} after successful download",
        tarball_path
    );

    // A transfer that breaks off mid-body leaves partial temp bytes; the
    // cleanup step must remove them.
    let mut files2: HashMap<String, Vec<u8>> = HashMap::new();
    let mut cache2 = CacheFetch::new(cache_dir, url);
    run_cache(&mut files2, &mut cache2, &Err(FetchFailure::Interrupted));
    assert!(
        !files2.contains_key(&temp_path),
        "No temp file should remain at {} after failure",
        temp_path
    );
}

#[test]
fn test_ruby_install_cached_file_reused() {
    let cache_dir = "/tmp-test/cache";
    let url = "http://origin.test/latest/download/ruby-3.4.5.arm64_sonoma.tar.gz";
    let origin = Ok(mock_tarball());

    let mut files: HashMap<String, Vec<u8>> = HashMap::new();
    let mut first = CacheFetch::new(cache_dir, url);
    let downloads1 = run_cache(&mut files, &mut first, &origin);
    assert!(matches!(first.state, CacheState::Ready { hit: false }));

    let mut second = CacheFetch::new(cache_dir, url);
    let downloads2 = run_cache(&mut files, &mut second, &origin);
    assert!(matches!(second.state, CacheState::Ready { hit: true }));
    assert_eq!(downloads1 + downloads2, 1, "exactly one download across both installs");

    let notice = second.skip_notice();
    assert!(notice.as_str().contains("already exists, skipping download"));
}

#[test]
fn test_ruby_install_invalid_url() {
    let cache_dir = "/tmp-test/cache";
    let url =
        "http://invalid-url-that-does-not-exist.com/portable-ruby-3.4.5.arm64_sonoma.bottle.tar.gz";

    let mut files: HashMap<String, Vec<u8>> = HashMap::new();
    let mut cache = CacheFetch::new(cache_dir, url);
    run_cache(&mut files, &mut cache, &Err(FetchFailure::ConnectionError));
    assert!(matches!(cache.state, CacheState::Failed(_)));
    assert!(
        files.is_empty(),
        "No files should be created in tarballs directory"
    );
}

#[test]
fn test_ruby_install_atomic_rename_behavior() {
    let cache_dir = "/tmp-test/cache";
    let url = "http://origin.test/latest/download/ruby-3.4.5.arm64_sonoma.tar.gz";
    let tarball_content = mock_tarball();

    let mut files: HashMap<String, Vec<u8>> = HashMap::new();
    let mut cache = CacheFetch::new(cache_dir, url);
    run_cache(&mut files, &mut cache, &Ok(tarball_content.clone()));

    let key = cache_key(url);
    let tarball_path = format!("{}/ruby-v0/tarballs/{}.tar.gz", cache_dir, key.as_str());
    assert!(files.contains_key(&tarball_path), "Final tarball should exist");
    let content = files.get(&tarball_path).expect("Should be able to read tarball");
    assert!(!content.is_empty(), "Tarball should not be empty");
    assert_eq!(content, &tarball_content, "Content should match exactly");
}

#[test]
fn test_ruby_install_temp_file_cleanup_on_extraction_failure() {
    let cache_dir = "/tmp-test/cache";
    let url = "http://origin.test/download/3.4.5/portable-ruby-3.4.5.arm64_sonoma.bottle.tar.gz";

    let mut files: HashMap<String, Vec<u8>> = HashMap::new();
    let mut cache = CacheFetch::new(cache_dir, url);
    run_cache(&mut files, &mut cache, &Ok(b"invalid-tarball-content".to_vec()));
    assert!(matches!(cache.state, CacheState::Ready { hit: false }));

    let key = cache_key(url);
    let tarball_path = format!("{}/ruby-v0/tarballs/{}.tar.gz", cache_dir, key.as_str());
    let temp_path = format!("{}/ruby-v0/tarballs/{}.tar.gz.tmp", cache_dir, key.as_str());

    let mut dirs: HashSet<String> = HashSet::new();
    let install_dir = "/tmp-test/rubies/3.4.5/arm64_sonoma";
    let mut x = ArchiveInstall::new(tarball_path.as_str(), install_dir);
    run_extract(&mut dirs, &mut x, false);

    assert!(matches!(x.state, ExtractState::Failed(_)));
    assert!(!files.contains_key(&temp_path), "Temp file should be cleaned up");
    assert!(
        files.contains_key(&tarball_path),
        "the fully downloaded archive stays cached"
    );
    assert!(!dirs.contains(install_dir), "no install directory appears");
    assert!(!dirs.contains(x.staging.as_str()), "staging is removed");
}

#[test]
fn cache_promote_failure_is_reported() {
    let mut cache = CacheFetch::new("/tmp-test/cache", "http://origin.test/a.tar.gz");
    cache.step(CacheEvent::Probed(false));
    cache.step(CacheEvent::FetchOk);
    cache.step(CacheEvent::PromoteFailed);
    assert!(matches!(
        cache.state,
        CacheState::Failed(CacheError::PromoteFailed)
    ));
}

#[test]
fn extract_promote_failure_is_reported() {
    let mut x = ArchiveInstall::new("/tmp-test/a.tar.gz", "/tmp-test/rubies/3.4.5/ventura");
    x.step(ExtractEvent::UnpackOk);
    x.step(ExtractEvent::PromoteFailed);
    assert!(matches!(x.state, ExtractState::Failed(ExtractError::PromoteFailed)));
}

#[test]
fn http_failure_error_carries_the_status() {
    let mut cache = CacheFetch::new("/tmp-test/cache", "http://origin.test/a.tar.gz");
    cache.step(CacheEvent::Probed(false));
    cache.step(CacheEvent::FetchFailed(FetchFailure::HttpStatus(404)));
    cache.step(CacheEvent::TempRemoved);
    assert!(matches!(
        cache.state,
        CacheState::Failed(CacheError::Fetch(FetchFailure::HttpStatus(404)))
    ));
}

#[test]
fn install_scenario_end_to_end() {
    // Request 3.4.5 on a clean cache: one download of the
    // platform-specific URL, the tarball published under the versioned
    // cache layout, the runtime extracted; the repeat downloads nothing
    // and reports the skip notice.
    let base = "http://origin.test/releases";
    let v = RubyVersion::new(3, 4, 5);
    let tag = PlatformTag::X8664Linux;
    let source = plan_source(None, base, &v, tag);
    let release = match source {
        InstallSource::Remote(r) => r,
        InstallSource::Local(_) => panic!("no tarball override was supplied"),
    };
    assert_eq!(
        release.url.as_str(),
        "http://origin.test/releases/portable-ruby-3.4.5.x86_64_linux.bottle.tar.gz"
    );

    let cache_dir = "/tmp-test/cache";
    let mut files: HashMap<String, Vec<u8>> = HashMap::new();
    let mut first = CacheFetch::new(cache_dir, release.url.as_str());
    let downloads1 = run_cache(&mut files, &mut first, &Ok(mock_tarball()));
    assert_eq!(downloads1, 1);
    let key = cache_key(release.url.as_str());
    let tarball_path = format!("{}/ruby-v0/tarballs/{}.tar.gz", cache_dir, key.as_str());
    assert!(files.contains_key(&tarball_path));

    let install_dir = rv::installer::install_dir_for("/opt/rubies", &v, tag);
    let mut dirs: HashSet<String> = HashSet::new();
    let mut x = ArchiveInstall::new(tarball_path.as_str(), install_dir.as_str());
    run_extract(&mut dirs, &mut x, true);
    assert!(matches!(x.state, ExtractState::Ready));
    assert!(dirs.contains("/opt/rubies/3.4.5/x86_64_linux"));

    let mut second = CacheFetch::new(cache_dir, release.url.as_str());
    let downloads2 = run_cache(&mut files, &mut second, &Ok(mock_tarball()));
    assert_eq!(downloads2, 0, "the repeat run downloads nothing");
    assert!(second
        .skip_notice()
        .as_str()
        .contains("already exists, skipping download"));
}

#[test]
fn cache_paths_follow_the_versioned_layout() {
    let url = "http://origin.test/a.tar.gz";
    let cache = CacheFetch::new("/var/cache/rv", url);
    let key = cache_key(url);
    assert_eq!(
        cache.final_path.as_str(),
        format!("/var/cache/rv/ruby-v0/tarballs/{}.tar.gz", key.as_str())
    );
    assert_eq!(
        cache.temp_path.as_str(),
        format!("/var/cache/rv/ruby-v0/tarballs/{}.tar.gz.tmp", key.as_str())
    );
}
