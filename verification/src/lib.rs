//! A runtime-version manager's core: it resolves a version request
//! against local installations or a remote release catalog, fetches the
//! platform-specific archive through a content-addressed cache with
//! atomic publication, extracts it through a staging directory that is
//! atomically promoted, and removes installations on request. The
//! protocols that touch the network and the disk are verified state
//! machines: an unverified driver performs each prescribed action and
//! reports what it observed, and the proofs state what any such run
//! leaves on disk.

pub mod cache;
pub mod extract;
pub mod fsmodel;
pub mod installer;
pub mod platform;
pub mod resolver;
pub mod uninstall;
pub mod version;
