//! Gentoo chroot management: privileged-session handling, chroot command
//! planning, profile and mirror bookkeeping.
use vstd::prelude::*;

pub mod chroot;
pub mod config;
pub mod downloader;
pub mod elevation;
pub mod error;
pub mod mirror;
pub mod order;
pub mod profile;
pub mod session;
pub mod text;

verus! {

} // verus!
