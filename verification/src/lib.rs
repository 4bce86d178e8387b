//! Memory-region bookkeeping for the Trusty VM launcher and its memshare service.

pub mod allocator;
pub mod memshare;
pub mod boot_control;
pub mod launcher;
