//! Decides whether a NixOS machine needs a reboot by comparing the store
//! paths that the booted and the pending system profiles point to for a
//! fixed set of modules (the Linux kernel and systemd), extracting the
//! version embedded in each store path, and comparing the two versions
//! segment by segment.
//!
//! The library is pure: reading the symlinks under the system profiles is
//! left to the caller, which hands the resolved targets in as plain values.
//!
//! - [`text`] holds the character-level string machinery: substring search,
//!   splitting, joining, lexicographic order and decimal parsing.
//! - [`compare`] is the version comparator built on it.
//! - [`modules`] names the checkable modules and turns a resolved symlink
//!   target into a store path and a version string.
//! - [`registry`] drives the whole check and aggregates upgrade reasons.

pub mod compare;
pub mod modules;
pub mod registry;
pub mod text;
