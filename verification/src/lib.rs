//! Working-directory management, host/container path translation and
//! external-process orchestration for a staged medical-image
//! reconstruction pipeline.
//!
//! The library computes the staged directory layout for one
//! reconstruction job, translates host paths into container paths by
//! prefix substitution, pairs independently scanned file lists through a
//! deterministic lexicographic order, and builds the exact command lines
//! that the surrounding binary hands to the container engine and to the
//! host-native conversion tools.

pub mod archive;
pub mod config;
pub mod filemgr;
pub mod niftymic;
pub mod numfmt;
pub mod ordering;
pub mod outside;
pub mod pathspec;
pub mod spawn;

