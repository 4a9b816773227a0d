//! The rules of the BookOS package store: the catalogue of applications, the package managers, the
//! commands that change the system, downloads and their progress.
//!
//! Every function here computes on plain values. Reading files, running programs and showing the
//! window is left to the application around it.

pub mod catalog;
pub mod download;
pub mod icons;
pub mod json;
pub mod ops;
pub mod packages;
pub mod pm;
pub mod privileged;
pub mod process;
pub mod sha256;
pub mod text;
pub mod theme;
