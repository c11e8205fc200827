//! Core logic of a cloud-storage materialization service: remote identifiers
//! are expanded to a flat list of file jobs, resolved to short-lived direct
//! download links, and packed into one or more size-bounded ZIP volumes.
//!
//! The modules hold the decision and data logic only; network and file I/O is
//! left to the surrounding application, which feeds plain values in and out.

pub mod archive;
pub mod config;
pub mod credential;
pub mod encoding;
pub mod expand;
pub mod metadata;
pub mod parser;
pub mod resolve;
pub mod share;
pub mod text;
pub mod urlinfo;
pub mod web;
