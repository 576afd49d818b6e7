//! Core of a clipboard-history capture pipeline: a debounced change monitor,
//! a multi-format content extractor with a raw-bitmap decoder, a fingerprint
//! based duplicate filter, and a multi-locale sensitive-data detector.
//!
//! The surrounding program (OS event loop, persistence, UI) hands this
//! library plain values — raw clipboard format payloads, the foreground
//! application identity, the active locale — and receives classified content
//! records back.

pub mod config;
pub mod dataurl;
pub mod dib;
pub mod domain;
pub mod export;
pub mod extract;
pub mod favicon;
pub mod fingerprint;
pub mod hotkey;
pub mod lru;
pub mod monitor;
pub mod notify;
pub mod sensitive;
pub mod text;
pub mod types;
