//! Registration and version lifecycle engine for self-contained portable
//! application bundles.
//!
//! The library holds the engine's state and rules: a bundle's canonical
//! identity and checksum, the per-application ledger of installed versions
//! with its single active record, the checksum-keyed cache that lets
//! repeated scans skip settled work, the security verdict composed from
//! gathered facts, and the processor decisions that drive a bundle from
//! discovery to publication. Every operation carries a contract, and the
//! engine's laws — one active version, retention that never prunes the
//! active record, a launch command that always targets the stable launcher
//! path — are proved against them.
//!
//! Reading directories, hashing files on disk, invoking a bundle's
//! self-extraction and repointing symlinks are the caller's part; each
//! mutating operation hands back a receipt naming exactly the filesystem
//! work it expects.

pub mod appimage;
pub mod cache;
pub mod checksum;
pub mod clean;
pub mod clock;
pub mod config;
pub mod desktop_entry;
pub mod icon;
pub mod metadata;
pub mod mover;
pub mod normalize;
pub mod processor;
pub mod security;
pub mod status;
pub mod text;
pub mod update;
pub mod version_manager;
