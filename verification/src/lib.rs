//! Asset-pipeline core of a web-application bundler.
//!
//! Build directives extracted from an HTML document are routed to the
//! pipeline that understands them.  The crate provides the capability
//! contract every pipeline implements ([`Asset`] and [`Output`]), the
//! fallback-chaining combinator that lets two pipelines compete for the
//! same input ([`Chain`]), and one concrete pipeline, [`CopyDir`], which
//! copies a directory into the build's output tree.
//!
//! The pipelines themselves are pure: they decide against an explicit
//! model of the directory tree ([`Disk`]) and record the copy operations
//! they perform, so every rule — matching, validation, path safety,
//! ordering of batch results — is stated in a contract and proved.  An
//! unverified shell performs the recorded operations on the real
//! filesystem.

pub mod asset;
pub mod chain;
pub mod common;
pub mod copy_dir;
pub mod disk;
pub mod document;
pub mod error;
pub mod input;
pub mod path;

pub use asset::{Asset, Output};
pub use chain::{Chain, ChainOutput};
pub use common::parse_public_url;
pub use copy_dir::{BuildConfig, CopyDir, CopyDirConfig, CopyDirOutput};
pub use disk::{Disk, DiskEntry};
pub use document::Document;
pub use error::Error;
pub use input::AssetInput;
pub use path::DirPath;
