//! The shared failure taxonomy.
//!
//! One kind, [`Error::AssetNotMatched`], is control flow rather than
//! failure: it tells a dispatcher that the pipeline does not own the
//! input, and hands the input back untouched so another pipeline can be
//! tried.  Every other kind is a genuine failure and is never retried.

use crate::input::{AssetInput, AssetInputView};
use crate::path::{DirPath, PathView};
use vstd::prelude::*;

verus! {

/// The abstract value of an [`Error`].
pub enum ErrorView {
    AssetNotMatched { input: AssetInputView },
    HrefNotFound { rel: Seq<char> },
    FsNotExist { path: PathView },
    PathNoFileStem { path: PathView },
    TargetPathEscapes { path: PathView },
    TaskFailed,
}

/// Why a pipeline refused or failed an input.
#[derive(Debug)]
pub enum Error {
    /// The input's kind discriminator belongs to no pipeline asked so
    /// far; the input rides along so the next candidate can take it.
    AssetNotMatched { input: AssetInput },
    /// The directive matched but its required source attribute is
    /// missing; `rel` names the kind that required it.
    HrefNotFound { rel: String },
    /// The source path does not exist.
    FsNotExist { path: DirPath },
    /// The source path has no final segment to name the copy after.
    PathNoFileStem { path: DirPath },
    /// The target path would land outside the output directory.
    TargetPathEscapes { path: DirPath },
    /// A spawned build task failed to run to completion.
    TaskFailed,
}

impl View for Error {
    type V = ErrorView;

    open spec fn view(&self) -> ErrorView {
        match self {
            Error::AssetNotMatched { input } => ErrorView::AssetNotMatched { input: input@ },
            Error::HrefNotFound { rel } => ErrorView::HrefNotFound { rel: rel@ },
            Error::FsNotExist { path } => ErrorView::FsNotExist { path: path@ },
            Error::PathNoFileStem { path } => ErrorView::PathNoFileStem { path: path@ },
            Error::TargetPathEscapes { path } => ErrorView::TargetPathEscapes { path: path@ },
            Error::TaskFailed => ErrorView::TaskFailed,
        }
    }
}

impl Error {
    /// A short name for the error's kind.
    pub fn kind_name(&self) -> (r: &'static str)
        ensures
            r@ == match self@ {
                ErrorView::AssetNotMatched { .. } => "asset not matched"@,
                ErrorView::HrefNotFound { .. } => "required href attribute not found"@,
                ErrorView::FsNotExist { .. } => "path does not exist"@,
                ErrorView::PathNoFileStem { .. } => "path has no file stem"@,
                ErrorView::TargetPathEscapes { .. } => "target path escapes the output directory"@,
                ErrorView::TaskFailed => "background task failed"@,
            },
    {
        match self {
            Error::AssetNotMatched { .. } => "asset not matched",
            Error::HrefNotFound { .. } => "required href attribute not found",
            Error::FsNotExist { .. } => "path does not exist",
            Error::PathNoFileStem { .. } => "path has no file stem",
            Error::TargetPathEscapes { .. } => "target path escapes the output directory",
            Error::TaskFailed => "background task failed",
        }
    }
}

} // verus!
