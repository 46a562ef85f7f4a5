//! The platforms the tools run on, and the archive formats they come in.

use vstd::prelude::*;

verus! {

/// Operating systems the host reports.
#[derive(PartialEq, Eq, Structural, Clone, Copy, Debug)]
pub enum Os {
    Mac,
    Linux,
    Windows,
}

/// CPU architectures the host reports.
#[derive(PartialEq, Eq, Structural, Clone, Copy, Debug)]
pub enum Architecture {
    Aarch64,
    X86,
    X8664,
}

/// Archive formats of the downloads.
#[derive(PartialEq, Eq, Structural, Clone, Copy, Debug)]
pub enum ArchiveKind {
    GzipTar,
    Zip,
}

} // verus!
