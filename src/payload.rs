//! Where the language server lies in a package of the feed, and how it is
//! launched.
//!
//! A package holds `tools/{tfm}/{rid}/{name}` with exactly one target-framework
//! folder `{tfm}`. The runtime identifier `{rid}` names the platform; the
//! platform-neutral `any` holds a managed payload (`{name}.dll`) that a .NET host
//! runs, a Windows identifier an `{name}.exe`, and the others a bare `{name}`.

use vstd::prelude::*;
use crate::error::AcquireError;
use crate::locate::{join, join_path};
use crate::platform::{Architecture, Os};
use crate::text::{starts_with, starts_with_spec, views};

verus! {

/// The runtime identifier for platforms the feed has no build of.
pub const NEUTRAL_RID: &'static str = "any";

/// A located server binary, tagged with how it must be launched.
#[derive(Debug)]
pub enum ServerPath {
    /// Launched directly.
    Executable(String),
    /// Launched through the .NET host.
    ManagedPayload(String),
}

/// The runtime identifier of a platform in the package feed; `any` where the
/// feed has no platform build, such as 32-bit x86.
pub open spec fn rid_spec(os: Os, arch: Architecture) -> Seq<char> {
    match (os, arch) {
        (Os::Linux, Architecture::X8664) => "linux-x64"@,
        (Os::Linux, Architecture::Aarch64) => "linux-arm64"@,
        (Os::Mac, Architecture::X8664) => "osx-x64"@,
        (Os::Mac, Architecture::Aarch64) => "osx-arm64"@,
        (Os::Windows, Architecture::X8664) => "win-x64"@,
        (Os::Windows, Architecture::Aarch64) => "win-arm64"@,
        _ => NEUTRAL_RID@,
    }
}

pub fn runtime_identifier(os: Os, arch: Architecture) -> (r: &'static str)
    ensures
        r@ == rid_spec(os, arch),
{
    match (os, arch) {
        (Os::Linux, Architecture::X8664) => "linux-x64",
        (Os::Linux, Architecture::Aarch64) => "linux-arm64",
        (Os::Mac, Architecture::X8664) => "osx-x64",
        (Os::Mac, Architecture::Aarch64) => "osx-arm64",
        (Os::Windows, Architecture::X8664) => "win-x64",
        (Os::Windows, Architecture::Aarch64) => "win-arm64",
        _ => NEUTRAL_RID,
    }
}

/// The server binary of a package, from the folders inside its `tools` folder.
pub open spec fn payload_spec(tools_dir: Seq<char>, folders: Seq<Seq<char>>, rid: Seq<char>, name: Seq<char>) -> Option<(bool, Seq<char>)> {
    if folders.len() != 1 {
        None
    } else {
        let dir = join_path(join_path(tools_dir, folders[0]), rid);
        if rid == NEUTRAL_RID@ {
            Some((true, join_path(dir, name + ".dll"@)))
        } else if starts_with_spec(rid, "win"@) {
            Some((false, join_path(dir, name + ".exe"@)))
        } else {
            Some((false, join_path(dir, name)))
        }
    }
}

/// Finds the binary named `name` for runtime identifier `rid` under
/// `tools_dir`, whose folders are `folders`. There must be exactly one folder;
/// otherwise the error names `tools_dir`.
pub fn locate_payload(tools_dir: &str, folders: &Vec<String>, rid: &str, name: &str) -> (r: Result<ServerPath, AcquireError>)
    ensures
        r is Ok <==> folders@.len() == 1,
        r matches Ok(p) ==> payload_spec(tools_dir@, views(folders@), rid@, name@) == Some(
            match p {
                ServerPath::Executable(s) => (false, s@),
                ServerPath::ManagedPayload(s) => (true, s@),
            },
        ),
        r matches Err(e) ==> (e matches AcquireError::BinaryNotFoundAfterExtraction { name: n, root }
            && n@ == name@ && root@ == tools_dir@),
{
    if folders.len() != 1 {
        return Err(
            AcquireError::BinaryNotFoundAfterExtraction {
                name: String::from_str(name),
                root: String::from_str(tools_dir),
            },
        );
    }
    let tfm_dir = join(tools_dir, folders[0].as_str());
    let dir = join(tfm_dir.as_str(), rid);
    let neutral = String::from_str(rid) == String::from_str(NEUTRAL_RID);
    if neutral {
        let file = String::from_str(name).concat(".dll");
        Ok(ServerPath::ManagedPayload(join(dir.as_str(), file.as_str())))
    } else if starts_with(rid, "win") {
        let file = String::from_str(name).concat(".exe");
        Ok(ServerPath::Executable(join(dir.as_str(), file.as_str())))
    } else {
        Ok(ServerPath::Executable(join(dir.as_str(), name)))
    }
}

} // verus!
