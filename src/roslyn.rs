//! The Roslyn language server: which release asset fits the platform, the
//! decisions of acquiring it, and the removal of older installs.

use vstd::prelude::*;
use crate::binary_manager::{asset_selected, select_asset, AdapterVersion, Release};
use crate::error::AcquireError;
use crate::locate::{join, join_path};
use crate::platform::{Architecture, ArchiveKind, Os};
use crate::text::views;

verus! {

/// The release coordinate of the language server.
pub const REPO: &'static str = "SofusA/csharp-language-server";

pub open spec fn server_arch_part(arch: Architecture) -> Seq<char> {
    match arch {
        Architecture::Aarch64 => "aarch64"@,
        _ => "x86_64"@,
    }
}

pub open spec fn server_os_part(os: Os) -> Seq<char> {
    match os {
        Os::Mac => "apple-darwin"@,
        Os::Linux => "unknown-linux-gnu"@,
        Os::Windows => "pc-windows-msvc"@,
    }
}

pub open spec fn server_extension(os: Os) -> Seq<char> {
    match os {
        Os::Mac | Os::Linux => "tar.gz"@,
        Os::Windows => "zip"@,
    }
}

/// The asset of the language server for a platform; none for 32-bit x86.
pub open spec fn server_asset_name(os: Os, arch: Architecture) -> Option<Seq<char>> {
    if arch == Architecture::X86 {
        None
    } else {
        Some(
            "csharp-language-server-"@ + server_arch_part(arch) + "-"@ + server_os_part(os) + "."@
                + server_extension(os),
        )
    }
}

pub open spec fn server_archive(os: Os) -> ArchiveKind {
    match os {
        Os::Mac | Os::Linux => ArchiveKind::GzipTar,
        Os::Windows => ArchiveKind::Zip,
    }
}

/// The entries of `entries` other than `keep`, in order.
pub open spec fn without(entries: Seq<Seq<char>>, keep: Seq<char>) -> Seq<Seq<char>>
    decreases entries.len(),
{
    if entries.len() == 0 {
        Seq::empty()
    } else {
        let rest = without(entries.drop_last(), keep);
        if entries.last() == keep {
            rest
        } else {
            rest.push(entries.last())
        }
    }
}

/// Cleanup removes exactly the entries other than the one just installed: each
/// of them is listed for removal, and the installed one never is.
pub proof fn lemma_cleanup_spares_only_kept(entries: Seq<Seq<char>>, keep: Seq<char>)
    ensures
        forall|x: Seq<char>|
            #[trigger] without(entries, keep).contains(x) <==> (entries.contains(x) && x != keep),
    decreases entries.len(),
{
    if entries.len() > 0 {
        let init = entries.drop_last();
        lemma_cleanup_spares_only_kept(init, keep);
        assert forall|x: Seq<char>| #[trigger] entries.contains(x) <==> (init.contains(x) || x
            == entries.last()) by {
            if entries.contains(x) {
                let k = choose|k: int| 0 <= k < entries.len() && entries[k] == x;
                if k < entries.len() - 1 {
                    assert(init[k] == x);
                }
            }
            if init.contains(x) {
                let k = choose|k: int| 0 <= k < init.len() && init[k] == x;
                assert(entries[k] == x);
            }
            if x == entries.last() {
                assert(entries[entries.len() - 1] == x);
            }
        }
        let rest = without(init, keep);
        if entries.last() != keep {
            assert forall|x: Seq<char>| #[trigger] rest.push(entries.last()).contains(x) <==> (
            rest.contains(x) || x == entries.last()) by {
                let pushed = rest.push(entries.last());
                if pushed.contains(x) {
                    let k = choose|k: int| 0 <= k < pushed.len() && pushed[k] == x;
                    if k < rest.len() {
                        assert(rest[k] == x);
                    }
                }
                if rest.contains(x) {
                    let k = choose|k: int| 0 <= k < rest.len() && rest[k] == x;
                    assert(pushed[k] == x);
                }
                if x == entries.last() {
                    assert(pushed[rest.len() as int] == x);
                }
            }
        }
    }
}

/// The entries of the working directory to remove once `keep` is installed:
/// every one but `keep`.
pub fn stale_entries(entries: &Vec<String>, keep: &str) -> (r: Vec<String>)
    ensures
        views(r@) == without(views(entries@), keep@),
{
    let target = String::from_str(keep);
    let mut r: Vec<String> = Vec::new();
    let mut i: usize = 0;
    while i < entries.len()
        invariant
            i <= entries@.len(),
            target@ == keep@,
            views(r@) == without(views(entries@).take(i as int), keep@),
        decreases entries@.len() - i,
    {
        assert(views(entries@).take(i + 1).drop_last() =~= views(entries@).take(
            i as int,
        ));
        assert(views(entries@).take(i + 1).last() == entries@[i as int]@);
        if entries[i] != target {
            let ghost before = r@;
            r.push(entries[i].clone());
            assert(views(r@) =~= views(before).push(entries@[i as int]@));
        }
        i = i + 1;
    }
    assert(views(entries@).take(i as int) =~= views(entries@));
    r
}

/// Where and how a release of the language server is installed.
#[derive(Debug)]
pub struct ServerPlan {
    /// The asset to download
    pub download_url: String,
    /// Its archive format
    pub archive: ArchiveKind,
    /// The version directory, relative to the working directory
    pub version_dir: String,
    /// The server binary, relative to the working directory
    pub binary_path: String,
}

/// The next thing to do in acquiring the language server.
#[derive(Debug)]
pub enum ServerStep {
    /// The acquisition is over: launch this path.
    Ready(String),
    /// Check that the remembered path names a file; answer `on_cached_checked`.
    CheckCached(String),
    /// Fetch the latest release of `REPO`; answer `on_release`.
    FetchRelease,
    /// Check whether the plan's binary is a file; answer `on_install_checked`.
    CheckInstalled(ServerPlan),
    /// Download and unpack into the version directory and make the binary
    /// executable; answer `on_installed`.
    Install(ServerPlan),
    /// Remove the entries of the working directory that `stale_entries` names
    /// for `keep`, ignoring failures; then launch `path`.
    Cleanup { keep: String, path: String },
    /// The acquisition is over and failed.
    Failed(AcquireError),
}

/// `plan` installs `version` on `os`.
pub open spec fn server_plan_for(plan: ServerPlan, os: Os, tag: Seq<char>, version: AdapterVersion) -> bool {
    &&& plan.download_url@ == version.download_url@
    &&& plan.archive == server_archive(os)
    &&& plan.version_dir@ == "roslyn-"@ + tag
    &&& plan.binary_path@ == join_path(plan.version_dir@, "csharp-language-server"@)
}

pub struct Roslyn {
    cached_binary_path: Option<String>,
}

impl Roslyn {
    pub const LANGUAGE_SERVER_ID: &'static str = "roslyn";

    pub fn new() -> (r: Roslyn)
        ensures
            r.cached() is None,
    {
        Roslyn { cached_binary_path: None }
    }

    /// The path remembered from an earlier acquisition.
    pub closed spec fn cached(&self) -> Option<Seq<char>> {
        match self.cached_binary_path {
            Some(p) => Some(p@),
            None => None,
        }
    }

    /// The asset of the language server for a platform; 32-bit x86 has none.
    pub fn asset_name(os: Os, arch: Architecture) -> (r: Result<String, AcquireError>)
        ensures
            r is Ok <==> arch != Architecture::X86,
            r matches Ok(s) ==> Some(s@) == server_asset_name(os, arch),
            r matches Err(e) ==> e is UnsupportedPlatform,
    {
        let os_part = match os {
            Os::Mac => "apple-darwin",
            Os::Linux => "unknown-linux-gnu",
            Os::Windows => "pc-windows-msvc",
        };
        let arch_part = match arch {
            Architecture::Aarch64 => "aarch64",
            Architecture::X8664 => "x86_64",
            Architecture::X86 => {
                return Err(
                    AcquireError::UnsupportedPlatform(
                        String::from_str(
                            "Unsupported architecture: x86 (32-bit). The language server only supports 64-bit architectures (x86_64/aarch64).",
                        ),
                    ),
                );
            },
        };
        let extension = match os {
            Os::Mac | Os::Linux => "tar.gz",
            Os::Windows => "zip",
        };
        Ok(
            String::from_str("csharp-language-server-").concat(arch_part).concat("-").concat(
                os_part,
            ).concat(".").concat(extension),
        )
    }

    /// The first step: a path from the user's settings is used as it is; then
    /// the remembered path is checked; otherwise the latest release is looked up.
    pub fn start(&self, user_path: Option<String>) -> (r: ServerStep)
        ensures
            user_path matches Some(p) ==> (r matches ServerStep::Ready(q) && q@ == p@),
            user_path is None && self.cached() is Some ==> (r matches ServerStep::CheckCached(q)
                && Some(q@) == self.cached()),
            user_path is None && self.cached() is None ==> r is FetchRelease,
    {
        if let Some(path) = user_path {
            return ServerStep::Ready(path);
        }
        match &self.cached_binary_path {
            Some(p) => ServerStep::CheckCached(p.clone()),
            None => ServerStep::FetchRelease,
        }
    }

    /// Takes whether the remembered path names a file.
    pub fn on_cached_checked(&self, is_file: bool) -> (r: ServerStep)
        ensures
            self.cached() is Some && is_file ==> (r matches ServerStep::Ready(q) && Some(q@)
                == self.cached()),
            !(self.cached() is Some && is_file) ==> r is FetchRelease,
    {
        match &self.cached_binary_path {
            Some(p) => {
                if is_file {
                    ServerStep::Ready(p.clone())
                } else {
                    ServerStep::FetchRelease
                }
            },
            None => ServerStep::FetchRelease,
        }
    }

    /// Takes the latest release, or why it could not be fetched, and plans the
    /// install of the asset that fits the platform.
    pub fn on_release(&self, os: Os, arch: Architecture, fetched: Result<Release, String>) -> (r: ServerStep)
        ensures
            fetched matches Err(m) ==> (r matches ServerStep::Failed(e) && e matches AcquireError::RegistryFetchFailure(x) && x@ == m@),
            fetched is Ok && arch == Architecture::X86 ==> (r matches ServerStep::Failed(e) && e is UnsupportedPlatform),
            fetched is Ok && arch != Architecture::X86 ==> {
                let rel = fetched->Ok_0;
                let name = server_asset_name(os, arch)->0;
                &&& r is CheckInstalled || r is Failed
                &&& r matches ServerStep::CheckInstalled(plan) ==> exists|v: AdapterVersion|
                    asset_selected(rel, name, Ok(v)) && server_plan_for(
                        plan,
                        os,
                        rel.version@,
                        v,
                    )
                &&& r matches ServerStep::Failed(e) ==> asset_selected(rel, name, Err(e))
            },
    {
        let release = match fetched {
            Ok(release) => release,
            Err(m) => {
                return ServerStep::Failed(AcquireError::RegistryFetchFailure(m));
            },
        };
        let asset_name = match Self::asset_name(os, arch) {
            Ok(n) => n,
            Err(e) => {
                return ServerStep::Failed(e);
            },
        };
        let version = match select_asset(&release, asset_name.as_str()) {
            Ok(v) => v,
            Err(e) => {
                return ServerStep::Failed(e);
            },
        };
        let archive = match os {
            Os::Mac | Os::Linux => ArchiveKind::GzipTar,
            Os::Windows => ArchiveKind::Zip,
        };
        let version_dir = String::from_str("roslyn-").concat(release.version.as_str());
        let binary_path = join(version_dir.as_str(), "csharp-language-server");
        let plan = ServerPlan {
            download_url: version.download_url.clone(),
            archive,
            version_dir,
            binary_path,
        };
        assert(server_plan_for(plan, os, release.version@, version));
        ServerStep::CheckInstalled(plan)
    }

    /// Takes whether the plan's binary is already a file.
    pub fn on_install_checked(&mut self, plan: ServerPlan, is_file: bool) -> (r: ServerStep)
        ensures
            is_file ==> (r matches ServerStep::Ready(q) && q@ == plan.binary_path@),
            is_file ==> final(self).cached() == Some(plan.binary_path@),
            !is_file ==> r == ServerStep::Install(plan) && final(self).cached() == old(
                self,
            ).cached(),
    {
        if is_file {
            self.cached_binary_path = Some(plan.binary_path.clone());
            ServerStep::Ready(plan.binary_path)
        } else {
            ServerStep::Install(plan)
        }
    }

    /// Takes the outcome of download, unpacking and setting the executable bit.
    pub fn on_installed(&mut self, plan: ServerPlan, outcome: Result<(), AcquireError>) -> (r: ServerStep)
        ensures
            outcome matches Err(e) ==> r == ServerStep::Failed(e) && final(self).cached() == old(
                self,
            ).cached(),
            outcome is Ok ==> (r matches ServerStep::Cleanup { keep, path } && keep@
                == plan.version_dir@ && path@ == plan.binary_path@),
            outcome is Ok ==> final(self).cached() == Some(plan.binary_path@),
    {
        match outcome {
            Err(e) => ServerStep::Failed(e),
            Ok(()) => {
                self.cached_binary_path = Some(plan.binary_path.clone());
                ServerStep::Cleanup { keep: plan.version_dir, path: plan.binary_path }
            },
        }
    }
}

} // verus!
