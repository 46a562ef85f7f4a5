//! The debugger binary: which release asset fits the platform, and the decisions
//! of acquiring it (memory cache, disk cache, download), one step at a time.

use vstd::prelude::*;
use crate::error::AcquireError;
use crate::locate::{join, join_path};
use crate::simple_temp_dir::SimpleTempDir;
use crate::platform::{Architecture, ArchiveKind, Os};
use crate::text::{ends_with, ends_with_spec, views};

verus! {

/// A release as the registry lists it.
#[derive(Debug)]
pub struct Release {
    pub version: String,
    pub assets: Vec<ReleaseAsset>,
}

/// A downloadable file of a release.
#[derive(Debug)]
pub struct ReleaseAsset {
    pub name: String,
    pub download_url: String,
}

/// The release chosen for this platform: its tag and the URL of the matching asset.
#[derive(Debug, Clone)]
pub struct AdapterVersion {
    /// Release tag name (version)
    pub tag_name: String,
    /// Download URL for the release asset
    pub download_url: String,
}

pub open spec fn debugger_platform_part(os: Os, arch: Architecture) -> Seq<char> {
    match (os, arch) {
        (Os::Linux, Architecture::X8664) => "linux-amd64"@,
        (Os::Linux, Architecture::Aarch64) => "linux-arm64"@,
        (Os::Mac, Architecture::X8664) => "osx-amd64"@,
        (Os::Mac, Architecture::Aarch64) => "osx-arm64"@,
        (Os::Windows, _) => "win64"@,
        _ => Seq::empty(),
    }
}

/// Archives are zip files on Windows and gzipped tarballs elsewhere.
pub open spec fn archive_extension(os: Os) -> Seq<char> {
    match os {
        Os::Windows => ".zip"@,
        _ => ".tar.gz"@,
    }
}

/// The debugger's asset for a platform; none for 32-bit x86. Windows on ARM64
/// gets the x86-64 build.
pub open spec fn debugger_asset_name(os: Os, arch: Architecture) -> Option<Seq<char>> {
    if arch == Architecture::X86 {
        None
    } else {
        Some("netcoredbg-"@ + debugger_platform_part(os, arch) + archive_extension(os))
    }
}

pub open spec fn debugger_executable(os: Os) -> Seq<char> {
    if os == Os::Windows {
        "netcoredbg.exe"@
    } else {
        "netcoredbg"@
    }
}

/// The archive format that an asset's name announces.
pub open spec fn archive_kind_spec(name: Seq<char>) -> Option<ArchiveKind> {
    if ends_with_spec(name, ".zip"@) {
        Some(ArchiveKind::Zip)
    } else if ends_with_spec(name, ".tar.gz"@) {
        Some(ArchiveKind::GzipTar)
    } else {
        None
    }
}

pub open spec fn asset_names(assets: Seq<ReleaseAsset>) -> Seq<Seq<char>> {
    assets.map_values(|a: ReleaseAsset| a.name@)
}

/// `i` is the first asset named `name`.
pub open spec fn first_asset_named(assets: Seq<ReleaseAsset>, name: Seq<char>, i: int) -> bool {
    &&& 0 <= i < assets.len()
    &&& assets[i].name@ == name
    &&& forall|j: int| 0 <= j < i ==> assets[j].name@ != name
}

/// `r` is what picking the asset named `name` from `release` gives: the first
/// asset of that name, or an error that lists every asset's name.
pub open spec fn asset_selected(release: Release, name: Seq<char>, r: Result<AdapterVersion, AcquireError>) -> bool {
    &&& r is Ok <==> exists|i: int| first_asset_named(release.assets@, name, i)
    &&& r matches Ok(v) ==> {
        &&& v.tag_name@ == release.version@
        &&& exists|i: int|
            first_asset_named(release.assets@, name, i) && v.download_url@
                == release.assets@[i].download_url@
    }
    &&& r matches Err(e) ==> {
        &&& e matches AcquireError::AssetNotFoundForPlatform { expected, available }
        &&& e->expected@ == name
        &&& views(e->available@) == asset_names(release.assets@)
    }
}

/// The file type of an asset, from its name.
pub fn archive_kind_of(name: &str) -> (r: Option<ArchiveKind>)
    ensures
        r == archive_kind_spec(name@),
{
    if ends_with(name, ".zip") {
        Some(ArchiveKind::Zip)
    } else if ends_with(name, ".tar.gz") {
        Some(ArchiveKind::GzipTar)
    } else {
        None
    }
}

/// Picks the asset named exactly `asset_name`; where there is none, the error
/// names it and lists every asset of the release.
pub fn select_asset(release: &Release, asset_name: &str) -> (r: Result<AdapterVersion, AcquireError>)
    ensures
        asset_selected(*release, asset_name@, r),
{
    let target = String::from_str(asset_name);
    let mut i: usize = 0;
    while i < release.assets.len()
        invariant
            i <= release.assets@.len(),
            target@ == asset_name@,
            forall|j: int| 0 <= j < i ==> release.assets@[j].name@ != asset_name@,
        decreases release.assets@.len() - i,
    {
        if release.assets[i].name == target {
            assert(first_asset_named(release.assets@, asset_name@, i as int));
            return Ok(
                AdapterVersion {
                    tag_name: release.version.clone(),
                    download_url: release.assets[i].download_url.clone(),
                },
            );
        }
        i = i + 1;
    }
    let mut available: Vec<String> = Vec::new();
    let mut k: usize = 0;
    while k < release.assets.len()
        invariant
            k <= release.assets@.len(),
            available@.len() == k,
            forall|j: int| 0 <= j < k ==> (#[trigger] available@[j])@ == release.assets@[j].name@,
        decreases release.assets@.len() - k,
    {
        available.push(release.assets[k].name.clone());
        k = k + 1;
    }
    assert(views(available@) =~= asset_names(release.assets@));
    Err(
        AcquireError::AssetNotFoundForPlatform {
            expected: String::from_str(asset_name),
            available,
        },
    )
}

/// A cell that keeps the first path stored in it.
pub struct PathCache {
    value: Option<String>,
}

impl PathCache {
    pub closed spec fn view(&self) -> Option<Seq<char>> {
        match self.value {
            Some(s) => Some(s@),
            None => None,
        }
    }

    pub fn new() -> (r: PathCache)
        ensures
            r.view() is None,
    {
        PathCache { value: None }
    }

    pub fn get(&self) -> (r: Option<String>)
        ensures
            r is Some <==> self.view() is Some,
            r matches Some(p) ==> self.view() == Some(p@),
    {
        match &self.value {
            Some(p) => Some(p.clone()),
            None => None,
        }
    }

    /// Stores `path` if nothing is stored yet; a later value is dropped and the
    /// stored one stays. Says whether `path` was stored.
    pub fn try_set(&mut self, path: String) -> (r: bool)
        ensures
            r == (old(self).view() is None),
            r ==> final(self).view() == Some(path@),
            !r ==> final(self).view() == old(self).view(),
    {
        match &self.value {
            Some(_) => false,
            None => {
                self.value = Some(path);
                true
            },
        }
    }
}

/// Where and how a resolved version is installed.
#[derive(Debug)]
pub struct InstallPlan {
    /// The release and the asset to download
    pub version: AdapterVersion,
    /// The archive format of the asset
    pub archive: ArchiveKind,
    /// The version directory, relative to the working directory
    pub version_dir: String,
    /// The binary inside the version directory, relative to the working directory
    pub binary_path: String,
    /// The file name of the binary
    pub executable: String,
}

/// The next thing to do in acquiring the debugger binary. Each step but
/// `Ready` and `Failed` names the outside work to do and the method that takes
/// its outcome.
#[derive(Debug)]
pub enum AcquireStep {
    /// The acquisition is over: launch this path.
    Ready(String),
    /// Check that the remembered path still names a file; answer `on_cached_checked`.
    CheckCached(String),
    /// Fetch the latest release that has assets and is no prerelease; answer `on_release`.
    FetchRelease,
    /// Check whether the plan's binary is already on disk; answer `on_existing_checked`.
    CheckExisting(InstallPlan),
    /// Download the asset into a staging directory, find the binary with a
    /// `Locator`, copy the contents of its directory into the version directory,
    /// and check the plan's binary; answer `on_copied`.
    Install(InstallPlan),
    /// Set the executable bit of the plan's binary; answer `on_installed`.
    MakeExecutable(InstallPlan),
    /// Check that the path names an existing file; answer `on_validated`.
    Validate(String),
    /// The acquisition is over and failed.
    Failed(AcquireError),
}

/// An `AcquireStep` with its paths seen as character sequences.
pub enum StepView {
    Ready(Seq<char>),
    CheckCached(Seq<char>),
    FetchRelease,
    CheckExisting(InstallPlan),
    Install(InstallPlan),
    MakeExecutable(InstallPlan),
    Validate(Seq<char>),
    Failed(AcquireError),
}

impl View for AcquireStep {
    type V = StepView;

    open spec fn view(&self) -> StepView {
        match self {
            AcquireStep::Ready(p) => StepView::Ready(p@),
            AcquireStep::CheckCached(p) => StepView::CheckCached(p@),
            AcquireStep::FetchRelease => StepView::FetchRelease,
            AcquireStep::CheckExisting(plan) => StepView::CheckExisting(*plan),
            AcquireStep::Install(plan) => StepView::Install(*plan),
            AcquireStep::MakeExecutable(plan) => StepView::MakeExecutable(*plan),
            AcquireStep::Validate(p) => StepView::Validate(p@),
            AcquireStep::Failed(e) => StepView::Failed(*e),
        }
    }
}

/// A path given by the user is taken as it is; then the remembered path is
/// checked; otherwise the latest release is looked up.
pub open spec fn start_spec(cached: Option<Seq<char>>, user: Option<Seq<char>>) -> StepView {
    match user {
        Some(p) => StepView::Ready(p),
        None => match cached {
            Some(c) => StepView::CheckCached(c),
            None => StepView::FetchRelease,
        },
    }
}

/// The remembered path is handed out only while it names a file.
pub open spec fn cached_checked_spec(cached: Option<Seq<char>>, exists: bool) -> StepView {
    match cached {
        Some(c) if exists => StepView::Ready(c),
        _ => StepView::FetchRelease,
    }
}

/// A binary already in its version directory is used without downloading.
pub open spec fn existing_checked_spec(plan: InstallPlan, exists: bool, cwd: Seq<char>) -> StepView {
    if exists {
        StepView::Ready(join_path(cwd, plan.binary_path@))
    } else {
        StepView::Install(plan)
    }
}

/// The memory after offering it `p`: the first path stored stays.
pub open spec fn remember(cached: Option<Seq<char>>, p: Seq<char>) -> Option<Seq<char>> {
    if cached is None {
        Some(p)
    } else {
        cached
    }
}

pub open spec fn not_found_message(path: Seq<char>) -> Seq<char> {
    "netcoredbg binary not found at: "@ + path
}

pub open spec fn not_a_file_message(path: Seq<char>) -> Seq<char> {
    "netcoredbg path is not a file: "@ + path
}

/// The version directory of a release tag.
pub open spec fn version_dir_spec(tag: Seq<char>) -> Seq<char> {
    "netcoredbg_v"@ + tag
}

/// `plan` installs `version` on `os` from an asset of kind `archive`.
pub open spec fn plan_for(plan: InstallPlan, os: Os, archive: ArchiveKind, version: AdapterVersion) -> bool {
    &&& plan.version == version
    &&& plan.archive == archive
    &&& plan.version_dir@ == version_dir_spec(version.tag_name@)
    &&& plan.executable@ == debugger_executable(os)
    &&& plan.binary_path@ == join_path(plan.version_dir@, debugger_executable(os))
}

/// The archive kind of every debugger asset follows its operating system.
proof fn lemma_debugger_archive_kind(os: Os, arch: Architecture)
    requires
        arch != Architecture::X86,
    ensures
        archive_kind_spec(debugger_asset_name(os, arch)->0) == Some(
            if os == Os::Windows {
                ArchiveKind::Zip
            } else {
                ArchiveKind::GzipTar
            },
        ),
{
    reveal_strlit(".zip");
    reveal_strlit(".tar.gz");
    let head = "netcoredbg-"@ + debugger_platform_part(os, arch);
    let name = debugger_asset_name(os, arch)->0;
    let ext = archive_extension(os);
    assert(name == head + ext);
    assert(name.skip(name.len() - ext.len()) =~= ext);
    if os != Os::Windows {
        let tail = name.skip(name.len() - 4);
        assert(tail[3] == ext[6]);
        assert(tail[3] != ".zip"@[3]);
    }
}

/// Once an acquisition has found the binary of the latest version on disk, a
/// second acquisition downloads nothing and hands out the same path: the
/// remembered one while that file exists, else the same one found on disk again.
pub proof fn lemma_reacquisition_reuses_path(plan: InstallPlan, cwd: Seq<char>)
    ensures
        ({
            let p = join_path(cwd, plan.binary_path@);
            let after = remember(None, p);
            &&& start_spec(None, None) == StepView::FetchRelease
            &&& existing_checked_spec(plan, true, cwd) == StepView::Ready(p)
            &&& start_spec(after, None) == StepView::CheckCached(p)
            &&& cached_checked_spec(after, true) == StepView::Ready(p)
            &&& cached_checked_spec(after, false) == StepView::FetchRelease
            &&& remember(after, p) == after
        }),
{
}

pub struct BinaryManager {
    /// The path of the binary once resolved: set once and reused
    cached_binary_path: PathCache,
}

impl Default for BinaryManager {
    fn default() -> (r: BinaryManager)
        ensures
            r.cached() is None,
    {
        BinaryManager::new()
    }
}

impl BinaryManager {
    /// The release coordinate of the debugger builds.
    pub const GITHUB_OWNER: &'static str = "qwadrox";
    pub const GITHUB_REPO: &'static str = "netcoredbg";

    pub fn new() -> (r: BinaryManager)
        ensures
            r.cached().is_none(),
    {
        BinaryManager { cached_binary_path: PathCache::new() }
    }

    /// The path remembered from an earlier acquisition.
    pub closed spec fn cached(&self) -> Option<Seq<char>> {
        self.cached_binary_path.view()
    }

    /// The first step of an acquisition.
    pub fn start(&self, user_provided_path: Option<String>) -> (r: AcquireStep)
        ensures
            r@ == start_spec(
                self.cached(),
                match user_provided_path {
                    Some(p) => Some(p@),
                    None => None,
                },
            ),
    {
        // The user's path is returned as it is, without any validation
        if let Some(user_path) = user_provided_path {
            return AcquireStep::Ready(user_path);
        }
        match self.cached_binary_path.get() {
            Some(cached_path) => AcquireStep::CheckCached(cached_path),
            None => AcquireStep::FetchRelease,
        }
    }

    /// Takes whether the remembered path still names a file.
    pub fn on_cached_checked(&self, exists: bool) -> (r: AcquireStep)
        ensures
            r@ == cached_checked_spec(self.cached(), exists),
    {
        match self.cached_binary_path.get() {
            Some(cached_path) => {
                if exists {
                    AcquireStep::Ready(cached_path)
                } else {
                    AcquireStep::FetchRelease
                }
            },
            None => AcquireStep::FetchRelease,
        }
    }

    /// Takes the latest release, or why it could not be fetched, and plans the
    /// install of the asset that fits the platform.
    pub fn on_release(&self, os: Os, arch: Architecture, fetched: Result<Release, String>) -> (r: AcquireStep)
        ensures
            fetched matches Err(m) ==> (r matches AcquireStep::Failed(e) && e matches AcquireError::RegistryFetchFailure(x) && x@ == m@),
            fetched is Ok && arch == Architecture::X86 ==> (r matches AcquireStep::Failed(e) && e is UnsupportedPlatform),
            fetched is Ok && arch != Architecture::X86 ==> {
                let rel = fetched->Ok_0;
                let name = debugger_asset_name(os, arch)->0;
                let kind = if os == Os::Windows {
                    ArchiveKind::Zip
                } else {
                    ArchiveKind::GzipTar
                };
                &&& r is CheckExisting || r is Failed
                &&& r matches AcquireStep::CheckExisting(plan) ==> asset_selected(
                    rel,
                    name,
                    Ok(plan.version),
                ) && plan_for(plan, os, kind, plan.version)
                &&& r matches AcquireStep::Failed(e) ==> asset_selected(rel, name, Err(e))
            },
    {
        let release = match fetched {
            Ok(release) => release,
            Err(m) => {
                return AcquireStep::Failed(AcquireError::RegistryFetchFailure(m));
            },
        };
        let asset_name = match Self::get_platform_asset_name(os, arch) {
            Ok(n) => n,
            Err(e) => {
                return AcquireStep::Failed(e);
            },
        };
        let version = match select_asset(&release, asset_name.as_str()) {
            Ok(v) => v,
            Err(e) => {
                return AcquireStep::Failed(e);
            },
        };
        proof {
            lemma_debugger_archive_kind(os, arch);
        }
        let archive = match archive_kind_of(asset_name.as_str()) {
            Some(k) => k,
            None => {
                return AcquireStep::Failed(
                    AcquireError::DownloadFailure(
                        String::from_str("Unsupported file type for asset: ").concat(
                            asset_name.as_str(),
                        ),
                    ),
                );
            },
        };
        let exe = Self::get_executable_name(os);
        let version_dir = String::from_str("netcoredbg_v").concat(version.tag_name.as_str());
        let binary_path = join(version_dir.as_str(), exe);
        AcquireStep::CheckExisting(
            InstallPlan {
                version,
                archive,
                version_dir,
                binary_path,
                executable: String::from_str(exe),
            },
        )
    }

    /// Takes whether the plan's binary is already on disk; `cwd` is the working
    /// directory, against which the plan's paths are resolved.
    pub fn on_existing_checked(&mut self, plan: InstallPlan, exists: bool, cwd: &str) -> (r: AcquireStep)
        ensures
            r@ == existing_checked_spec(plan, exists, cwd@),
            final(self).cached() == (if exists {
                remember(old(self).cached(), join_path(cwd@, plan.binary_path@))
            } else {
                old(self).cached()
            }),
    {
        if exists {
            let path = join(cwd, plan.binary_path.as_str());
            let _ = self.cached_binary_path.try_set(path.clone());
            AcquireStep::Ready(path)
        } else {
            AcquireStep::Install(plan)
        }
    }

    /// Takes the outcome of download, search and copy, and whether the plan's
    /// binary is now in the version directory.
    pub fn on_copied(&self, plan: InstallPlan, outcome: Result<(), AcquireError>, binary_exists: bool) -> (r: AcquireStep)
        ensures
            outcome matches Err(e) ==> r == AcquireStep::Failed(e),
            outcome is Ok && !binary_exists ==> (r matches AcquireStep::Failed(e) && e matches AcquireError::BinaryNotFoundAfterExtraction { name, root } && name@ == plan.executable@ && root@ == plan.version_dir@),
            outcome is Ok && binary_exists ==> r == AcquireStep::MakeExecutable(plan),
    {
        match outcome {
            Err(e) => AcquireStep::Failed(e),
            Ok(()) => {
                if binary_exists {
                    AcquireStep::MakeExecutable(plan)
                } else {
                    AcquireStep::Failed(
                        AcquireError::BinaryNotFoundAfterExtraction {
                            name: plan.executable,
                            root: plan.version_dir,
                        },
                    )
                }
            },
        }
    }

    /// Takes whether the binary was made executable, and asks for its absolute
    /// path to be validated.
    pub fn on_installed(&self, plan: InstallPlan, made_executable: Result<(), String>, cwd: &str) -> (r: AcquireStep)
        ensures
            made_executable matches Err(m) ==> (r matches AcquireStep::Failed(e) && e matches AcquireError::FilesystemFailure(x) && x@ == m@),
            made_executable is Ok ==> r@ == StepView::Validate(join_path(cwd@, plan.binary_path@)),
    {
        match made_executable {
            Err(m) => AcquireStep::Failed(AcquireError::FilesystemFailure(m)),
            Ok(()) => AcquireStep::Validate(join(cwd, plan.binary_path.as_str())),
        }
    }

    /// Takes what the file system says of a freshly installed binary; only a
    /// valid binary is remembered.
    pub fn on_validated(&mut self, path: String, exists: bool, is_file: bool) -> (r: AcquireStep)
        ensures
            exists && is_file ==> r@ == StepView::Ready(path@),
            exists && is_file ==> final(self).cached() == remember(old(self).cached(), path@),
            !(exists && is_file) ==> final(self).cached() == old(self).cached(),
            !exists ==> (r matches AcquireStep::Failed(e) && e matches AcquireError::FilesystemFailure(m)
                && m@ == not_found_message(path@)),
            exists && !is_file ==> (r matches AcquireStep::Failed(e) && e matches AcquireError::FilesystemFailure(m)
                && m@ == not_a_file_message(path@)),
    {
        match self.validate_binary(path.as_str(), exists, is_file) {
            Ok(()) => {
                let _ = self.cached_binary_path.try_set(path.clone());
                AcquireStep::Ready(path)
            },
            Err(e) => AcquireStep::Failed(e),
        }
    }

    /// A binary is valid where the path exists and names a file.
    pub fn validate_binary(&self, binary_path: &str, exists: bool, is_file: bool) -> (r: Result<(), AcquireError>)
        ensures
            r is Ok <==> exists && is_file,
            !exists ==> (r matches Err(AcquireError::FilesystemFailure(m)) && m@ == not_found_message(
                binary_path@,
            )),
            exists && !is_file ==> (r matches Err(AcquireError::FilesystemFailure(m)) && m@
                == not_a_file_message(binary_path@)),
    {
        if !exists {
            return Err(
                AcquireError::FilesystemFailure(
                    String::from_str("netcoredbg binary not found at: ").concat(binary_path),
                ),
            );
        }
        if !is_file {
            return Err(
                AcquireError::FilesystemFailure(
                    String::from_str("netcoredbg path is not a file: ").concat(binary_path),
                ),
            );
        }
        Ok(())
    }

    /// The staging directory for unpacking `version` inside `base`.
    pub fn create_temp_dir(&self, version: &str, base: &str, unique: &str) -> (r: SimpleTempDir)
        ensures
            r.view() == join_path(base@, "netcoredbg_v"@ + version@ + "_"@ + unique@),
    {
        let prefix = String::from_str("netcoredbg_v").concat(version).concat("_");
        let r = SimpleTempDir::new(base, prefix.as_str(), unique);
        assert(prefix@ + unique@ =~= "netcoredbg_v"@ + version@ + "_"@ + unique@);
        r
    }

    pub fn get_executable_name(os: Os) -> (r: &'static str)
        ensures
            r@ == debugger_executable(os),
    {
        if os == Os::Windows {
            "netcoredbg.exe"
        } else {
            "netcoredbg"
        }
    }

    /// The release asset that carries the debugger for a platform.
    /// Supported assets:
    /// - netcoredbg-linux-amd64.tar.gz
    /// - netcoredbg-linux-arm64.tar.gz
    /// - netcoredbg-osx-amd64.tar.gz
    /// - netcoredbg-osx-arm64.tar.gz
    /// - netcoredbg-win64.zip
    pub fn get_platform_asset_name(os: Os, arch: Architecture) -> (r: Result<String, AcquireError>)
        ensures
            r is Ok <==> arch != Architecture::X86,
            r matches Ok(s) ==> Some(s@) == debugger_asset_name(os, arch),
            r matches Err(e) ==> e is UnsupportedPlatform,
    {
        let (platform_arch, extension) = match (os, arch) {
            (Os::Linux, Architecture::X8664) => ("linux-amd64", ".tar.gz"),
            (Os::Linux, Architecture::Aarch64) => ("linux-arm64", ".tar.gz"),
            (Os::Mac, Architecture::X8664) => ("osx-amd64", ".tar.gz"),
            (Os::Mac, Architecture::Aarch64) => ("osx-arm64", ".tar.gz"),
            (Os::Windows, Architecture::X8664) => ("win64", ".zip"),
            // Windows ARM64 is not officially supported by netcoredbg,
            // but the x64 build can be tried as a fallback
            (Os::Windows, Architecture::Aarch64) => ("win64", ".zip"),
            (_, Architecture::X86) => {
                return Err(
                    AcquireError::UnsupportedPlatform(
                        String::from_str(
                            "Unsupported architecture: x86 (32-bit). NetCoreDbg only supports 64-bit architectures (amd64/arm64).",
                        ),
                    ),
                );
            },
        };
        Ok(String::from_str("netcoredbg-").concat(platform_arch).concat(extension))
    }
}

} // verus!
