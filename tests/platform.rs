use csharp_tools::binary_manager::{archive_kind_of, BinaryManager};
use csharp_tools::error::AcquireError;
use csharp_tools::platform::{Architecture, ArchiveKind, Os};
use csharp_tools::roslyn::Roslyn;

#[test]
fn debugger_asset_for_linux_x86_64() {
    let name = BinaryManager::get_platform_asset_name(Os::Linux, Architecture::X8664).unwrap();
    assert_eq!(name, "netcoredbg-linux-amd64.tar.gz");
}

#[test]
fn debugger_asset_for_windows_arm64_falls_back_to_win64() {
    let name = BinaryManager::get_platform_asset_name(Os::Windows, Architecture::Aarch64).unwrap();
    assert_eq!(name, "netcoredbg-win64.zip");
}

#[test]
fn debugger_assets_for_every_64_bit_platform() {
    let expected = [
        (Os::Linux, Architecture::X8664, "netcoredbg-linux-amd64.tar.gz"),
        (Os::Linux, Architecture::Aarch64, "netcoredbg-linux-arm64.tar.gz"),
        (Os::Mac, Architecture::X8664, "netcoredbg-osx-amd64.tar.gz"),
        (Os::Mac, Architecture::Aarch64, "netcoredbg-osx-arm64.tar.gz"),
        (Os::Windows, Architecture::X8664, "netcoredbg-win64.zip"),
        (Os::Windows, Architecture::Aarch64, "netcoredbg-win64.zip"),
    ];
    for (os, arch, name) in expected {
        assert_eq!(BinaryManager::get_platform_asset_name(os, arch).unwrap(), name);
    }
}

#[test]
fn debugger_asset_for_x86_is_unsupported_on_every_os() {
    for os in [Os::Linux, Os::Mac, Os::Windows] {
        let r = BinaryManager::get_platform_asset_name(os, Architecture::X86);
        match r {
            Err(AcquireError::UnsupportedPlatform(m)) => assert!(m.contains("x86")),
            other => panic!("expected UnsupportedPlatform, got {other:?}"),
        }
    }
}

#[test]
fn executable_name_per_os() {
    assert_eq!(BinaryManager::get_executable_name(Os::Windows), "netcoredbg.exe");
    assert_eq!(BinaryManager::get_executable_name(Os::Linux), "netcoredbg");
    assert_eq!(BinaryManager::get_executable_name(Os::Mac), "netcoredbg");
}

#[test]
fn archive_kind_from_asset_name() {
    assert_eq!(archive_kind_of("netcoredbg-win64.zip"), Some(ArchiveKind::Zip));
    assert_eq!(archive_kind_of("netcoredbg-linux-amd64.tar.gz"), Some(ArchiveKind::GzipTar));
    assert_eq!(archive_kind_of("netcoredbg.7z"), None);
    assert_eq!(archive_kind_of("zip"), None);
}

#[test]
fn language_server_asset_names() {
    assert_eq!(
        Roslyn::asset_name(Os::Linux, Architecture::X8664).unwrap(),
        "csharp-language-server-x86_64-unknown-linux-gnu.tar.gz"
    );
    assert_eq!(
        Roslyn::asset_name(Os::Mac, Architecture::Aarch64).unwrap(),
        "csharp-language-server-aarch64-apple-darwin.tar.gz"
    );
    assert_eq!(
        Roslyn::asset_name(Os::Windows, Architecture::X8664).unwrap(),
        "csharp-language-server-x86_64-pc-windows-msvc.zip"
    );
}

#[test]
fn language_server_asset_for_x86_is_unsupported() {
    for os in [Os::Linux, Os::Mac, Os::Windows] {
        assert!(matches!(
            Roslyn::asset_name(os, Architecture::X86),
            Err(AcquireError::UnsupportedPlatform(_))
        ));
    }
}
