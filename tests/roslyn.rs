use csharp_tools::binary_manager::{Release, ReleaseAsset};
use csharp_tools::error::AcquireError;
use csharp_tools::platform::{Architecture, ArchiveKind, Os};
use csharp_tools::roslyn::{stale_entries, Roslyn, ServerStep};

fn names(items: &[&str]) -> Vec<String> {
    items.iter().map(|s| s.to_string()).collect()
}

fn server_release(version: &str) -> Release {
    Release {
        version: version.to_string(),
        assets: vec![
            ReleaseAsset {
                name: "csharp-language-server-x86_64-unknown-linux-gnu.tar.gz".to_string(),
                download_url: "https://example.com/linux".to_string(),
            },
            ReleaseAsset {
                name: "csharp-language-server-aarch64-apple-darwin.tar.gz".to_string(),
                download_url: "https://example.com/mac".to_string(),
            },
        ],
    }
}

#[test]
fn cleanup_removes_older_versions_only() {
    let entries = names(&["comp_v1.0.0", "comp_v2.0.0", "comp_v1.5.0"]);
    assert_eq!(stale_entries(&entries, "comp_v2.0.0"), names(&["comp_v1.0.0", "comp_v1.5.0"]));
}

#[test]
fn cleanup_of_lone_install_removes_nothing() {
    assert!(stale_entries(&names(&["roslyn-1.0"]), "roslyn-1.0").is_empty());
    assert!(stale_entries(&Vec::new(), "roslyn-1.0").is_empty());
}

#[test]
fn server_install_flow() {
    let mut r = Roslyn::new();
    assert!(matches!(r.start(None), ServerStep::FetchRelease));
    let plan = match r.on_release(Os::Linux, Architecture::X8664, Ok(server_release("0.5.0"))) {
        ServerStep::CheckInstalled(plan) => plan,
        other => panic!("unexpected {other:?}"),
    };
    assert_eq!(plan.download_url, "https://example.com/linux");
    assert_eq!(plan.archive, ArchiveKind::GzipTar);
    assert_eq!(plan.version_dir, "roslyn-0.5.0");
    assert_eq!(plan.binary_path, "roslyn-0.5.0/csharp-language-server");
    let plan = match r.on_install_checked(plan, false) {
        ServerStep::Install(plan) => plan,
        other => panic!("unexpected {other:?}"),
    };
    match r.on_installed(plan, Ok(())) {
        ServerStep::Cleanup { keep, path } => {
            assert_eq!(keep, "roslyn-0.5.0");
            assert_eq!(path, "roslyn-0.5.0/csharp-language-server");
        }
        other => panic!("unexpected {other:?}"),
    }
    match r.start(None) {
        ServerStep::CheckCached(p) => assert_eq!(p, "roslyn-0.5.0/csharp-language-server"),
        other => panic!("unexpected {other:?}"),
    }
    match r.on_cached_checked(true) {
        ServerStep::Ready(p) => assert_eq!(p, "roslyn-0.5.0/csharp-language-server"),
        other => panic!("unexpected {other:?}"),
    }
    assert!(matches!(r.on_cached_checked(false), ServerStep::FetchRelease));
}

#[test]
fn server_user_path_wins() {
    let r = Roslyn::new();
    match r.start(Some("/opt/roslyn".to_string())) {
        ServerStep::Ready(p) => assert_eq!(p, "/opt/roslyn"),
        other => panic!("unexpected {other:?}"),
    }
}

#[test]
fn server_installed_version_is_reused() {
    let mut r = Roslyn::new();
    let plan = match r.on_release(Os::Mac, Architecture::Aarch64, Ok(server_release("0.6.0"))) {
        ServerStep::CheckInstalled(plan) => plan,
        other => panic!("unexpected {other:?}"),
    };
    match r.on_install_checked(plan, true) {
        ServerStep::Ready(p) => assert_eq!(p, "roslyn-0.6.0/csharp-language-server"),
        other => panic!("unexpected {other:?}"),
    }
}

#[test]
fn server_missing_asset_fails() {
    let r = Roslyn::new();
    match r.on_release(Os::Windows, Architecture::X8664, Ok(server_release("0.5.0"))) {
        ServerStep::Failed(AcquireError::AssetNotFoundForPlatform { expected, available }) => {
            assert_eq!(expected, "csharp-language-server-x86_64-pc-windows-msvc.zip");
            assert_eq!(available.len(), 2);
        }
        other => panic!("unexpected {other:?}"),
    }
}

#[test]
fn server_install_failure_is_passed_on() {
    let mut r = Roslyn::new();
    let plan = match r.on_release(Os::Linux, Architecture::X8664, Ok(server_release("0.5.0"))) {
        ServerStep::CheckInstalled(plan) => plan,
        other => panic!("unexpected {other:?}"),
    };
    match r.on_installed(plan, Err(AcquireError::DownloadFailure("no network".to_string()))) {
        ServerStep::Failed(AcquireError::DownloadFailure(m)) => assert_eq!(m, "no network"),
        other => panic!("unexpected {other:?}"),
    }
    assert!(matches!(r.start(None), ServerStep::FetchRelease));
}

#[test]
fn server_release_for_x86_is_unsupported() {
    let mut release = server_release("0.5.0");
    release.assets.push(ReleaseAsset {
        name: "csharp-language-server-unsupported-unknown-linux-gnu.tar.gz".to_string(),
        download_url: "https://example.com/x86".to_string(),
    });
    let r = Roslyn::new();
    assert!(matches!(
        r.on_release(Os::Linux, Architecture::X86, Ok(release)),
        ServerStep::Failed(AcquireError::UnsupportedPlatform(_))
    ));
}

#[test]
fn server_id() {
    assert_eq!(Roslyn::LANGUAGE_SERVER_ID, "roslyn");
}
