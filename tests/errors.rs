use csharp_tools::error::{join_names, AcquireError};

#[test]
fn messages_of_every_kind() {
    let plain = [
        AcquireError::UnsupportedPlatform("a".to_string()),
        AcquireError::RegistryFetchFailure("b".to_string()),
        AcquireError::MetadataParseFailure("c".to_string()),
        AcquireError::DownloadFailure("d".to_string()),
        AcquireError::FilesystemFailure("e".to_string()),
        AcquireError::VersionParseFailure("f".to_string()),
    ];
    let texts: Vec<String> = plain.iter().map(|e| e.message()).collect();
    assert_eq!(texts, vec!["a", "b", "c", "d", "e", "f"]);
    let e = AcquireError::BinaryNotFoundAfterExtraction { name: "netcoredbg".to_string(), root: "/tmp/s".to_string() };
    assert_eq!(e.message(), "Could not find netcoredbg binary in extracted content at /tmp/s");
    let e = AcquireError::AssetNotFoundForPlatform { expected: "x.zip".to_string(), available: vec![] };
    assert_eq!(e.message(), "No compatible asset found for platform. Looking for: 'x.zip'. Available assets: []");
}

#[test]
fn names_are_joined_with_commas() {
    assert_eq!(join_names(&vec![]), "");
    assert_eq!(join_names(&vec!["a".to_string()]), "a");
    assert_eq!(join_names(&vec!["a".to_string(), "b".to_string(), "c".to_string()]), "a, b, c");
}
