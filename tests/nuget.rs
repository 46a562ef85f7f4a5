use csharp_tools::error::AcquireError;
use csharp_tools::nuget::{
    index_url_of, latest_listed, package_url_of, select_base_address, trim_trailing_slashes,
    NuGetClient, ServiceResource, ROSLYN_NUGET_FEED_INDEX,
};

fn res(t: Option<&str>, id: Option<&str>) -> ServiceResource {
    ServiceResource { resource_type: t.map(str::to_string), id: id.map(str::to_string) }
}

const SERVICE_INDEX: &str = r#"{
  "version": "3.0.0",
  "resources": [
    {"@id": "https://api.example.org/query", "@type": "SearchQueryService"},
    {"@id": "https://api.example.org/v3-flatcontainer/", "@type": "PackageBaseAddress/3.0.0"},
    {"@id": "https://mirror.example.org/flat", "@type": "PackageBaseAddress/3.0.0"}
  ]
}"#;

#[test]
fn base_address_is_first_of_its_type_without_trailing_slash() {
    let rs = vec![
        res(Some("SearchQueryService"), Some("https://q")),
        res(None, Some("https://none")),
        res(Some("PackageBaseAddress/3.0.0"), Some("https://flat//")),
        res(Some("PackageBaseAddress/3.0.0"), Some("https://second")),
    ];
    assert_eq!(select_base_address(&rs).unwrap(), "https://flat");
}

#[test]
fn base_address_missing_fails() {
    let rs = vec![res(Some("SearchQueryService"), Some("https://q"))];
    assert!(matches!(select_base_address(&rs), Err(AcquireError::MetadataParseFailure(_))));
    let rs = vec![res(Some("PackageBaseAddress/3.0.0"), None), res(Some("PackageBaseAddress/3.0.0"), Some("https://x"))];
    assert!(matches!(select_base_address(&rs), Err(AcquireError::MetadataParseFailure(_))));
}

#[test]
fn trailing_slashes_are_trimmed() {
    assert_eq!(trim_trailing_slashes("a/b///"), "a/b");
    assert_eq!(trim_trailing_slashes("///"), "");
    assert_eq!(trim_trailing_slashes("a"), "a");
}

#[test]
fn service_index_is_recorded_once_read() {
    let mut c = NuGetClient::new();
    assert_eq!(c.base_address(), None);
    let base = c.record_service_index(SERVICE_INDEX.as_bytes()).unwrap();
    assert_eq!(base, "https://api.example.org/v3-flatcontainer");
    assert_eq!(c.base_address().as_deref(), Some("https://api.example.org/v3-flatcontainer"));
}

#[test]
fn malformed_service_index_fails_and_keeps_state() {
    let mut c = NuGetClient::new();
    assert!(matches!(c.record_service_index(b"{not json"), Err(AcquireError::MetadataParseFailure(_))));
    match c.record_service_index(br#"{"resources": 5}"#) {
        Err(AcquireError::MetadataParseFailure(m)) => assert_eq!(m, "invalid NuGet service index: missing 'resources' array"),
        other => panic!("unexpected {other:?}"),
    }
    assert_eq!(c.base_address(), None);
}

#[test]
fn latest_version_from_version_index() {
    let body = br#"{"versions": ["4.9.0-1.23", "4.10.0-2.24", 7, "4.10.0-2.3", "bogus"]}"#;
    let v = NuGetClient::latest_version_from_index("Roslyn.LanguageServer", body).unwrap();
    assert_eq!(v, "4.10.0-2.24");
}

#[test]
fn version_index_without_versions_fails() {
    assert!(matches!(
        NuGetClient::latest_version_from_index("P", br#"{"items": []}"#),
        Err(AcquireError::MetadataParseFailure(_))
    ));
    match NuGetClient::latest_version_from_index("P", br#"{"versions": ["x", 1]}"#) {
        Err(AcquireError::VersionParseFailure(m)) => assert_eq!(m, "no parseable versions found for NuGet package 'P'"),
        other => panic!("unexpected {other:?}"),
    }
}

#[test]
fn latest_listed_picks_maximum() {
    let vs = vec!["1.0".to_string(), "1.1-rc".to_string(), "1.0.5".to_string()];
    assert_eq!(latest_listed("p", &vs).unwrap(), "1.1-rc");
}

#[test]
fn urls_are_built_from_lower_case_parts() {
    assert_eq!(index_url_of("https://b", "my.pkg"), "https://b/my.pkg/index.json");
    assert_eq!(
        package_url_of("https://b", "my.pkg", "1.0.0-rc"),
        "https://b/my.pkg/1.0.0-rc/my.pkg.1.0.0-rc.nupkg"
    );
}

#[test]
fn urls_lower_case_the_package_id_and_version() {
    assert_eq!(
        NuGetClient::version_index_url("https://b", "Microsoft.CodeAnalysis.LanguageServer"),
        "https://b/microsoft.codeanalysis.languageserver/index.json"
    );
    assert_eq!(
        NuGetClient::package_url("https://b", "My.Pkg", "1.0.0-RC.1"),
        "https://b/my.pkg/1.0.0-rc.1/my.pkg.1.0.0-rc.1.nupkg"
    );
}

#[test]
fn feed_index_address() {
    assert_eq!(ROSLYN_NUGET_FEED_INDEX, "https://api.nuget.org/v3/index.json");
}
