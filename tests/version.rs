use csharp_tools::version::{cmp_prerelease_token, select_max, NuGetVersion};
use std::cmp::Ordering;

fn v(s: &str) -> NuGetVersion {
    NuGetVersion::parse(s).expect("version should parse")
}

fn strings(items: &[&str]) -> Vec<String> {
    items.iter().map(|s| s.to_string()).collect()
}

#[test]
fn parse_fills_missing_parts_with_zero() {
    let p = v("1.2");
    assert_eq!((p.major, p.minor, p.patch, p.revision), (1, 2, 0, 0));
    assert_eq!(p.prerelease, None);
    assert_eq!(p.raw, "1.2");
    let q = v("4.3.2.1-beta.5");
    assert_eq!((q.major, q.minor, q.patch, q.revision), (4, 3, 2, 1));
    assert_eq!(q.prerelease.as_deref(), Some("beta.5"));
    assert_eq!(q.raw, "4.3.2.1-beta.5");
}

#[test]
fn parse_splits_on_first_dash_only() {
    let p = v("1.0.0-rc-1.2");
    assert_eq!(p.prerelease.as_deref(), Some("rc-1.2"));
    let q = v("3-");
    assert_eq!(q.major, 3);
    assert_eq!(q.prerelease.as_deref(), Some(""));
}

#[test]
fn parse_rejects_bad_strings() {
    for bad in ["", "1.2.3.4.5", "a.b", "1..2", "1.x", "-beta", "1.2.", "18446744073709551616", "1 .2"] {
        assert!(NuGetVersion::parse(bad).is_none(), "{bad:?} should not parse");
    }
}

#[test]
fn parse_accepts_plus_sign_and_largest_number() {
    assert_eq!(v("+7.1").major, 7);
    assert_eq!(v("18446744073709551615").major, u64::MAX);
}

#[test]
fn release_is_above_its_prereleases() {
    assert_eq!(v("2.0.0").cmp(&v("2.0.0-alpha.2")), Ordering::Greater);
    assert_eq!(v("2.0.0-alpha.2").cmp(&v("2.0.0-alpha.1")), Ordering::Greater);
    assert_eq!(v("2.0.0-alpha.1").cmp(&v("2.0.0-alpha")), Ordering::Greater);
    assert_eq!(v("2.0.0-alpha").cmp(&v("2.0.0")), Ordering::Less);
}

#[test]
fn missing_parts_compare_equal_to_zero() {
    assert_eq!(v("1.2").cmp(&v("1.2.0.0")), Ordering::Equal);
    assert_eq!(v("1.2.0.0").cmp(&v("1.2")), Ordering::Equal);
}

#[test]
fn numbers_compare_numerically_in_order() {
    assert_eq!(v("1.10.0").cmp(&v("1.9.0")), Ordering::Greater);
    assert_eq!(v("2.0").cmp(&v("1.99.99.99")), Ordering::Greater);
    assert_eq!(v("1.0.0.1").cmp(&v("1.0.0.2")), Ordering::Less);
    assert_eq!(v("1.0.0-rc.10").cmp(&v("1.0.0-rc.9")), Ordering::Greater);
}

#[test]
fn prerelease_tokens_ignore_ascii_case() {
    assert_eq!(v("1.0.0-Beta").cmp(&v("1.0.0-beta")), Ordering::Equal);
    assert_eq!(v("1.0.0-ALPHA").cmp(&v("1.0.0-beta")), Ordering::Less);
}

#[test]
fn shorter_token_sequence_is_smaller() {
    assert_eq!(v("1.0.0-beta").cmp(&v("1.0.0-beta.1")), Ordering::Less);
    assert_eq!(v("1.0.0-beta.1.x").cmp(&v("1.0.0-beta.1")), Ordering::Greater);
}

#[test]
fn prerelease_token_order() {
    assert_eq!(cmp_prerelease_token("2", "10"), Ordering::Less);
    assert_eq!(cmp_prerelease_token("010", "10"), Ordering::Equal);
    assert_eq!(cmp_prerelease_token("99", "alpha"), Ordering::Less);
    assert_eq!(cmp_prerelease_token("alpha", "99"), Ordering::Greater);
    assert_eq!(cmp_prerelease_token("RC", "rc"), Ordering::Equal);
    assert_eq!(cmp_prerelease_token("a", "ab"), Ordering::Less);
    assert_eq!(cmp_prerelease_token("b", "ab"), Ordering::Greater);
}

#[test]
fn order_is_reflexive_antisymmetric_and_transitive_on_samples() {
    let samples = ["1.0", "1.0.0-beta", "1.0.0-Beta.2", "1.0.0-beta.10", "1.0.1", "2.0.0-alpha", "2.0.0", "1.0.0.0"];
    let parsed: Vec<NuGetVersion> = samples.iter().map(|s| v(s)).collect();
    for a in &parsed {
        assert_eq!(a.cmp(a), Ordering::Equal);
        for b in &parsed {
            assert_eq!(a.cmp(b), b.cmp(a).reverse());
            for c in &parsed {
                if a.cmp(b) != Ordering::Greater && b.cmp(c) != Ordering::Greater {
                    assert_ne!(a.cmp(c), Ordering::Greater);
                }
            }
        }
    }
}

#[test]
fn select_max_prefers_latest_prerelease_of_highest_core() {
    let versions = strings(&["1.0.0", "1.0.0-beta", "1.0.1", "2.0.0-alpha.1", "2.0.0-alpha.2"]);
    assert_eq!(select_max(&versions).as_deref(), Some("2.0.0-alpha.2"));
}

#[test]
fn select_max_skips_unparsable_entries() {
    let versions = strings(&["garbage", "1.0.0", "9.x", "0.9"]);
    assert_eq!(select_max(&versions).as_deref(), Some("1.0.0"));
}

#[test]
fn select_max_fails_when_nothing_parses() {
    assert_eq!(select_max(&strings(&["x", "1.2.3.4.5"])), None);
    assert_eq!(select_max(&Vec::new()), None);
}

#[test]
fn select_max_takes_last_of_equal_versions() {
    let versions = strings(&["1.2", "1.2.0.0", "1.0"]);
    assert_eq!(select_max(&versions).as_deref(), Some("1.2.0.0"));
}

#[test]
fn equality_and_operators_follow_the_order() {
    assert!(v("1.2") == v("1.2.0.0"));
    assert!(v("1.0.0-Beta") == v("1.0.0-beta"));
    assert!(v("1.0.0") != v("1.0.0-beta"));
    assert!(v("2.0.0") > v("2.0.0-alpha.2"));
    assert!(v("2.0.0-alpha") < v("2.0.0-alpha.1"));
    assert_eq!(v("1.2").partial_cmp(&v("1.3")), Some(Ordering::Less));
}
