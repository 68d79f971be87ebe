use pahkat_client::package_key::{
    pairs_from_params, params_from_pairs, split_package_segments, PackageKey, PackageKeyParams,
    TryFromError,
};
use pahkat_client::url::{blank, RepoUrl, RepoUrlError};

fn params(
    channel: Option<&str>,
    platform: Option<&str>,
    version: Option<&str>,
    arch: Option<&str>,
) -> PackageKeyParams {
    PackageKeyParams {
        channel: channel.map(String::from),
        platform: platform.map(String::from),
        version: version.map(String::from),
        arch: arch.map(String::from),
    }
}

#[test]
fn reads_key_from_url() {
    let key =
        PackageKey::try_from_str("https://pahkat.uit.no/main/packages/speller-sme?platform=windows")
            .unwrap();
    assert_eq!(key.repository_url.as_str(), "https://pahkat.uit.no/main/");
    assert_eq!(key.id, "speller-sme");
    assert_eq!(key.query.platform.as_deref(), Some("windows"));
    assert_eq!(key.query.channel, None);
    assert_eq!(key.query.version, None);
    assert_eq!(key.query.arch, None);
}

#[test]
fn reads_all_parameters_and_drops_fragment() {
    let key = PackageKey::try_from_str(
        "https://example.com/repo/packages/foo?channel=nightly&arch=x86_64&version=1.0.0&platform=macos&other=1#frag",
    )
    .unwrap();
    assert_eq!(key.repository_url.as_str(), "https://example.com/repo/");
    assert_eq!(key.id, "foo");
    assert_eq!(key.query.channel.as_deref(), Some("nightly"));
    assert_eq!(key.query.arch.as_deref(), Some("x86_64"));
    assert_eq!(key.query.version.as_deref(), Some("1.0.0"));
    assert_eq!(key.query.platform.as_deref(), Some("macos"));
}

#[test]
fn key_errors() {
    assert_eq!(PackageKey::try_from_str("not a url").unwrap_err(), TryFromError::InvalidUrl);
    assert_eq!(
        PackageKey::try_from_str("https://example.com/repo/foo").unwrap_err(),
        TryFromError::MissingPackagesSegment
    );
    assert_eq!(
        PackageKey::try_from_str("https://example.com/packages/foo/bar").unwrap_err(),
        TryFromError::InvalidPackageSegment
    );
    assert_eq!(
        PackageKey::try_from_str("https://example.com/packages").unwrap_err(),
        TryFromError::InvalidPackageSegment
    );
    assert_eq!(
        PackageKey::try_from_str("mailto:someone@example.com").unwrap_err(),
        TryFromError::BaseForbidden
    );
}

#[test]
fn key_to_string() {
    let repo = RepoUrl::new("https://pahkat.uit.no/main/").unwrap();
    let key = PackageKey::unchecked_new(repo, "speller-sme".to_string(), None);
    assert_eq!(key.to_string(), "https://pahkat.uit.no/main/packages/speller-sme");

    let repo = RepoUrl::new("https://pahkat.uit.no/main/").unwrap();
    let key = PackageKey::unchecked_new(
        repo,
        "speller-sme".to_string(),
        Some(params(Some("nightly"), Some("windows"), Some("1.2.0"), Some("x86"))),
    );
    assert_eq!(
        key.to_string(),
        "https://pahkat.uit.no/main/packages/speller-sme?arch=x86&channel=nightly&platform=windows&version=1.2.0"
    );
}

#[test]
fn key_string_roundtrip() {
    let repo = RepoUrl::new("https://example.com/a/b/").unwrap();
    let key = PackageKey::unchecked_new(
        repo,
        "pkg".to_string(),
        Some(params(Some("beta"), None, None, Some("arm64"))),
    );
    let text = key.to_string();
    let back = PackageKey::try_from_str(&text).unwrap();
    assert!(back.same_as(&key));
}

#[test]
fn without_query_params_clears_parameters() {
    let key = PackageKey::try_from_str("https://example.com/r/packages/x?channel=c").unwrap();
    let bare = key.without_query_params();
    assert_eq!(bare.query.channel, None);
    assert_eq!(bare.id, "x");
    assert_eq!(bare.to_string(), "https://example.com/r/packages/x");
}

#[test]
fn splits_package_segments() {
    let segs: Vec<String> = vec!["a".into(), "packages".into(), "id".into()];
    let (left, id) = split_package_segments(&segs).unwrap();
    assert_eq!(left, vec!["a".to_string()]);
    assert_eq!(id, "id");
    let segs: Vec<String> = vec!["a".into(), "b".into()];
    assert_eq!(
        split_package_segments(&segs).unwrap_err(),
        TryFromError::MissingPackagesSegment
    );
    let segs: Vec<String> = vec!["packages".into(), "id".into(), "packages".into(), "x".into()];
    assert_eq!(
        split_package_segments(&segs).unwrap_err(),
        TryFromError::InvalidPackageSegment
    );
}

#[test]
fn params_pairs_roundtrip() {
    let p = params(Some("c"), Some("p"), Some("v"), Some("a"));
    let pairs = pairs_from_params(&p);
    assert_eq!(
        pairs,
        vec![
            ("arch".to_string(), "a".to_string()),
            ("channel".to_string(), "c".to_string()),
            ("platform".to_string(), "p".to_string()),
            ("version".to_string(), "v".to_string()),
        ]
    );
    let back = params_from_pairs(&pairs);
    assert!(back.same_as(&p));
}

#[test]
fn later_pairs_win() {
    let pairs = vec![
        ("channel".to_string(), "one".to_string()),
        ("channel".to_string(), "two".to_string()),
        ("unknown".to_string(), "x".to_string()),
    ];
    let p = params_from_pairs(&pairs);
    assert_eq!(p.channel.as_deref(), Some("two"));
    assert_eq!(p.platform, None);
}

#[test]
fn repo_url_errors() {
    assert_eq!(RepoUrl::new("::").unwrap_err(), RepoUrlError::InvalidUrl);
    assert_eq!(RepoUrl::new("data:text/plain,hi").unwrap_err(), RepoUrlError::CannotBeABase);
    let u = RepoUrl::new("HTTPS://Example.COM/x").unwrap();
    assert_eq!(u.as_str(), "https://example.com/x");
}

#[test]
fn blank_texts() {
    assert!(blank(""));
    assert!(blank(" \t\n"));
    assert!(!blank(" a "));
}
