use pahkat_client::transaction::{PackageStatus, PackageStatusError};
use pahkat_client::version::{cmp, is_valid_version, status_of_versions, VersionQuery};

#[test]
fn compare_versions() {
    assert_eq!(cmp("1.0.0", "1.0.1").unwrap(), PackageStatus::RequiresUpdate);
    assert_eq!(
        cmp("1.0.0", "1.0.0-nightly.20240516T103300123Z").unwrap(),
        PackageStatus::UpToDate
    );
    assert_eq!(
        cmp("1.0.0-nightly.20240516T103300123Z", "1.0.0").unwrap(),
        PackageStatus::RequiresUpdate
    );
    assert_eq!(
        cmp("1.0.0", "1.0.1-nightly.20240516T103300123Z").unwrap(),
        PackageStatus::RequiresUpdate
    );
    assert_eq!(
        cmp(
            "1.0.1-nightly.20240516T103300123Z",
            "1.0.1-nightly.20241231T103300123Z"
        )
        .unwrap(),
        PackageStatus::RequiresUpdate
    );
}

#[test]
fn same_version_is_up_to_date() {
    assert_eq!(cmp("2.3.4", "2.3.4").unwrap(), PackageStatus::UpToDate);
}

#[test]
fn older_candidate_is_up_to_date() {
    assert_eq!(cmp("2.0.0", "1.9.9").unwrap(), PackageStatus::UpToDate);
}

#[test]
fn unparsable_installed_version_is_an_error() {
    assert!(matches!(
        cmp("not a version", "1.0.0"),
        Err(PackageStatusError::ParsingVersion)
    ));
}

#[test]
fn invalid_candidate_gives_none() {
    assert!(status_of_versions("1.0.0", "garbage").is_none());
    assert!(matches!(
        status_of_versions("1.0.0", "1.2.0"),
        Some(Ok(PackageStatus::RequiresUpdate))
    ));
}

#[test]
fn version_validity() {
    assert!(is_valid_version("1.2.3"));
    assert!(is_valid_version("1.2.3-beta.1"));
    assert!(!is_valid_version("1.2"));
}

#[test]
fn semantic_queries_match_versions() {
    let any = VersionQuery::any_semantic();
    assert!(any.matches("1.2.3"));
    let req = VersionQuery::Semantic(">=2.0.0".to_string());
    assert!(req.matches("2.1.0"));
    assert!(!req.matches("1.9.0"));
    assert!(!req.matches("nonsense"));
    let literal = VersionQuery::Match("1.2.3".to_string());
    assert!(!literal.matches("1.2.3"));
}
