use vstd::prelude::*;

use crate::transaction::{PackageStatus, PackageStatusError};

verus! {

/// Whether the text is a semantic version that `semver::Version::parse` accepts.
pub uninterp spec fn spec_version_valid(text: Seq<char>) -> bool;

/// Whether the first semantic version orders after the second under
/// `semver::Version`'s total order.
pub uninterp spec fn spec_version_newer(candidate: Seq<char>, installed: Seq<char>) -> bool;

/// Whether the text is a version requirement that `semver::VersionReq::parse` accepts.
pub uninterp spec fn spec_requirement_valid(text: Seq<char>) -> bool;

/// Whether a version requirement, as `semver::VersionReq::matches` decides, is
/// met by a version.
pub uninterp spec fn spec_requirement_matches(requirement: Seq<char>, version: Seq<char>) -> bool;

/// Calls `semver::Version::parse` and reports whether it accepted the text.
#[verifier::external_body]
fn version_is_valid(text: &str) -> (r: bool)
    ensures
        r == spec_version_valid(text@),
{
    semver::Version::parse(text).is_ok()
}

/// Orders two parsed versions with `semver::Version`'s `>`; the claim is that
/// the result depends on the two texts alone, and that it is a strict order,
/// so no version is newer than itself.
#[verifier::external_body]
fn version_is_newer(candidate: &str, installed: &str) -> (r: bool)
    requires
        spec_version_valid(candidate@),
        spec_version_valid(installed@),
    ensures
        r == spec_version_newer(candidate@, installed@),
        candidate@ == installed@ ==> !r,
{
    semver::Version::parse(candidate).unwrap() > semver::Version::parse(installed).unwrap()
}

/// Calls `semver::VersionReq::parse` and reports whether it accepted the text.
#[verifier::external_body]
fn requirement_is_valid(text: &str) -> (r: bool)
    ensures
        r == spec_requirement_valid(text@),
{
    semver::VersionReq::parse(text).is_ok()
}

/// Calls `semver::VersionReq::matches` on a parsed requirement and version.
#[verifier::external_body]
fn requirement_matches(requirement: &str, version: &str) -> (r: bool)
    requires
        spec_requirement_valid(requirement@),
        spec_version_valid(version@),
    ensures
        r == spec_requirement_matches(requirement@, version@),
{
    semver::VersionReq::parse(requirement).unwrap().matches(&semver::Version::parse(version).unwrap())
}

/// Whether a text is a valid semantic version.
pub fn is_valid_version(text: &str) -> (r: bool)
    ensures
        r == spec_version_valid(text@),
{
    version_is_valid(text)
}

/// The status of an installed version against the version a repository offers.
pub open spec fn version_status(installed: Seq<char>, candidate: Seq<char>) -> Result<
    PackageStatus,
    PackageStatusError,
> {
    if !spec_version_valid(installed) {
        Err(PackageStatusError::ParsingVersion)
    } else if spec_version_newer(candidate, installed) {
        Ok(PackageStatus::RequiresUpdate)
    } else {
        Ok(PackageStatus::UpToDate)
    }
}

/// Compares the installed version of a package with the candidate version
/// from its repository: an installed version that does not parse is an
/// error; a newer candidate means the package requires an update.
pub fn cmp(installed_version: &str, candidate_version: &str) -> (r: Result<
    PackageStatus,
    PackageStatusError,
>)
    requires
        spec_version_valid(candidate_version@),
    ensures
        r == version_status(installed_version@, candidate_version@),
        installed_version@ == candidate_version@ ==> r == Ok::<PackageStatus, PackageStatusError>(
            PackageStatus::UpToDate,
        ),
{
    if !version_is_valid(installed_version) {
        return Err(PackageStatusError::ParsingVersion);
    }
    if version_is_newer(candidate_version, installed_version) {
        return Ok(PackageStatus::RequiresUpdate);
    }
    Ok(PackageStatus::UpToDate)
}

/// Compares versions like [`cmp`], first checking that the candidate version
/// is valid: `None` when it is not.
pub fn status_of_versions(installed_version: &str, candidate_version: &str) -> (r: Option<
    Result<PackageStatus, PackageStatusError>,
>)
    ensures
        r == if spec_version_valid(candidate_version@) {
            Some(version_status(installed_version@, candidate_version@))
        } else {
            None
        },
{
    if version_is_valid(candidate_version) {
        Some(cmp(installed_version, candidate_version))
    } else {
        None
    }
}

/// A query that restricts which versions of a package are acceptable.
#[derive(Debug, Clone)]
#[non_exhaustive]
pub enum VersionQuery {
    /// A version given literally.
    Match(String),
    /// A semantic version requirement, such as `>=1.2`.
    Semantic(String),
}

/// Whether a version query accepts a version: only semantic requirements
/// accept anything, and only valid versions they match.
pub open spec fn query_accepts(q: VersionQuery, version: Seq<char>) -> bool {
    match q {
        VersionQuery::Semantic(req) => spec_requirement_valid(req@) && spec_version_valid(version)
            && spec_requirement_matches(req@, version),
        VersionQuery::Match(_) => false,
    }
}

impl VersionQuery {
    /// The requirement that any semantic version meets.
    pub fn any_semantic() -> (r: VersionQuery)
        ensures
            r matches VersionQuery::Semantic(req) && req@ == "*"@,
    {
        proof {
            reveal_strlit("*");
        }
        VersionQuery::Semantic(String::from_str("*"))
    }

    /// Whether this query accepts the given version.
    pub fn matches(&self, version: &str) -> (r: bool)
        ensures
            r == query_accepts(*self, version@),
    {
        match self {
            VersionQuery::Semantic(mask) => {
                if requirement_is_valid(mask.as_str()) && version_is_valid(version) {
                    requirement_matches(mask.as_str(), version)
                } else {
                    false
                }
            },
            VersionQuery::Match(_) => false,
        }
    }
}

} // verus!
