//! Whether the host that calls the preprocessor is of a version that it was
//! built against. A mismatch is worth a warning, no more.

use semver::{Version, VersionReq};
use vstd::prelude::*;
use vstd::string::StringExecFns;

verus! {

/// A version, as `semver` has parsed it.
#[verifier::external_type_specification]
#[verifier::external_body]
pub struct ExVersion(Version);

/// A requirement on versions, as `semver` has parsed it.
#[verifier::external_type_specification]
#[verifier::external_body]
pub struct ExVersionReq(VersionReq);

/// The version that a text spells; `None` where it spells none.
pub uninterp spec fn parsed_version(text: Seq<char>) -> Option<Version>;

/// The requirement that a text spells; `None` where it spells none.
pub uninterp spec fn parsed_requirement(text: Seq<char>) -> Option<VersionReq>;

/// Whether a version meets a requirement.
pub uninterp spec fn meets(requirement: VersionReq, version: Version) -> bool;

/// `Version::parse`, with its error dropped: what it returns depends on the
/// text alone.
#[verifier::external_body]
fn parse_version(text: &str) -> (version: Option<Version>)
    ensures
        version == parsed_version(text@),
{
    Version::parse(text).ok()
}

/// `VersionReq::parse`, with its error dropped: what it returns depends on
/// the text alone.
#[verifier::external_body]
fn parse_requirement(text: &str) -> (requirement: Option<VersionReq>)
    ensures
        requirement == parsed_requirement(text@),
{
    VersionReq::parse(text).ok()
}

/// `VersionReq::matches`: what it returns depends on the requirement and the
/// version alone.
#[verifier::external_body]
fn requirement_met(requirement: &VersionReq, version: &Version) -> (met: bool)
    ensures
        met == meets(*requirement, *version),
{
    requirement.matches(version)
}

/// How the host's version stands to the version built against.
#[derive(Clone, Copy, Debug, PartialEq, Eq, Structural)]
pub enum VersionCheck {
    /// The host's version meets the requirement.
    Compatible,
    /// It does not: the caller warns and goes on.
    Mismatch,
    /// The host's version is no version.
    BadHostVersion,
    /// The version built against is no requirement.
    BadBuiltVersion,
}

/// What becomes of two parsed texts: the host's version is looked at first.
pub open spec fn version_outcome(
    host: Option<Version>,
    built: Option<VersionReq>,
) -> VersionCheck {
    match (host, built) {
        (None, _) => VersionCheck::BadHostVersion,
        (Some(_), None) => VersionCheck::BadBuiltVersion,
        (Some(version), Some(requirement)) => if meets(requirement, version) {
            VersionCheck::Compatible
        } else {
            VersionCheck::Mismatch
        },
    }
}

/// Compares the version that the host reports with the version that the
/// preprocessor was built against, read as a requirement.
pub fn check_version(host: &str, built: &str) -> (out: VersionCheck)
    ensures
        out == version_outcome(parsed_version(host@), parsed_requirement(built@)),
{
    match parse_version(host) {
        None => VersionCheck::BadHostVersion,
        Some(version) => match parse_requirement(built) {
            None => VersionCheck::BadBuiltVersion,
            Some(requirement) => if requirement_met(&requirement, &version) {
                VersionCheck::Compatible
            } else {
                VersionCheck::Mismatch
            },
        },
    }
}

/// The warning that a mismatch is reported with.
pub open spec fn warning_text(name: Seq<char>, built: Seq<char>, host: Seq<char>) -> Seq<char> {
    "Warning: The "@ + name + " plugin was build against version "@ + built
        + " of mdbook, but is being called from version "@ + host
}

/// Writes the warning for a mismatch.
pub fn version_warning(name: &str, built: &str, host: &str) -> (out: String)
    ensures
        out@ == warning_text(name@, built@, host@),
{
    let mut out = String::from_str("Warning: The ");
    out.append(name);
    out.append(" plugin was build against version ");
    out.append(built);
    out.append(" of mdbook, but is being called from version ");
    out.append(host);
    out
}

} // verus!
