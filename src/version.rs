//! Checking this program's version against a semantic-version range.
use semver::{Version, VersionReq};
use vstd::prelude::*;

verus! {

#[verifier::external_type_specification]
#[verifier::external_body]
pub struct ExVersion(Version);

#[verifier::external_type_specification]
#[verifier::external_body]
pub struct ExVersionReq(VersionReq);

/// Whether a text is a well-formed version range.
pub uninterp spec fn range_parses(text: Seq<char>) -> bool;

/// Whether a text is a well-formed version.
pub uninterp spec fn version_parses(text: Seq<char>) -> bool;

/// Whether the version written `version` lies in the range written `range`.
pub uninterp spec fn version_in_range(range: Seq<char>, version: Seq<char>) -> bool;

/// A parsed range beside its text. Only `parse_range` makes one.
pub struct Range {
    req: VersionReq,
    text: String,
}

/// A parsed version beside its text. Only `parse_version` makes one.
pub struct Release {
    ver: Version,
    text: String,
}

/// Relies on `semver::VersionReq::parse`; a malformed range gives the error's text.
#[verifier::external_body]
fn parse_range(text: &str) -> (r: Result<Range, String>)
    ensures
        r is Ok <==> range_parses(text@),
        r matches Ok(x) ==> x.text@ == text@,
{
    VersionReq::parse(text).map(|req| Range { req, text: text.to_string() }).map_err(|e| e.to_string())
}

/// Relies on `semver::Version::parse`; a malformed version gives the error's text.
#[verifier::external_body]
fn parse_version(text: &str) -> (r: Result<Release, String>)
    ensures
        r is Ok <==> version_parses(text@),
        r matches Ok(x) ==> x.text@ == text@,
{
    Version::parse(text).map(|ver| Release { ver, text: text.to_string() }).map_err(|e| e.to_string())
}

/// Relies on `semver::VersionReq::matches`.
#[verifier::external_body]
fn range_matches(req: &Range, v: &Release) -> (r: bool)
    ensures
        r == version_in_range(req.text@, v.text@),
{
    req.req.matches(&v.ver)
}

/// The exit status of a version check: `0` when `version` lies in `range`, `1` when it does
/// not, or the text of the parse error of either.
pub fn check_version(range: &str, version: &str) -> (r: Result<i32, String>)
    ensures
        r is Ok <==> range_parses(range@) && version_parses(version@),
        r matches Ok(code) ==> code == (if version_in_range(range@, version@) {
            0i32
        } else {
            1i32
        }),
{
    let req = match parse_range(range) {
        Ok(q) => q,
        Err(e) => {
            return Err(e);
        },
    };
    let ver = match parse_version(version) {
        Ok(v) => v,
        Err(e) => {
            return Err(e);
        },
    };
    if range_matches(&req, &ver) {
        Ok(0)
    } else {
        Ok(1)
    }
}

} // verus!
