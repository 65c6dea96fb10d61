//! PEP 440 version handling, delegated to the `pep440_rs` crate.
//!
//! Versions and specifiers are carried through the library as their text;
//! only the three operations below look inside them.

use vstd::prelude::*;
use std::str::FromStr;

verus! {

/// The text of the error that `pep440_rs::Version::from_str` reports for the
/// text (its `Display`): `None` where the text parses as a version.
pub uninterp spec fn pep440_version_error(version: Seq<char>) -> Option<Seq<char>>;

/// Whether `pep440_rs::Version::from_str` accepts the text as a version.
pub open spec fn pep440_version_valid(version: Seq<char>) -> bool {
    pep440_version_error(version) is None
}

/// Whether `pep440_rs::VersionSpecifier::from_str` accepts the text as a specifier.
pub uninterp spec fn pep440_specifier_valid(specifier: Seq<char>) -> bool;

/// What `pep440_rs::VersionSpecifier::contains` answers for the parsed specifier
/// and the parsed version.
pub uninterp spec fn pep440_contains(specifier: Seq<char>, version: Seq<char>) -> bool;

/// Calls `pep440_rs::Version::from_str` and gives the text of its error.
/// Claimed: the answer is `pep440_version_error` of the text, a function of it
/// alone; nothing is said about which texts are accepted or what the error
/// says.
#[verifier::external_body]
pub(crate) fn version_error(version: &str) -> (r: Option<String>)
    ensures
        crate::triples::opt_string_view(r) == pep440_version_error(version@),
{
    match pep440_rs::Version::from_str(version) {
        Ok(_) => None,
        Err(e) => Some(e.to_string()),
    }
}

/// Whether the text parses as a PEP 440 version.
pub fn version_is_valid(version: &str) -> (ok: bool)
    ensures
        ok == pep440_version_valid(version@),
{
    version_error(version).is_none()
}

/// Calls `pep440_rs::VersionSpecifier::from_str` and reports whether it succeeded.
/// Claimed: the answer is `pep440_specifier_valid` of the text.
#[verifier::external_body]
pub(crate) fn specifier_is_valid(specifier: &str) -> (ok: bool)
    ensures
        ok == pep440_specifier_valid(specifier@),
{
    pep440_rs::VersionSpecifier::from_str(specifier).is_ok()
}

/// Parses both texts and calls `pep440_rs::VersionSpecifier::contains`.
/// Claimed: on texts that both parse, the answer is `pep440_contains` of the two
/// texts, a function of them alone; the PEP 440 ordering itself is not stated.
#[verifier::external_body]
pub(crate) fn specifier_contains(specifier: &str, version: &str) -> (r: bool)
    requires
        pep440_specifier_valid(specifier@),
        pep440_version_valid(version@),
    ensures
        r == pep440_contains(specifier@, version@),
{
    match (pep440_rs::VersionSpecifier::from_str(specifier), pep440_rs::Version::from_str(version)) {
        (Ok(spec), Ok(v)) => spec.contains(&v),
        _ => false,
    }
}

} // verus!
