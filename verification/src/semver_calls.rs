//! The calls into the `semver` crate. What is stated here is taken from that
//! crate and not proved.

use vstd::prelude::*;

use crate::identifier::{identifier_limit, is_prerelease};
use crate::order::Order;
use crate::version::{order_version, Version, VersionView};

verus! {

/// The error of the `semver` crate. Nothing in it is looked at.
#[verifier::external_type_specification]
#[verifier::external_body]
pub struct ExSemverError(semver::Error);

/// `semver::Version::parse`, which hands out the three numbers, the
/// pre-release and the build metadata.
///
/// It accepts exactly the texts that are written as a version is: three
/// numbers without leading zeros that fit in 64 bits, then a hyphen and a
/// pre-release or neither, then a plus sign and build metadata or neither.
/// Longer texts could hold an identifier that the crate refuses to store by
/// panicking.
#[verifier::external_body]
pub(crate) fn semver_parse(text: &str) -> (parts: Result<
    (u64, u64, u64, String, String),
    semver::Error,
>)
    requires
        text@.len() <= identifier_limit(),
    ensures
        match parts {
            Ok((major, minor, patch, pre, build)) => (VersionView {
                major: major as nat,
                minor: minor as nat,
                patch: patch as nat,
                pre: pre@,
                build: build@,
            }).reads(text@),
            Err(_) => forall|v: VersionView| !#[trigger] v.reads(text@),
        },
{
    let v = semver::Version::parse(text)?;
    Ok((v.major, v.minor, v.patch, v.pre.as_str().to_owned(), v.build.as_str().to_owned()))
}

/// `semver::Prerelease::new`, which hands out the text that it stored.
///
/// It accepts the empty text and dot-separated identifiers, stores what it
/// accepts unchanged, and refuses everything else.
#[verifier::external_body]
pub(crate) fn semver_prerelease(text: &str) -> (pre: Result<String, semver::Error>)
    requires
        text@.len() <= identifier_limit(),
    ensures
        match pre {
            Ok(stored) => is_prerelease(text@) && stored@ == text@,
            Err(_) => !is_prerelease(text@),
        },
{
    let pre = semver::Prerelease::new(text)?;
    Ok(pre.as_str().to_owned())
}

/// `Ord::cmp` of `semver::Version`.
///
/// It compares major, minor and patch number, then the pre-releases and last
/// the build metadata. A version without a pre-release comes after those with
/// one. Identifiers are compared from left to right: those of digits by their
/// number and before all others, the others in ASCII order, and where all
/// agree the text with fewer identifiers comes first. Identifiers of build
/// metadata may have leading zeros, and with one number the shorter comes
/// first. The crate takes the pre-release and the build metadata of every
/// valid version, so nothing panics on the way.
#[verifier::external_body]
pub(crate) fn semver_order(a: &Version, b: &Version) -> (order: Order)
    requires
        a@.valid(),
        b@.valid(),
    ensures
        order == order_version(a@, b@),
{
    let pre = semver::Prerelease::new(a.pre.as_str()).unwrap();
    let build = semver::BuildMetadata::new(a.build.as_str()).unwrap();
    let lhs = semver::Version { major: a.major, minor: a.minor, patch: a.patch, pre, build };
    let pre = semver::Prerelease::new(b.pre.as_str()).unwrap();
    let build = semver::BuildMetadata::new(b.build.as_str()).unwrap();
    let rhs = semver::Version { major: b.major, minor: b.minor, patch: b.patch, pre, build };
    match lhs.cmp(&rhs) {
        std::cmp::Ordering::Less => Order::Less,
        std::cmp::Ordering::Equal => Order::Equal,
        std::cmp::Ordering::Greater => Order::Greater,
    }
}

} // verus!
