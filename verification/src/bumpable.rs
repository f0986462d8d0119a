//! Tests that tell beforehand whether a version can be chosen, for callers
//! that are handed their inputs from outside.

use vstd::prelude::*;

use crate::bump::{
    auto_prerelease_fits, auto_release_fits, bump_fits, bump_major_minor_patch, commit_level,
    counter_fits, extract_pre_label, extract_pre_number, next_prerelease_fits, BumpSpec,
};
use crate::context::{Context, Package};
use crate::history::{Item, SegmentScope};
use crate::identifier::{has_room, is_label, max_identifier_len, suffix_is_number};
use crate::release::{desired_fits, find_last_stable_version, index_is_valid, is_possible};
use crate::version::{Prerelease, Version};

verus! {

/// A dot and a counter still fit behind `text`.
fn leaves_room(text: &str) -> (room: bool)
    ensures
        room == has_room(text@),
{
    text.unicode_len() <= max_identifier_len() - 21
}

/// `text` can be the label of a pre-release.
pub fn can_be_label(text: &str) -> (usable: bool)
    ensures
        usable == is_label(text@),
{
    !text.is_empty() && Prerelease::new(text).is_ok() && leaves_room(text)
}

/// The counter of the pre-release can be raised by one.
fn can_count(v: &Version) -> (fits: bool)
    ensures
        fits == counter_fits(v@.pre),
{
    suffix_is_number(v.pre.as_str()) && extract_pre_number(v) < u64::MAX
}

/// The number to raise, if one is raised, is not the largest one.
pub fn can_bump(v: &Version, bump_spec: BumpSpec, pre_id: &str) -> (fits: bool)
    ensures
        fits == bump_fits(v@, bump_spec, pre_id@),
{
    let unlabelled = pre_id.is_empty() && !v.pre.is_empty();
    match bump_spec {
        BumpSpec::Major => unlabelled && v.minor == 0 && v.patch == 0 || v.major < u64::MAX,
        BumpSpec::Minor => unlabelled && v.patch == 0 || v.minor < u64::MAX,
        _ => unlabelled || v.patch < u64::MAX,
    }
}

/// The next pre-release of the version can be written down.
pub fn can_bump_pre_release(v: &Version, pre_id: &str) -> (fits: bool)
    ensures
        fits == next_prerelease_fits(v@, pre_id@),
{
    let existing_label = extract_pre_label(v);
    if pre_id.is_empty() {
        leaves_room(existing_label.as_str()) && can_count(v)
    } else {
        can_be_label(pre_id) && (existing_label != pre_id.to_owned() || can_count(v))
    }
}

/// The pre-release that the commits since the stable version `last_stable`
/// lead to can be written down.
pub fn can_bump_auto_pre_release(
    v: &Version,
    last_stable: &Version,
    items: &Vec<Item>,
    label: &str,
) -> (fits: bool)
    ensures
        fits == auto_prerelease_fits(v@, last_stable@, items@, label@),
{
    if items.is_empty() {
        return true;
    }
    let level = commit_level(last_stable, items);
    proof {
        reveal_strlit("");
        assert(""@ =~= Seq::<char>::empty());
    }
    if !can_be_label(label) || !can_bump(last_stable, level, "") {
        return false;
    }
    let mut target = last_stable.clone();
    bump_major_minor_patch(&mut target, level, "");
    let counts_on = v.major == target.major && v.minor == target.minor && v.patch == target.patch
        && !v.pre.is_empty() && extract_pre_label(v) == label.to_owned();
    !counts_on || can_count(v)
}

/// The stable version that the unreleased commits lead to can be written down.
pub fn can_bump_auto_release(v: &Version, items: &Vec<Item>) -> (fits: bool)
    ensures
        fits == auto_release_fits(v@, items@),
{
    proof {
        reveal_strlit("");
        assert(""@ =~= Seq::<char>::empty());
    }
    items.is_empty() || !v.pre.is_empty() || can_bump(v, commit_level(v, items), "")
}

/// What `bump_package_with_spec` needs of its arguments is there.
pub fn can_bump_package_with_spec(package: &Package, bump_spec: BumpSpec, ctx: &Context) -> (fits: bool)
    ensures
        fits == (is_possible(*package, bump_spec, *ctx) ==> {
            &&& desired_fits(*package, bump_spec, *ctx)
            &&& index_is_valid(*package, ctx.crates_index)
        }),
{
    let v = &package.version;
    let pre_id = ctx.pre_id.as_str();
    let desired_fits = match bump_spec {
        BumpSpec::Major | BumpSpec::Minor | BumpSpec::Patch => (pre_id.is_empty() || can_be_label(
            pre_id,
        )) && can_bump(v, bump_spec, pre_id),
        BumpSpec::PreRelease => {
            if v.pre.is_empty() {
                return true;
            }
            can_bump_pre_release(v, pre_id)
        },
        BumpSpec::Keep => true,
        BumpSpec::Auto => match &ctx.history {
            None => {
                return true;
            },
            Some(history) => if pre_id.is_empty() {
                history.scope == SegmentScope::Unreleased && history.segments.len() == 1
                    && can_bump_auto_release(v, &history.segments[0].history)
            } else {
                history.scope == SegmentScope::UnreleasedSinceStable && history.segments.len() > 0
                    && can_bump_auto_pre_release(
                    v,
                    &find_last_stable_version(package, ctx),
                    &history.segments[0].history,
                    pre_id,
                )
            },
        },
    };
    let index_is_valid = match ctx.crates_index.crate_(&package.name) {
        Some(published_crate) => Version::parse(published_crate.highest_version.as_str()).is_ok(),
        None => true,
    };
    desired_fits && index_is_valid
}

} // verus!
