//! The steps from one version to the next.

use vstd::prelude::*;

use crate::history::{any_breaking, any_feature, has_breaking, has_feature, Item};
use crate::identifier::{
    has_number, has_room, is_label, label_of, label_text, lemma_label_of, number_of, numbered,
    suffix_value,
};
use crate::version::{Prerelease, Version, VersionView};

verus! {

/// How the next version of a crate is chosen.
#[derive(Clone, Copy, Debug, PartialEq, Eq, Structural)]
pub enum BumpSpec {
    Auto,
    Keep,
    Patch,
    Minor,
    Major,
    /// Increment existing pre-release counter. Errors if not already a pre-release.
    PreRelease,
}

impl BumpSpec {
    /// The name of the choice on the command line.
    pub open spec fn name(self) -> Seq<char> {
        match self {
            BumpSpec::Auto => "auto"@,
            BumpSpec::Keep => "no"@,
            BumpSpec::Patch => "patch"@,
            BumpSpec::Minor => "minor"@,
            BumpSpec::Major => "major"@,
            BumpSpec::PreRelease => "prerelease"@,
        }
    }

    /// The choice names one of the three numbers of a version.
    pub open spec fn names_number(self) -> bool {
        self is Major || self is Minor || self is Patch
    }

    /// The name of the choice on the command line.
    pub fn to_string(&self) -> (text: String)
        ensures
            text@ == self.name(),
    {
        let name = match self {
            BumpSpec::Auto => "auto",
            BumpSpec::Keep => "no",
            BumpSpec::Patch => "patch",
            BumpSpec::Minor => "minor",
            BumpSpec::Major => "major",
            BumpSpec::PreRelease => "prerelease",
        };
        name.to_owned()
    }
}

/// A version that makes no promise of stability: one below 1.0.0, or a
/// pre-release.
pub open spec fn is_unstable(v: VersionView) -> bool {
    v.major == 0 || !v.is_stable()
}

/// The number of `v` that `spec` names.
pub open spec fn number_named(v: VersionView, spec: BumpSpec) -> nat {
    match spec {
        BumpSpec::Major => v.major,
        BumpSpec::Minor => v.minor,
        _ => v.patch,
    }
}

/// `v` with the number that `spec` names raised by one, the numbers behind it
/// set to zero, and no pre-release.
pub open spec fn raised(v: VersionView, spec: BumpSpec) -> VersionView {
    match spec {
        BumpSpec::Major => VersionView { major: v.major + 1, minor: 0, patch: 0, ..v.released() },
        BumpSpec::Minor => VersionView { minor: v.minor + 1, patch: 0, ..v.released() },
        _ => VersionView { patch: v.patch + 1, ..v.released() },
    }
}

/// `v` is a pre-release of a version that raises the number that `spec` names,
/// so that leaving the pre-release off is the step asked for.
pub open spec fn graduates(v: VersionView, spec: BumpSpec) -> bool {
    !v.is_stable() && match spec {
        BumpSpec::Major => v.minor == 0 && v.patch == 0,
        BumpSpec::Minor => v.patch == 0,
        _ => true,
    }
}

/// The version that follows `v`. With a label it is always the first
/// pre-release of a raised version. Without one a pre-release that led up to
/// the step is released as it is.
pub open spec fn bumped(v: VersionView, spec: BumpSpec, pre_id: Seq<char>) -> VersionView {
    if pre_id.len() > 0 {
        raised(v, spec).with_pre(numbered(pre_id, 0))
    } else if graduates(v, spec) {
        v.released()
    } else {
        raised(v, spec)
    }
}

/// The step is a breaking one: a major step, or a minor step that stays below
/// 1.0.0. A step to a pre-release is not.
pub open spec fn bump_breaks(v: VersionView, spec: BumpSpec, pre_id: Seq<char>) -> bool {
    pre_id.len() == 0 && (spec is Major || spec is Minor && is_unstable(bumped(v, spec, pre_id)))
}

/// The number to raise, if one is raised, is not the largest one.
pub open spec fn bump_fits(v: VersionView, spec: BumpSpec, pre_id: Seq<char>) -> bool {
    pre_id.len() == 0 && graduates(v, spec) || number_named(v, spec) < u64::MAX
}

/// Bump major/minor/patch version. When `pre_id` is non-empty, always bumps the base
/// and sets a pre-release identifier. When empty, may graduate (strip pre) if appropriate.
/// Returns true if this would be a breaking change for `v`.
pub fn bump_major_minor_patch(v: &mut Version, bump_spec: BumpSpec, pre_id: &str) -> (breaking: bool)
    requires
        bump_spec.names_number(),
        pre_id@.len() > 0 ==> is_label(pre_id@),
        bump_fits(old(v)@, bump_spec, pre_id@),
    ensures
        final(v)@ == bumped(old(v)@, bump_spec, pre_id@),
        breaking == bump_breaks(old(v)@, bump_spec, pre_id@),
{
    let graduate = pre_id.is_empty() && !v.pre.is_empty() && match bump_spec {
        BumpSpec::Major => v.minor == 0 && v.patch == 0,
        BumpSpec::Minor => v.patch == 0,
        _ => true,
    };
    if !graduate {
        match bump_spec {
            BumpSpec::Major => {
                v.major = v.major + 1;
                v.minor = 0;
                v.patch = 0;
            },
            BumpSpec::Minor => {
                v.minor = v.minor + 1;
                v.patch = 0;
            },
            _ => {
                v.patch = v.patch + 1;
            },
        }
    }
    v.pre = Prerelease::empty();
    if !pre_id.is_empty() {
        v.pre = Prerelease::numbered(pre_id, 0);
        false
    } else {
        match bump_spec {
            BumpSpec::Major => true,
            BumpSpec::Minor => is_pre_release(v),
            _ => false,
        }
    }
}

/// Returns true if the version makes no promise of stability.
pub fn is_pre_release(semver: &Version) -> (unstable: bool)
    ensures
        unstable == is_unstable(semver@),
{
    semver.major == 0 || !semver.pre.is_empty()
}

/// Extract the label portion of a pre-release identifier (e.g. "beta" from "beta.2").
pub fn extract_pre_label(v: &Version) -> (label: String)
    ensures
        label@ == label_of(v@.pre),
{
    label_text(v.pre.as_str())
}

/// Extract the numeric suffix of a pre-release identifier (e.g. 2 from "beta.2").
/// The last dot-separated segment must be a number if there is more than one.
/// Returns 0 if there is no dot separator (e.g. "beta").
pub fn extract_pre_number(v: &Version) -> (number: u64)
    requires
        has_number(v@.pre),
    ensures
        number == number_of(v@.pre),
{
    suffix_value(v.pre.as_str())
}

/// A crate that moves from `lhs` to `rhs` breaks its dependents.
pub open spec fn breaks(lhs: VersionView, rhs: VersionView) -> bool {
    ||| rhs.major > lhs.major
    ||| rhs.minor > lhs.minor
    ||| !lhs.is_stable() && !rhs.is_stable() && rhs.patch > lhs.patch
}

/// Returns true if a crate moving from version `lhs` to version `rhs` represents a
/// breaking change for its dependents.
///
/// For stable versions: major or minor increases are breaking.
/// For pre-release pairs: any base version component increase (including patch) is breaking,
/// since pre-releases within the same base are expected to share an API contract.
///
/// Label changes (e.g. from beta to rc) at the same base are not breaking: they stand for
/// maturity progression, not API changes.
pub fn rhs_is_breaking_bump_for_lhs(lhs: &Version, rhs: &Version) -> (breaking: bool)
    ensures
        breaking == breaks(lhs@, rhs@),
{
    let both_pre = !lhs.pre.is_empty() && !rhs.pre.is_empty();
    rhs.major > lhs.major || rhs.minor > lhs.minor || (both_pre && rhs.patch > lhs.patch)
}

/// The label of the pre-release that follows `v`: the given one, or else the
/// one that `v` has.
pub open spec fn next_label(v: VersionView, pre_id: Seq<char>) -> Seq<char> {
    if pre_id.len() > 0 {
        pre_id
    } else {
        label_of(v.pre)
    }
}

/// The pre-release that follows the pre-release `v`: its counter is raised by
/// one, or starts at zero under a new label.
pub open spec fn next_prerelease(v: VersionView, pre_id: Seq<char>) -> VersionView {
    let label = next_label(v, pre_id);
    if label == label_of(v.pre) {
        v.with_pre(numbered(label, number_of(v.pre) + 1))
    } else {
        v.with_pre(numbered(label, 0))
    }
}

/// The counter of the pre-release `pre` can be raised by one.
pub open spec fn counter_fits(pre: Seq<char>) -> bool {
    has_number(pre) && number_of(pre) < u64::MAX
}

/// The pre-release that follows `v` can be written down.
pub open spec fn next_prerelease_fits(v: VersionView, pre_id: Seq<char>) -> bool {
    &&& pre_id.len() > 0 ==> is_label(pre_id)
    &&& has_room(next_label(v, pre_id))
    &&& next_label(v, pre_id) == label_of(v.pre) ==> counter_fits(v.pre)
}

/// Moves the pre-release `v` on to the next pre-release of the same version.
pub fn bump_pre_release(v: &mut Version, pre_id: &str)
    requires
        !old(v)@.is_stable(),
        next_prerelease_fits(old(v)@, pre_id@),
    ensures
        final(v)@ == next_prerelease(old(v)@, pre_id@),
{
    let existing_label = extract_pre_label(v);
    let label = if pre_id.is_empty() {
        existing_label.clone()
    } else {
        pre_id.to_owned()
    };
    proof {
        use_type_invariant(&v.pre);
        lemma_label_of(v@.pre);
    }
    let n: u64 = if label == existing_label {
        extract_pre_number(v) + 1
    } else {
        0
    };
    v.pre = Prerelease::numbered(label.as_str(), n);
}

/// The step that a set of commits on top of `v` asks for. Below 1.0.0 each
/// kind of change counts one level less.
pub open spec fn level_of(v: VersionView, items: Seq<Item>) -> BumpSpec {
    if any_breaking(items) {
        if is_unstable(v) {
            BumpSpec::Minor
        } else {
            BumpSpec::Major
        }
    } else if any_feature(items) {
        if is_unstable(v) {
            BumpSpec::Patch
        } else {
            BumpSpec::Minor
        }
    } else {
        BumpSpec::Patch
    }
}

/// The step that `items` on top of `v` ask for.
pub fn commit_level(v: &Version, items: &Vec<Item>) -> (level: BumpSpec)
    ensures
        level == level_of(v@, items@),
        level.names_number(),
{
    if has_breaking(items) {
        if is_pre_release(v) {
            BumpSpec::Minor
        } else {
            BumpSpec::Major
        }
    } else if has_feature(items) {
        if is_pre_release(v) {
            BumpSpec::Patch
        } else {
            BumpSpec::Minor
        }
    } else {
        BumpSpec::Patch
    }
}

/// The stable version that the commits since the stable version `last` lead to.
pub open spec fn auto_target(last: VersionView, items: Seq<Item>) -> VersionView {
    bumped(last, level_of(last, items), Seq::empty())
}

/// The pre-release that follows `v`, where `items` are the commits since the
/// stable version `last`: the next one of the series of `v` if that series is
/// named `label` and leads to the right version, and otherwise the first one
/// of a new series.
pub open spec fn auto_prerelease(
    v: VersionView,
    last: VersionView,
    items: Seq<Item>,
    label: Seq<char>,
) -> VersionView {
    let target = auto_target(last, items);
    if items.len() == 0 {
        v
    } else if v.same_base(target) && !v.is_stable() && label_of(v.pre) == label {
        v.with_pre(numbered(label, number_of(v.pre) + 1))
    } else {
        VersionView { pre: numbered(label, 0), build: v.build, ..target }
    }
}

/// The pre-release that follows `v` can be written down.
pub open spec fn auto_prerelease_fits(
    v: VersionView,
    last: VersionView,
    items: Seq<Item>,
    label: Seq<char>,
) -> bool {
    items.len() > 0 ==> {
        &&& is_label(label)
        &&& bump_fits(last, level_of(last, items), Seq::empty())
        &&& v.same_base(auto_target(last, items)) && !v.is_stable() && label_of(v.pre) == label
            ==> counter_fits(v.pre)
    }
}

/// Moves `v` on to a pre-release, given the commits since the stable version `last`.
pub fn bump_auto_pre_release(v: &mut Version, last_stable: &Version, items: &Vec<Item>, label: &str)
    requires
        auto_prerelease_fits(old(v)@, last_stable@, items@, label@),
    ensures
        final(v)@ == auto_prerelease(old(v)@, last_stable@, items@, label@),
{
    if items.is_empty() {
        return;
    }
    let mut target_base = last_stable.clone();
    let level = commit_level(last_stable, items);
    proof {
        reveal_strlit("");
        assert(""@ =~= Seq::<char>::empty());
    }
    bump_major_minor_patch(&mut target_base, level, "");
    if v.major == target_base.major && v.minor == target_base.minor && v.patch == target_base.patch {
        let existing_label = extract_pre_label(v);
        if !v.pre.is_empty() && existing_label == label.to_owned() {
            let n = extract_pre_number(v);
            v.pre = Prerelease::numbered(label, n + 1);
            return;
        }
    }
    v.major = target_base.major;
    v.minor = target_base.minor;
    v.patch = target_base.patch;
    v.pre = Prerelease::numbered(label, 0);
}

/// The stable version that follows `v`, where `items` are the unreleased
/// commits. A pre-release is released as it is, with or without commits.
pub open spec fn auto_release(v: VersionView, items: Seq<Item>) -> VersionView {
    if !v.is_stable() {
        v.released()
    } else if items.len() == 0 {
        v
    } else {
        bumped(v, level_of(v, items), Seq::empty())
    }
}

/// The step to the stable version that follows `v` is a breaking one.
pub open spec fn auto_release_breaks(v: VersionView, items: Seq<Item>) -> bool {
    v.is_stable() && any_breaking(items)
}

/// The number to raise, if one is raised, is not the largest one.
pub open spec fn auto_release_fits(v: VersionView, items: Seq<Item>) -> bool {
    items.len() > 0 && v.is_stable() ==> bump_fits(v, level_of(v, items), Seq::empty())
}

/// Moves `v` on to a stable version, given the unreleased commits. Returns
/// true if that is a breaking change.
pub fn bump_auto_release(v: &mut Version, items: &Vec<Item>) -> (breaking: bool)
    requires
        auto_release_fits(old(v)@, items@),
    ensures
        final(v)@ == auto_release(old(v)@, items@),
        breaking == auto_release_breaks(old(v)@, items@),
{
    if !v.pre.is_empty() {
        v.pre = Prerelease::empty();
        return false;
    }
    if items.is_empty() {
        return false;
    }
    let level = commit_level(v, items);
    proof {
        reveal_strlit("");
        assert(""@ =~= Seq::<char>::empty());
    }
    bump_major_minor_patch(v, level, "")
}

} // verus!
