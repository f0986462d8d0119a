//! What holds of the steps between versions as a whole.

pub mod orders;
pub mod releases;
pub mod steps;
pub mod text;

use vstd::prelude::*;

use crate::bump::{
    auto_prerelease, auto_prerelease_fits, auto_release, auto_release_breaks, auto_target, breaks,
    bump_breaks, bump_fits, bumped, counter_fits, graduates, level_of, next_label, next_prerelease,
    next_prerelease_fits, raised, BumpSpec,
};
use crate::context::{find_crate, Context, Index, Package};
use crate::history::{any_breaking, any_feature, Item};
use crate::identifier::{
    is_label, is_prerelease, label_of, lemma_label_of, lemma_numbered, lemma_numbered_is_prerelease,
    lemma_numbered_parts, lemma_order_first_counter, lemma_order_numbered, number_of, numbered,
    order_prerelease, suffix_number,
};
use crate::order::Order;
use crate::release::{
    desired, desired_breaks, desired_fits, greatest_stable, is_possible, last_stable,
    next_release, parsed_stable, unreleased,
};
use crate::version::{lemma_order_version_total, order_version, VersionView};

verus! {

/// A step to a new version leads to a greater one, with or without a label,
/// and also where it takes a pre-release off.
pub proof fn law_bump_increases(v: VersionView, spec: BumpSpec, pre_id: Seq<char>)
    requires
        spec.names_number(),
    ensures
        order_version(v, bumped(v, spec, pre_id)) == Order::Less,
        order_version(bumped(v, spec, pre_id), v) == Order::Greater,
{
}

/// A step to a new version leads to a valid one.
pub proof fn law_bump_valid(v: VersionView, spec: BumpSpec, pre_id: Seq<char>)
    requires
        v.valid(),
        spec.names_number(),
        pre_id.len() > 0 ==> is_label(pre_id),
        bump_fits(v, spec, pre_id),
    ensures
        bumped(v, spec, pre_id).valid(),
{
    if pre_id.len() > 0 {
        lemma_numbered_is_prerelease(pre_id, 0);
    }
}

/// The same step made without a label from the pre-release that it led to
/// with a label releases the version that it would have led to at once.
pub proof fn law_graduation_completes_bump(v: VersionView, spec: BumpSpec, pre_id: Seq<char>)
    requires
        spec.names_number(),
        v.is_stable(),
        pre_id.len() > 0,
    ensures
        bumped(bumped(v, spec, pre_id), spec, Seq::empty()) == bumped(v, spec, Seq::empty()),
{
    lemma_numbered(pre_id, 0);
    assert(v.pre =~= Seq::<char>::empty());
}

/// A step without a label leads to a stable version, and one with a label to
/// the pre-release number zero of that label.
pub proof fn law_bump_pre_release_part(v: VersionView, spec: BumpSpec, pre_id: Seq<char>)
    ensures
        bumped(v, spec, Seq::empty()).is_stable(),
        pre_id.len() > 0 ==> {
            &&& !bumped(v, spec, pre_id).is_stable()
            &&& label_of(bumped(v, spec, pre_id).pre) == pre_id
            &&& number_of(bumped(v, spec, pre_id).pre) == 0
        },
{
    lemma_numbered(pre_id, 0);
}

/// With a label the base is always raised, from a pre-release too, and
/// existing caret requirements cannot match the result.
pub proof fn law_labelled_bump_changes_base(v: VersionView, spec: BumpSpec, pre_id: Seq<char>)
    requires
        spec.names_number(),
        pre_id.len() > 0,
    ensures
        bumped(v, spec, pre_id).same_base(raised(v, spec)),
        !bumped(v, spec, pre_id).same_base(v),
        !bump_breaks(v, spec, pre_id),
{
}

/// From a stable version, a step that is called breaking breaks dependents.
pub proof fn law_declared_break_breaks(v: VersionView, spec: BumpSpec, pre_id: Seq<char>)
    requires
        spec.names_number(),
        v.is_stable(),
        bump_breaks(v, spec, pre_id),
    ensures
        breaks(v, bumped(v, spec, pre_id)),
{
}

/// To leave off the pre-release never breaks dependents.
pub proof fn law_graduation_never_breaks(v: VersionView, spec: BumpSpec)
    requires
        graduates(v, spec),
    ensures
        bumped(v, spec, Seq::empty()) == v.released(),
        !breaks(v, bumped(v, spec, Seq::empty())),
{
}

/// Versions with the same numbers never break each other's dependents,
/// whatever their labels and counters are.
pub proof fn law_same_base_never_breaks(lhs: VersionView, rhs: VersionView)
    requires
        lhs.same_base(rhs),
    ensures
        !breaks(lhs, rhs),
{
}

/// Between stable versions an increase of the major or minor number breaks,
/// and between pre-releases an increase of any number.
pub proof fn law_breaking_numbers(lhs: VersionView, rhs: VersionView)
    ensures
        lhs.is_stable() && rhs.is_stable() ==> (breaks(lhs, rhs) == (rhs.major > lhs.major
            || rhs.minor > lhs.minor)),
        !lhs.is_stable() && !rhs.is_stable() ==> (breaks(lhs, rhs) == (rhs.major > lhs.major
            || rhs.minor > lhs.minor || rhs.patch > lhs.patch)),
{
}

/// The next pre-release keeps everything but its pre-release part, has the
/// label that was asked for, and counts on from the last one under the same
/// label and from zero under a new one.
pub proof fn law_next_prerelease(v: VersionView, pre_id: Seq<char>)
    requires
        next_prerelease_fits(v, pre_id),
    ensures
        next_prerelease(v, pre_id).same_base(v),
        next_prerelease(v, pre_id).build == v.build,
        !next_prerelease(v, pre_id).is_stable(),
        label_of(next_prerelease(v, pre_id).pre) == next_label(v, pre_id),
        next_label(v, pre_id) == label_of(v.pre) ==> number_of(next_prerelease(v, pre_id).pre)
            == number_of(v.pre) + 1,
        next_label(v, pre_id) != label_of(v.pre) ==> number_of(next_prerelease(v, pre_id).pre) == 0,
        !breaks(v, next_prerelease(v, pre_id)),
{
    let label = next_label(v, pre_id);
    lemma_numbered(label, 0);
    if label == label_of(v.pre) {
        lemma_numbered(label, number_of(v.pre) + 1);
    }
}

/// The next pre-release is a valid version.
pub proof fn law_next_prerelease_valid(v: VersionView, pre_id: Seq<char>)
    requires
        v.valid(),
        !v.is_stable(),
        next_prerelease_fits(v, pre_id),
    ensures
        next_prerelease(v, pre_id).valid(),
{
    lemma_label_of(v.pre);
    let label = next_label(v, pre_id);
    lemma_numbered_is_prerelease(label, 0);
    if label == label_of(v.pre) {
        lemma_numbered_is_prerelease(label, (number_of(v.pre) + 1) as u64);
    }
}

/// Under the same label the next pre-release is the greater version.
pub proof fn law_next_prerelease_increases(v: VersionView, pre_id: Seq<char>)
    requires
        v.valid(),
        !v.is_stable(),
        next_prerelease_fits(v, pre_id),
        next_label(v, pre_id) == label_of(v.pre),
    ensures
        order_version(v, next_prerelease(v, pre_id)) == Order::Less,
{
    lemma_counter_increases(v.pre);
}

/// A raised counter makes a greater pre-release.
proof fn lemma_counter_increases(pre: Seq<char>)
    requires
        is_prerelease(pre),
        pre.len() > 0,
        counter_fits(pre),
    ensures
        numbered(label_of(pre), number_of(pre) + 1) != pre,
        order_prerelease(pre, numbered(label_of(pre), number_of(pre) + 1)) == Order::Less,
{
    let label = label_of(pre);
    let n = number_of(pre);
    lemma_label_of(pre);
    lemma_numbered(label, n + 1);
    if suffix_number(pre) is Some {
        lemma_numbered_parts(pre);
        lemma_order_numbered(label, n, n + 1);
        lemma_numbered(label, n);
    } else {
        lemma_order_first_counter(label, n + 1);
    }
}

/// Without commits an automatic choice changes nothing, but that without a
/// label a pre-release is still released.
pub proof fn law_auto_without_commits(
    v: VersionView,
    last: VersionView,
    items: Seq<Item>,
    label: Seq<char>,
)
    requires
        items.len() == 0,
    ensures
        v.is_stable() ==> auto_release(v, items) == v,
        auto_prerelease(v, last, items, label) == v,
        !auto_release_breaks(v, items),
{
}

/// An automatic choice without a label leads to a stable version. With commits
/// or from a pre-release it is a greater one.
pub proof fn law_auto_release_increases(v: VersionView, items: Seq<Item>)
    ensures
        auto_release(v, items).is_stable(),
        items.len() > 0 || !v.is_stable() ==> order_version(v, auto_release(v, items))
            == Order::Less,
{
}

/// On a pre-release an automatic choice without a label takes the pre-release
/// off, whatever the commits are, and is not breaking.
pub proof fn law_auto_release_graduates(v: VersionView, items: Seq<Item>)
    requires
        !v.is_stable(),
    ensures
        auto_release(v, items) == v.released(),
        !auto_release_breaks(v, items),
        !breaks(v, auto_release(v, items)),
{
}

/// On a stable version the automatic step is a breaking one exactly if a
/// commit is, and then it breaks dependents.
pub proof fn law_auto_release_breaking(v: VersionView, items: Seq<Item>)
    requires
        v.is_stable(),
    ensures
        any_breaking(items) == bump_breaks(v, level_of(v, items), Seq::empty()),
        auto_release_breaks(v, items) == any_breaking(items),
        any_breaking(items) ==> breaks(v, auto_release(v, items)),
{
}

/// Below 1.0.0 a breaking commit asks for a minor step and a feature for a
/// patch step; from 1.0.0 on they ask for a major and a minor step. Anything
/// else asks for a patch step.
pub proof fn law_commit_levels(v: VersionView, items: Seq<Item>)
    requires
        v.is_stable(),
    ensures
        any_breaking(items) ==> level_of(v, items) == if v.major == 0 {
            BumpSpec::Minor
        } else {
            BumpSpec::Major
        },
        !any_breaking(items) && any_feature(items) ==> level_of(v, items) == if v.major == 0 {
            BumpSpec::Patch
        } else {
            BumpSpec::Minor
        },
        !any_breaking(items) && !any_feature(items) ==> level_of(v, items) == BumpSpec::Patch,
{
}

/// An automatic choice with a label leads to a pre-release of that label of
/// the version that the commits since the last stable one ask for. That is
/// greater than the last stable one.
pub proof fn law_auto_prerelease(
    v: VersionView,
    last: VersionView,
    items: Seq<Item>,
    label: Seq<char>,
)
    requires
        last.is_stable(),
        items.len() > 0,
        auto_prerelease_fits(v, last, items, label),
    ensures
        auto_prerelease(v, last, items, label).same_base(auto_target(last, items)),
        auto_prerelease(v, last, items, label).build == v.build,
        !auto_prerelease(v, last, items, label).is_stable(),
        label_of(auto_prerelease(v, last, items, label).pre) == label,
        order_version(last, auto_prerelease(v, last, items, label)) == Order::Less,
{
    lemma_numbered(label, 0);
    if v.same_base(auto_target(last, items)) && !v.is_stable() && label_of(v.pre) == label {
        lemma_numbered(label, number_of(v.pre) + 1);
    }
}

/// As long as the commits ask for the base that a pre-release has, each
/// automatic choice with its label raises the counter by one, and so leads to
/// a greater version.
pub proof fn law_auto_prerelease_counts(
    v: VersionView,
    last: VersionView,
    items: Seq<Item>,
    label: Seq<char>,
)
    requires
        v.valid(),
        items.len() > 0,
        auto_prerelease_fits(v, last, items, label),
        v.same_base(auto_target(last, items)),
        !v.is_stable(),
        label_of(v.pre) == label,
    ensures
        auto_prerelease(v, last, items, label) == next_prerelease(v, Seq::empty()),
        number_of(auto_prerelease(v, last, items, label).pre) == number_of(v.pre) + 1,
        order_version(v, auto_prerelease(v, last, items, label)) == Order::Less,
{
    lemma_numbered(label, number_of(v.pre) + 1);
    lemma_counter_increases(v.pre);
}

/// Where the commits ask for a higher base than a version has, the first
/// pre-release of that base follows, which is a greater version.
pub proof fn law_auto_prerelease_escalates(
    v: VersionView,
    last: VersionView,
    items: Seq<Item>,
    label: Seq<char>,
)
    requires
        items.len() > 0,
        !v.same_base(auto_target(last, items)),
        order_version(v.released(), auto_target(last, items).released()) == Order::Less,
    ensures
        auto_prerelease(v, last, items, label).same_base(auto_target(last, items)),
        auto_prerelease(v, last, items, label).pre == numbered(label, 0),
        order_version(v, auto_prerelease(v, last, items, label)) == Order::Less,
{
}

/// Where the commits ask for another base, or the label is a new one, the
/// counter starts at zero.
pub proof fn law_auto_prerelease_restarts(
    v: VersionView,
    last: VersionView,
    items: Seq<Item>,
    label: Seq<char>,
)
    requires
        items.len() > 0,
        !v.same_base(auto_target(last, items)) || v.is_stable() || label_of(v.pre) != label,
    ensures
        number_of(auto_prerelease(v, last, items, label).pre) == 0,
{
    lemma_numbered(label, 0);
}

/// The same automatic choice made every week: once commits have led to a
/// pre-release, further commits that ask for no higher base raise its counter
/// by one, and the choice without a label releases what they led up to, also
/// right after a pre-release, when nothing is unreleased.
pub proof fn law_weekly_pre_releases(
    v: VersionView,
    last: VersionView,
    items: Seq<Item>,
    later: Seq<Item>,
    unreleased: Seq<Item>,
    label: Seq<char>,
)
    requires
        last.is_stable(),
        items.len() > 0,
        later.len() > 0,
        auto_prerelease_fits(v, last, items, label),
        auto_target(last, later).same_base(auto_target(last, items)),
        number_of(auto_prerelease(v, last, items, label).pre) < u64::MAX,
    ensures
        ({
            let first = auto_prerelease(v, last, items, label);
            let second = auto_prerelease(first, last, later, label);
            &&& second.same_base(first)
            &&& second.build == first.build
            &&& label_of(second.pre) == label
            &&& number_of(second.pre) == number_of(first.pre) + 1
            &&& auto_release(second, unreleased) == first.released()
            &&& auto_release(second, unreleased).same_base(auto_target(last, items))
        }),
{
    let first = auto_prerelease(v, last, items, label);
    law_auto_prerelease(v, last, items, label);
    lemma_numbered(label, number_of(first.pre) + 1);
}

/// `a` does not come after `b`.
pub open spec fn at_most(a: VersionView, b: VersionView) -> bool {
    order_version(a, b) != Order::Greater
}

/// What does not come after something does not come after anything that it
/// does not come after either, and one of two versions does not come after
/// the other.
proof fn lemma_at_most(a: VersionView, b: VersionView, c: VersionView)
    ensures
        at_most(a, b) && at_most(b, c) ==> at_most(a, c),
        at_most(a, b) || at_most(b, a),
        at_most(a, a),
{
    lemma_order_version_total();
    let version = |x: VersionView, y: VersionView| order_version(x, y);
    assert((version(a, b) == Order::Equal) == (a == b));
    assert((version(b, c) == Order::Equal) == (b == c));
    assert((version(a, a) == Order::Equal) == (a == a));
    assert(version(b, a) == version(a, b).reverse());
    assert(version(a, b) == Order::Less && version(b, c) == Order::Less ==> version(a, c)
        == Order::Less);
}

/// The greatest stable version among the texts is one of them, and none of
/// the stable ones comes after it.
pub proof fn law_greatest_stable(texts: Seq<String>)
    ensures
        match greatest_stable(texts) {
            Some(v) => {
                &&& v.is_stable()
                &&& exists|i: int| 0 <= i < texts.len() && parsed_stable((#[trigger] texts[i])@) == Some(v)
                &&& forall|i: int|
                    0 <= i < texts.len() && parsed_stable((#[trigger] texts[i])@) is Some ==> at_most(
                        parsed_stable(texts[i]@)->0,
                        v,
                    )
            },
            None => forall|i: int|
                0 <= i < texts.len() ==> parsed_stable((#[trigger] texts[i])@) is None,
        },
    decreases texts.len(),
{
    if texts.len() > 0 {
        let init = texts.drop_last();
        let last = texts.len() - 1;
        law_greatest_stable(init);
        assert(texts[last] == texts.last());
        if greatest_stable(init) is Some {
            let a = greatest_stable(init)->0;
            let k = choose|i: int| 0 <= i < init.len() && parsed_stable((#[trigger] init[i])@) == Some(a);
            assert(parsed_stable(texts[k]@) == Some(a));
        }
        if greatest_stable(texts) is Some {
            let v = greatest_stable(texts)->0;
            assert forall|i: int|
                0 <= i < texts.len() && parsed_stable((#[trigger] texts[i])@) is Some implies at_most(
                parsed_stable(texts[i]@)->0,
                v,
            ) by {
                let w = parsed_stable(texts[i]@)->0;
                if i < last {
                    assert(init[i] == texts[i]);
                    lemma_at_most(w, greatest_stable(init)->0, v);
                    lemma_at_most(greatest_stable(init)->0, v, v);
                } else {
                    lemma_at_most(w, v, v);
                }
                lemma_at_most(w, w, w);
            }
        } else {
            assert forall|i: int| 0 <= i < texts.len() implies parsed_stable((#[trigger] texts[i])@) is None by {
                if i < last {
                    assert(init[i] == texts[i]);
                }
            }
        }
    }
}

/// The last stable version is stable, is no less than any stable version that
/// was published, and is a published one if there is any.
pub proof fn law_last_stable(package: Package, index: Index)
    ensures
        last_stable(package, index).is_stable(),
        find_crate(index.crates@, package.name@) matches Some(published) ==> {
            &&& forall|i: int|
                0 <= i < published.versions@.len() && parsed_stable(
                    (#[trigger] published.versions@[i])@,
                ) is Some ==> at_most(
                    parsed_stable(published.versions@[i]@)->0,
                    last_stable(package, index),
                )
            &&& (exists|i: int|
                0 <= i < published.versions@.len() && parsed_stable(
                    (#[trigger] published.versions@[i])@,
                ) is Some) ==> exists|i: int|
                0 <= i < published.versions@.len() && parsed_stable(
                    (#[trigger] published.versions@[i])@,
                ) == Some(last_stable(package, index))
        },
{
    if let Some(published) = find_crate(index.crates@, package.name@) {
        law_greatest_stable(published.versions@);
    }
}

/// The last stable version of a package with a valid version is valid.
pub proof fn law_last_stable_valid(package: Package, index: Index)
    requires
        package.version@.valid(),
    ensures
        last_stable(package, index).valid(),
{
    if let Some(published) = find_crate(index.crates@, package.name@) {
        law_greatest_stable(published.versions@);
    }
}

/// The version that is asked for is valid.
pub proof fn law_desired_valid(package: Package, spec: BumpSpec, ctx: Context)
    requires
        package.version@.valid(),
        is_possible(package, spec, ctx),
        desired_fits(package, spec, ctx),
    ensures
        desired(package, spec, ctx).valid(),
{
    let v = package.version@;
    let pre_id = ctx.pre_id@;
    match spec {
        BumpSpec::Major | BumpSpec::Minor | BumpSpec::Patch => law_bump_valid(v, spec, pre_id),
        BumpSpec::PreRelease => law_next_prerelease_valid(v, pre_id),
        BumpSpec::Keep => {},
        BumpSpec::Auto => {
            let items = unreleased(ctx);
            if items.len() > 0 && pre_id.len() > 0 {
                let last = last_stable(package, ctx.crates_index);
                law_last_stable_valid(package, ctx.crates_index);
                law_bump_valid(last, level_of(last, items), Seq::empty());
                lemma_numbered_is_prerelease(pre_id, 0);
                if counter_fits(v.pre) {
                    lemma_numbered_is_prerelease(pre_id, (number_of(v.pre) + 1) as u64);
                }
            } else if items.len() > 0 && v.is_stable() {
                law_bump_valid(v, level_of(v, items), Seq::empty());
            }
        },
    }
}

/// The build metadata of the package stays as it is, whatever is asked for.
pub proof fn law_desired_keeps_build(package: Package, spec: BumpSpec, ctx: Context)
    ensures
        desired(package, spec, ctx).build == package.version@.build,
{
}

/// A step is called breaking only if no label was given.
pub proof fn law_labelled_steps_never_break(package: Package, spec: BumpSpec, ctx: Context)
    requires
        ctx.pre_id@.len() > 0,
    ensures
        !desired_breaks(package, spec, ctx),
{
}

/// What is released is the version that was asked for or the one that the
/// manifest has. It is the former where the bump is to be made in any case.
pub proof fn law_next_release_choice(
    desired: VersionView,
    current: VersionView,
    latest: Option<VersionView>,
    bump_when_needed: bool,
    must_break: bool,
)
    ensures
        ({
            let next = next_release(desired, current, latest, bump_when_needed, must_break);
            &&& next == desired || next == current
            &&& !bump_when_needed ==> next == desired
            &&& desired == current ==> next == current
        }),
{
}

/// To keep the version releases the one that the manifest has.
pub proof fn law_keep(
    package: Package,
    ctx: Context,
    latest: Option<VersionView>,
    bump_when_needed: bool,
)
    ensures
        is_possible(package, BumpSpec::Keep, ctx),
        next_release(
            desired(package, BumpSpec::Keep, ctx),
            package.version@,
            latest,
            bump_when_needed,
            desired_breaks(package, BumpSpec::Keep, ctx),
        ) == package.version@,
{
}

/// If the version that was asked for comes after all published ones, then
/// what is released does so too, and it breaks dependents of the highest
/// published one if it must and the manifest's version was taken.
pub proof fn law_next_release_unpublished(
    desired: VersionView,
    current: VersionView,
    latest: VersionView,
    bump_when_needed: bool,
    must_break: bool,
)
    requires
        order_version(latest, desired) == Order::Less,
    ensures
        ({
            let next = next_release(desired, current, Some(latest), bump_when_needed, must_break);
            &&& order_version(latest, next) == Order::Less
            &&& must_break && next != desired ==> breaks(latest, next)
        }),
{
    lemma_order_version_total();
    let version = |x: VersionView, y: VersionView| order_version(x, y);
    assert(version(latest, current) == version(current, latest).reverse());
}

} // verus!
