//! What the choice of the next release comes to.

use vstd::prelude::*;

use crate::bump::{
    auto_prerelease, auto_release, bumped, next_prerelease, next_prerelease_fits, BumpSpec,
};
use crate::context::{
    auto_scope, find_crate, is_requested, selected_spec, Context, Index, Package, PublishedCrate,
};
use crate::decimal::{decimal, parsed_u64};
use crate::history::SegmentScope;
use crate::identifier::{has_room, is_label};
use crate::laws::{law_greatest_stable, law_last_stable};
use crate::laws::steps::{
    law_auto_prerelease_fits, law_auto_prerelease_goes_on_counting, law_auto_prerelease_new_label,
    law_auto_prerelease_new_numbers, law_auto_prerelease_of_breaking_commit,
    law_auto_prerelease_of_feature_commit, law_auto_prerelease_of_other_commits,
    law_auto_release_of_breaking_commit, law_auto_release_of_feature_commit,
    law_auto_release_of_other_commits, law_next_prerelease_counts, law_next_prerelease_fits,
    law_next_prerelease_starts_counting, law_step_texts,
};
use crate::order::Order;
use crate::release::{
    desired, desired_breaks, desired_fits, greatest_stable, index_is_valid, is_outcome,
    is_possible, last_stable, latest, next_release, parsed_stable, unreleased, Bump, BumpError,
};
use crate::version::{order_version, parsed, VersionView};

verus! {

/// Of the crates with a name the first one is found.
pub proof fn law_find_first_crate(crates: Seq<PublishedCrate>, name: Seq<char>, k: int)
    requires
        0 <= k < crates.len(),
        crates[k].name@ == name,
        forall|j: int| 0 <= j < k ==> (#[trigger] crates[j]).name@ != name,
    ensures
        find_crate(crates, name) == Some(crates[k]),
    decreases crates.len(),
{
    if k > 0 {
        let rest = crates.drop_first();
        assert(crates[0].name@ != name);
        assert forall|j: int| 0 <= j < k - 1 implies (#[trigger] rest[j]).name@ != name by {
            assert(rest[j] == crates[j + 1]);
        }
        law_find_first_crate(rest, name, k - 1);
    }
}

/// No crate is found if none has the name.
pub proof fn law_find_no_crate(crates: Seq<PublishedCrate>, name: Seq<char>)
    requires
        forall|j: int| 0 <= j < crates.len() ==> (#[trigger] crates[j]).name@ != name,
    ensures
        find_crate(crates, name) is None,
    decreases crates.len(),
{
    if crates.len() > 0 {
        let rest = crates.drop_first();
        assert(crates[0].name@ != name);
        assert forall|j: int| 0 <= j < rest.len() implies (#[trigger] rest[j]).name@ != name by {
            assert(rest[j] == crates[j + 1]);
        }
        law_find_no_crate(rest, name);
    }
}

/// The last stable version is no less than any published version without a
/// pre-release, and is a published one if there is any.
pub proof fn law_last_stable_is_greatest(package: Package, index: Index, k: int, i: int)
    requires
        0 <= k < index.crates@.len(),
        index.crates@[k].name@ == package.name@,
        forall|j: int| 0 <= j < k ==> (#[trigger] index.crates@[j]).name@ != package.name@,
        0 <= i < index.crates@[k].versions@.len(),
        parsed(index.crates@[k].versions@[i]@) is Some,
        parsed(index.crates@[k].versions@[i]@)->0.pre.len() == 0,
    ensures
        order_version(parsed(index.crates@[k].versions@[i]@)->0, last_stable(package, index))
            != Order::Greater,
        last_stable(package, index).pre.len() == 0,
        exists|j: int|
            0 <= j < index.crates@[k].versions@.len() && parsed(
                (#[trigger] index.crates@[k].versions@[j])@,
            ) == Some(last_stable(package, index)),
{
    law_find_first_crate(index.crates@, package.name@, k);
    let texts = index.crates@[k].versions@;
    law_greatest_stable(texts);
    assert(parsed_stable(texts[i]@) == parsed(texts[i]@));
    let v = greatest_stable(texts)->0;
    let j = choose|j: int| 0 <= j < texts.len() && parsed_stable((#[trigger] texts[j])@) == Some(v);
    assert(parsed(texts[j]@) == Some(v));
}

/// The last stable version is the package's own without its pre-release, if
/// its crate was published in no version without one.
pub proof fn law_last_stable_of_prereleases(package: Package, index: Index, k: int)
    requires
        0 <= k < index.crates@.len(),
        index.crates@[k].name@ == package.name@,
        forall|j: int| 0 <= j < k ==> (#[trigger] index.crates@[j]).name@ != package.name@,
        forall|i: int|
            0 <= i < index.crates@[k].versions@.len() && parsed(
                (#[trigger] index.crates@[k].versions@[i])@,
            ) is Some ==> parsed(index.crates@[k].versions@[i]@)->0.pre.len() > 0,
    ensures
        last_stable(package, index).major == package.version@.major,
        last_stable(package, index).minor == package.version@.minor,
        last_stable(package, index).patch == package.version@.patch,
        last_stable(package, index).pre.len() == 0,
        last_stable(package, index).build == package.version@.build,
{
    law_find_first_crate(index.crates@, package.name@, k);
    law_greatest_stable(index.crates@[k].versions@);
}

/// The last stable version is the package's own without its pre-release, if
/// its crate was never published.
pub proof fn law_last_stable_unpublished(package: Package, index: Index)
    requires
        forall|j: int|
            0 <= j < index.crates@.len() ==> (#[trigger] index.crates@[j]).name@ != package.name@,
    ensures
        last_stable(package, index).major == package.version@.major,
        last_stable(package, index).minor == package.version@.minor,
        last_stable(package, index).patch == package.version@.patch,
        last_stable(package, index).pre.len() == 0,
        last_stable(package, index).build == package.version@.build,
{
    law_find_no_crate(index.crates@, package.name@);
}

/// The unreleased commits are those of the first segment of the history.
pub proof fn law_unreleased(ctx: Context)
    requires
        ctx.history is Some,
    ensures
        unreleased(ctx) == ctx.history->0.segments@[0].history@,
{
}

/// The latest version is what the text of the highest one of the package's
/// crate is read as, and there is none if no crate has its name.
pub proof fn law_latest(package: Package, index: Index, k: int)
    ensures
        (forall|j: int|
            0 <= j < index.crates@.len() ==> (#[trigger] index.crates@[j]).name@ != package.name@)
            ==> latest(package, index) is None && index_is_valid(package, index),
        0 <= k < index.crates@.len() && index.crates@[k].name@ == package.name@ && (forall|j: int|
            0 <= j < k ==> (#[trigger] index.crates@[j]).name@ != package.name@) ==> {
            &&& latest(package, index) == parsed(index.crates@[k].highest_version@)
            &&& index_is_valid(package, index) == (parsed(index.crates@[k].highest_version@) is Some)
        },
{
    if forall|j: int|
        0 <= j < index.crates@.len() ==> (#[trigger] index.crates@[j]).name@ != package.name@ {
        law_find_no_crate(index.crates@, package.name@);
    }
    if 0 <= k < index.crates@.len() && index.crates@[k].name@ == package.name@ && (forall|j: int|
        0 <= j < k ==> (#[trigger] index.crates@[j]).name@ != package.name@) {
        law_find_first_crate(index.crates@, package.name@, k);
    }
}

/// The version of a crate whose release was asked for is chosen in one way,
/// and that of any other crate in another way.
pub proof fn law_selected_spec(name: Seq<char>, ctx: Context, i: int)
    ensures
        0 <= i < ctx.crate_names@.len() && ctx.crate_names@[i]@ == name ==> selected_spec(name, ctx)
            == ctx.bump,
        (forall|j: int| 0 <= j < ctx.crate_names@.len() ==> (#[trigger] ctx.crate_names@[j])@ != name)
            ==> selected_spec(name, ctx) == ctx.bump_dependencies,
{
    if 0 <= i < ctx.crate_names@.len() && ctx.crate_names@[i]@ == name {
        assert(is_requested(name, ctx));
    }
}

/// With a label the commits since the last stable release count, and without
/// one those since the last release.
pub proof fn law_auto_scope(pre_id: Seq<char>)
    ensures
        pre_id.len() > 0 ==> auto_scope(pre_id) == SegmentScope::UnreleasedSinceStable,
        pre_id.len() == 0 ==> auto_scope(pre_id) == SegmentScope::Unreleased,
{
}

/// If a bump is only made when needed, and it need not be breaking, then the
/// manifest's version is released where it and the desired one both come after
/// the latest published one.
pub proof fn law_manifest_version_serves(
    desired: VersionView,
    current: VersionView,
    latest: VersionView,
)
    requires
        order_version(current, latest) == Order::Greater,
        order_version(latest, desired) == Order::Less,
    ensures
        next_release(desired, current, Some(latest), true, false) == current,
{
}

/// If the step must be breaking, then the manifest's version is released in
/// that case exactly if its major or minor number is greater than that of the
/// latest published one, or both are pre-releases and its patch number is.
/// Otherwise the desired version is.
pub proof fn law_breaking_manifest_version_serves(
    desired: VersionView,
    current: VersionView,
    latest: VersionView,
)
    requires
        order_version(current, latest) == Order::Greater,
        order_version(latest, desired) == Order::Less,
    ensures
        ({
            let next = next_release(desired, current, Some(latest), true, true);
            if current.major > latest.major || current.minor > latest.minor || (current.pre.len() > 0
                && latest.pre.len() > 0 && current.patch > latest.patch) {
                next == current
            } else {
                next == desired
            }
        }),
{
}

/// The desired version is released if a bump is made in any case, if it does
/// not come after the latest published one, and if the manifest's version
/// does not.
pub proof fn law_desired_version_is_released(
    desired: VersionView,
    current: VersionView,
    latest: VersionView,
    bump_when_needed: bool,
    must_break: bool,
)
    requires
        !bump_when_needed || order_version(latest, desired) != Order::Less || order_version(
            current,
            latest,
        ) != Order::Greater,
    ensures
        next_release(desired, current, Some(latest), bump_when_needed, must_break) == desired,
{
}

/// If nothing was published yet, then the manifest's version is released if a
/// bump is only made when needed, and the desired one otherwise.
pub proof fn law_first_release(desired: VersionView, current: VersionView, must_break: bool)
    ensures
        next_release(desired, current, None, true, must_break) == current,
        next_release(desired, current, None, false, must_break) == desired,
{
}

/// A breaking step that comes after the latest published version releases
/// either the desired version or one that breaks dependents of the latest one
/// by its numbers.
pub proof fn law_breaking_step_releases_breaking_version(
    desired: VersionView,
    current: VersionView,
    latest: VersionView,
    bump_when_needed: bool,
)
    requires
        order_version(latest, desired) == Order::Less,
    ensures
        ({
            let next = next_release(desired, current, Some(latest), bump_when_needed, true);
            next == desired || next.major > latest.major || next.minor > latest.minor || (
            next.pre.len() > 0 && latest.pre.len() > 0 && next.patch > latest.patch)
        }),
{
}

/// A step that names a number is breaking as that step is: never with a label,
/// always for the major number, below 1.0.0 for the minor number, and never
/// for the patch number. To keep the version and to go on to the next
/// pre-release is never breaking.
pub proof fn law_asked_for_breaks(package: Package, ctx: Context)
    ensures
        desired_breaks(package, BumpSpec::Major, ctx) == (ctx.pre_id@.len() == 0),
        desired_breaks(package, BumpSpec::Minor, ctx) == (ctx.pre_id@.len() == 0
            && package.version@.major == 0),
        !desired_breaks(package, BumpSpec::Patch, ctx),
        !desired_breaks(package, BumpSpec::Keep, ctx),
        !desired_breaks(package, BumpSpec::PreRelease, ctx),
        ctx.pre_id@.len() > 0 ==> !desired_breaks(package, BumpSpec::Auto, ctx),
        package.version@.pre.len() > 0 ==> !desired_breaks(package, BumpSpec::Auto, ctx),
{
}

/// An automatic step without a label from a stable version is breaking if one
/// of the unreleased commits is.
pub proof fn law_breaking_commit_breaks(package: Package, ctx: Context, k: int)
    requires
        ctx.history is Some,
        ctx.pre_id@.len() == 0,
        package.version@.pre.len() == 0,
        0 <= k < ctx.history->0.segments@[0].history@.len(),
        ctx.history->0.segments@[0].history@[k].message.breaking,
    ensures
        desired_breaks(package, BumpSpec::Auto, ctx),
{
    law_auto_release_of_breaking_commit(package.version@, unreleased(ctx), k);
}

/// An automatic step is not breaking if none of the unreleased commits is.
pub proof fn law_other_commits_do_not_break(package: Package, ctx: Context)
    requires
        ctx.history is Some,
        forall|i: int|
            0 <= i < ctx.history->0.segments@[0].history@.len() ==> !(
            #[trigger] ctx.history->0.segments@[0].history@[i]).message.breaking,
    ensures
        !desired_breaks(package, BumpSpec::Auto, ctx),
{
    assert forall|i: int| 0 <= i < unreleased(ctx).len() implies !(
    #[trigger] unreleased(ctx)[i]).message.breaking by {
        assert(unreleased(ctx)[i] == ctx.history->0.segments@[0].history@[i]);
    }
}

/// What is asked for by the name of a number has the numbers that the step
/// leads to.
pub proof fn law_asked_for_numbers(package: Package, ctx: Context)
    ensures
        ({
            let v = package.version@;
            let released = ctx.pre_id@.len() == 0 && v.pre.len() > 0;
            let major = desired(package, BumpSpec::Major, ctx);
            let minor = desired(package, BumpSpec::Minor, ctx);
            let patch = desired(package, BumpSpec::Patch, ctx);
            &&& major.minor == 0 && major.patch == 0
            &&& released && v.minor == 0 && v.patch == 0 ==> major.major == v.major
            &&& !(released && v.minor == 0 && v.patch == 0) ==> major.major == v.major + 1
            &&& minor.major == v.major && minor.patch == 0
            &&& released && v.patch == 0 ==> minor.minor == v.minor
            &&& !(released && v.patch == 0) ==> minor.minor == v.minor + 1
            &&& patch.major == v.major && patch.minor == v.minor
            &&& released ==> patch.patch == v.patch
            &&& !released ==> patch.patch == v.patch + 1
        }),
{
}

/// What is asked for by the name of a number is the first pre-release of the
/// label, or no pre-release if none was given.
pub proof fn law_asked_for_texts(package: Package, spec: BumpSpec, ctx: Context)
    requires
        spec is Major || spec is Minor || spec is Patch,
    ensures
        ctx.pre_id@.len() > 0 ==> desired(package, spec, ctx).pre == ctx.pre_id@ + seq!['.', '0'],
        ctx.pre_id@.len() == 0 ==> desired(package, spec, ctx).pre.len() == 0,
        desired(package, spec, ctx).build == package.version@.build,
{
    law_step_texts(package.version@, spec, ctx.pre_id@);
}

/// To keep the version asks for the one that is there.
pub proof fn law_asked_to_keep(package: Package, ctx: Context)
    ensures
        desired(package, BumpSpec::Keep, ctx) == package.version@,
        desired_fits(package, BumpSpec::Keep, ctx),
{
}

/// The next pre-release after `label.n` is `label.(n + 1)` with the same
/// numbers, or the first one under another label.
pub proof fn law_asked_for_next_prerelease(package: Package, ctx: Context, label: Seq<char>, n: nat)
    requires
        package.version@.pre == label + seq!['.'] + decimal(n),
        n <= u64::MAX,
    ensures
        ({
            let v = package.version@;
            let next = desired(package, BumpSpec::PreRelease, ctx);
            &&& next.major == v.major && next.minor == v.minor && next.patch == v.patch
            &&& next.build == v.build
            &&& ctx.pre_id@.len() == 0 || ctx.pre_id@ == label ==> next.pre == label + seq!['.']
                + decimal(n + 1)
            &&& ctx.pre_id@.len() > 0 && ctx.pre_id@ != label ==> next.pre == ctx.pre_id@ + seq![
                '.',
                '0',
            ]
        }),
{
    law_next_prerelease_counts(package.version@, label, n, ctx.pre_id@);
}

/// The next pre-release after one without a dot has the counter one, or is the
/// first one under another label.
pub proof fn law_asked_for_second_prerelease(package: Package, ctx: Context)
    requires
        forall|i: int|
            0 <= i < package.version@.pre.len() ==> #[trigger] package.version@.pre[i] != '.',
    ensures
        ({
            let v = package.version@;
            let next = desired(package, BumpSpec::PreRelease, ctx);
            &&& next.major == v.major && next.minor == v.minor && next.patch == v.patch
            &&& next.build == v.build
            &&& ctx.pre_id@.len() == 0 || ctx.pre_id@ == v.pre ==> next.pre == v.pre + seq!['.', '1']
            &&& ctx.pre_id@.len() > 0 && ctx.pre_id@ != v.pre ==> next.pre == ctx.pre_id@ + seq![
                '.',
                '0',
            ]
        }),
{
    law_next_prerelease_starts_counting(package.version@, ctx.pre_id@);
}

/// An automatic step without a label ends at no pre-release. It keeps the
/// numbers of a pre-release, and those of a stable version without unreleased
/// commits.
pub proof fn law_automatic_release(package: Package, ctx: Context)
    requires
        ctx.history is Some,
        ctx.pre_id@.len() == 0,
    ensures
        ({
            let v = package.version@;
            let next = desired(package, BumpSpec::Auto, ctx);
            &&& next.pre.len() == 0
            &&& next.build == v.build
            &&& v.pre.len() > 0 || ctx.history->0.segments@[0].history@.len() == 0 ==> next.major
                == v.major && next.minor == v.minor && next.patch == v.patch
        }),
{
}

/// From a stable version it raises the number that the unreleased commits ask
/// for: the major number for a breaking one, or below 1.0.0 the minor number.
pub proof fn law_automatic_release_of_breaking_commit(package: Package, ctx: Context, k: int)
    requires
        ctx.history is Some,
        ctx.pre_id@.len() == 0,
        package.version@.pre.len() == 0,
        0 <= k < ctx.history->0.segments@[0].history@.len(),
        ctx.history->0.segments@[0].history@[k].message.breaking,
    ensures
        ({
            let v = package.version@;
            let next = desired(package, BumpSpec::Auto, ctx);
            &&& next.patch == 0
            &&& v.major > 0 ==> next.major == v.major + 1 && next.minor == 0
            &&& v.major == 0 ==> next.major == 0 && next.minor == v.minor + 1
        }),
{
    law_auto_release_of_breaking_commit(package.version@, unreleased(ctx), k);
}

/// Without a breaking one, it raises the minor number for a feature, or below
/// 1.0.0 the patch number.
pub proof fn law_automatic_release_of_feature_commit(package: Package, ctx: Context, k: int)
    requires
        ctx.history is Some,
        ctx.pre_id@.len() == 0,
        package.version@.pre.len() == 0,
        forall|i: int|
            0 <= i < unreleased(ctx).len() ==> !(#[trigger] unreleased(ctx)[i]).message.breaking,
        0 <= k < unreleased(ctx).len(),
        unreleased(ctx)[k].message.kind is Some,
        unreleased(ctx)[k].message.kind->0@ == seq!['f', 'e', 'a', 't'],
    ensures
        ({
            let v = package.version@;
            let next = desired(package, BumpSpec::Auto, ctx);
            &&& next.major == v.major
            &&& v.major > 0 ==> next.minor == v.minor + 1 && next.patch == 0
            &&& v.major == 0 ==> next.minor == v.minor && next.patch == v.patch + 1
        }),
{
    law_auto_release_of_feature_commit(package.version@, unreleased(ctx), k);
}

/// With any other commits it raises the patch number.
pub proof fn law_automatic_release_of_other_commits(package: Package, ctx: Context)
    requires
        ctx.history is Some,
        ctx.pre_id@.len() == 0,
        package.version@.pre.len() == 0,
        unreleased(ctx).len() > 0,
        forall|i: int|
            0 <= i < unreleased(ctx).len() ==> !(#[trigger] unreleased(ctx)[i]).message.breaking,
        forall|i: int|
            0 <= i < unreleased(ctx).len() && (#[trigger] unreleased(ctx)[i]).message.kind is Some
                ==> unreleased(ctx)[i].message.kind->0@ != seq!['f', 'e', 'a', 't'],
    ensures
        ({
            let v = package.version@;
            let next = desired(package, BumpSpec::Auto, ctx);
            next.major == v.major && next.minor == v.minor && next.patch == v.patch + 1
        }),
{
    law_auto_release_of_other_commits(package.version@, unreleased(ctx));
}

/// An automatic step with a label leaves the version alone where there are no
/// commits since the last stable release.
pub proof fn law_automatic_prerelease_keeps(package: Package, ctx: Context)
    requires
        ctx.history is Some,
        ctx.pre_id@.len() > 0,
    ensures
        unreleased(ctx).len() == 0 ==> desired(package, BumpSpec::Auto, ctx) == package.version@,
        desired(package, BumpSpec::Auto, ctx).build == package.version@.build,
{
}

/// With a breaking commit it leads up to the next major version after the last
/// stable one, or below 1.0.0 to the next minor version.
pub proof fn law_automatic_prerelease_of_breaking_commit(package: Package, ctx: Context, k: int)
    requires
        ctx.history is Some,
        ctx.pre_id@.len() > 0,
        0 <= k < unreleased(ctx).len(),
        unreleased(ctx)[k].message.breaking,
    ensures
        ({
            let last = last_stable(package, ctx.crates_index);
            let next = desired(package, BumpSpec::Auto, ctx);
            &&& next.patch == 0
            &&& last.major > 0 ==> next.major == last.major + 1 && next.minor == 0
            &&& last.major == 0 ==> next.major == 0 && next.minor == last.minor + 1
        }),
{
    let last = last_stable(package, ctx.crates_index);
    law_last_stable(package, ctx.crates_index);
    law_auto_prerelease_of_breaking_commit(
        package.version@,
        last,
        unreleased(ctx),
        ctx.pre_id@,
        k,
    );
}

/// Without a breaking one, a feature makes it lead up to the next minor version
/// after the last stable one, or below 1.0.0 to the next patch version.
pub proof fn law_automatic_prerelease_of_feature_commit(package: Package, ctx: Context, k: int)
    requires
        ctx.history is Some,
        ctx.pre_id@.len() > 0,
        forall|i: int|
            0 <= i < unreleased(ctx).len() ==> !(#[trigger] unreleased(ctx)[i]).message.breaking,
        0 <= k < unreleased(ctx).len(),
        unreleased(ctx)[k].message.kind is Some,
        unreleased(ctx)[k].message.kind->0@ == seq!['f', 'e', 'a', 't'],
    ensures
        ({
            let last = last_stable(package, ctx.crates_index);
            let next = desired(package, BumpSpec::Auto, ctx);
            &&& next.major == last.major
            &&& last.major > 0 ==> next.minor == last.minor + 1 && next.patch == 0
            &&& last.major == 0 ==> next.minor == last.minor && next.patch == last.patch + 1
        }),
{
    let last = last_stable(package, ctx.crates_index);
    law_last_stable(package, ctx.crates_index);
    law_auto_prerelease_of_feature_commit(package.version@, last, unreleased(ctx), ctx.pre_id@, k);
}

/// Any other commits make it lead up to the next patch version after the last
/// stable one.
pub proof fn law_automatic_prerelease_of_other_commits(package: Package, ctx: Context)
    requires
        ctx.history is Some,
        ctx.pre_id@.len() > 0,
        unreleased(ctx).len() > 0,
        forall|i: int|
            0 <= i < unreleased(ctx).len() ==> !(#[trigger] unreleased(ctx)[i]).message.breaking,
        forall|i: int|
            0 <= i < unreleased(ctx).len() && (#[trigger] unreleased(ctx)[i]).message.kind is Some
                ==> unreleased(ctx)[i].message.kind->0@ != seq!['f', 'e', 'a', 't'],
    ensures
        ({
            let last = last_stable(package, ctx.crates_index);
            let next = desired(package, BumpSpec::Auto, ctx);
            next.major == last.major && next.minor == last.minor && next.patch == last.patch + 1
        }),
{
    let last = last_stable(package, ctx.crates_index);
    law_last_stable(package, ctx.crates_index);
    law_auto_prerelease_of_other_commits(package.version@, last, unreleased(ctx), ctx.pre_id@);
}

/// It goes on counting from `label.n` if the numbers stay, and starts a series
/// if they change or if the version is none of that label's.
pub proof fn law_automatic_prerelease_counts(package: Package, ctx: Context, n: nat)
    requires
        ctx.history is Some,
        ctx.pre_id@.len() > 0,
        unreleased(ctx).len() > 0,
        n <= u64::MAX,
    ensures
        ({
            let v = package.version@;
            let label = ctx.pre_id@;
            let next = desired(package, BumpSpec::Auto, ctx);
            let kept = next.major == v.major && next.minor == v.minor && next.patch == v.patch;
            &&& kept && v.pre == label + seq!['.'] + decimal(n) ==> next.pre == label + seq!['.']
                + decimal(n + 1)
            &&& !kept ==> next.pre == label + seq!['.', '0']
            &&& v.pre.len() == 0 ==> next.pre == label + seq!['.', '0']
            &&& v.pre != label && !(exists|counter: Seq<char>|
                #![trigger label + seq!['.'] + counter]
                v.pre == label + seq!['.'] + counter && parsed_u64(counter) is Some) ==> next.pre
                == label + seq!['.', '0']
        }),
{
    let v = package.version@;
    let label = ctx.pre_id@;
    let last = last_stable(package, ctx.crates_index);
    let items = unreleased(ctx);
    let next = desired(package, BumpSpec::Auto, ctx);
    if !(next.major == v.major && next.minor == v.minor && next.patch == v.patch) {
        law_auto_prerelease_new_numbers(v, last, items, label);
    } else if v.pre == label + seq!['.'] + decimal(n) {
        law_auto_prerelease_goes_on_counting(v, last, items, label, n);
    }
    if v.pre.len() == 0 || v.pre != label && !exists|counter: Seq<char>|
        #![trigger label + seq!['.'] + counter]
        v.pre == label + seq!['.'] + counter && parsed_u64(counter) is Some {
        law_auto_prerelease_new_label(v, last, items, label);
    }
}

/// Only the next pre-release of a stable version and an automatic step without
/// a history are impossible.
pub proof fn law_possible_choices(package: Package, spec: BumpSpec, ctx: Context)
    ensures
        spec is Major || spec is Minor || spec is Patch || spec is Keep ==> is_possible(
            package,
            spec,
            ctx,
        ),
        spec is PreRelease ==> is_possible(package, spec, ctx) == (package.version@.pre.len() > 0),
        spec is Auto ==> is_possible(package, spec, ctx) == (ctx.history is Some),
{
}

/// A step that names a number can be chosen wherever that number is not the
/// largest one or the step only releases a pre-release, and the label is none
/// or one that can be used.
pub proof fn law_number_choices_fit(package: Package, ctx: Context)
    requires
        ctx.pre_id@.len() > 0 ==> is_label(ctx.pre_id@),
    ensures
        ({
            let v = package.version@;
            let released = ctx.pre_id@.len() == 0 && v.pre.len() > 0;
            &&& v.major < u64::MAX || released && v.minor == 0 && v.patch == 0 ==> desired_fits(
                package,
                BumpSpec::Major,
                ctx,
            )
            &&& v.minor < u64::MAX || released && v.patch == 0 ==> desired_fits(
                package,
                BumpSpec::Minor,
                ctx,
            )
            &&& v.patch < u64::MAX || released ==> desired_fits(package, BumpSpec::Patch, ctx)
        }),
{
}

/// An automatic release can be chosen wherever no number is the largest one or
/// no number is raised, and the commits are there in the right scope.
pub proof fn law_automatic_choice_fits(package: Package, ctx: Context)
    requires
        ctx.history is Some,
        ctx.pre_id@.len() == 0,
        ctx.history->0.scope == SegmentScope::Unreleased,
        ctx.history->0.segments@.len() == 1,
        package.version@.pre.len() > 0 || unreleased(ctx).len() == 0 || package.version@.major
            < u64::MAX && package.version@.minor < u64::MAX && package.version@.patch < u64::MAX,
    ensures
        desired_fits(package, BumpSpec::Auto, ctx),
{
}

/// The version that is asked for is the one that the step of that name leads
/// to, and it can be chosen where that step can be made.
pub proof fn law_choices_follow_steps(package: Package, spec: BumpSpec, ctx: Context)
    ensures
        spec is Major || spec is Minor || spec is Patch ==> desired(package, spec, ctx) == bumped(
            package.version@,
            spec,
            ctx.pre_id@,
        ),
        spec is PreRelease ==> {
            &&& desired(package, spec, ctx) == next_prerelease(package.version@, ctx.pre_id@)
            &&& desired_fits(package, spec, ctx) == next_prerelease_fits(
                package.version@,
                ctx.pre_id@,
            )
        },
        spec is Auto && ctx.pre_id@.len() > 0 ==> desired(package, spec, ctx) == auto_prerelease(
            package.version@,
            last_stable(package, ctx.crates_index),
            unreleased(ctx),
            ctx.pre_id@,
        ),
        spec is Auto && ctx.pre_id@.len() == 0 ==> desired(package, spec, ctx) == auto_release(
            package.version@,
            unreleased(ctx),
        ),
{
}

/// The next pre-release can be made under another label, and after `label.n`
/// wherever the counter is not the largest one and there is room for it.
pub proof fn law_next_prerelease_choice_fits(
    package: Package,
    ctx: Context,
    label: Seq<char>,
    n: nat,
)
    requires
        package.version@.pre == label + seq!['.'] + decimal(n),
        n <= u64::MAX,
        ctx.pre_id@.len() > 0 ==> is_label(ctx.pre_id@),
        ctx.pre_id@.len() > 0 && ctx.pre_id@ != label || n < u64::MAX && has_room(label),
    ensures
        desired_fits(package, BumpSpec::PreRelease, ctx),
{
    law_next_prerelease_fits(package.version@, label, n, ctx.pre_id@);
}

/// An automatic pre-release can be chosen wherever no number of the last stable
/// version is the largest one, nor the counter of the version, and the commits
/// are there in the right scope.
pub proof fn law_automatic_prerelease_choice_fits(package: Package, ctx: Context)
    requires
        ctx.history is Some,
        ctx.history->0.scope == SegmentScope::UnreleasedSinceStable,
        ctx.history->0.segments@.len() > 0,
        is_label(ctx.pre_id@),
        last_stable(package, ctx.crates_index).major < u64::MAX,
        last_stable(package, ctx.crates_index).minor < u64::MAX,
        last_stable(package, ctx.crates_index).patch < u64::MAX,
        forall|counter: Seq<char>|
            package.version@.pre == #[trigger] (ctx.pre_id@ + seq!['.'] + counter) && parsed_u64(
                counter,
            ) is Some ==> parsed_u64(counter)->0 < u64::MAX,
        package.version@.pre == ctx.pre_id@ ==> forall|i: int|
            0 <= i < package.version@.pre.len() ==> #[trigger] package.version@.pre[i] != '.',
    ensures
        desired_fits(package, BumpSpec::Auto, ctx),
{
    law_auto_prerelease_fits(
        package.version@,
        last_stable(package, ctx.crates_index),
        unreleased(ctx),
        ctx.pre_id@,
    );
}

/// The choice fails in two cases only: the next pre-release of a stable
/// version, whose version the error then has, and an automatic step without a
/// history.
pub proof fn law_outcome_errors(
    result: Result<Bump, BumpError>,
    package: Package,
    spec: BumpSpec,
    ctx: Context,
    bump_when_needed: bool,
)
    requires
        is_outcome(result, package, spec, ctx, bump_when_needed),
    ensures
        spec is PreRelease && package.version@.pre.len() == 0 <==> result is Err && result->Err_0
            is NotAPreRelease,
        spec is Auto && ctx.history is None <==> result is Err && result->Err_0 is NoHistory,
        result is Err && result->Err_0 is NotAPreRelease ==> result->Err_0->version@
            == package.version@,
{
}

/// A choice that was made has the versions it was made from, and releases the
/// desired version or the manifest's.
pub proof fn law_outcome_versions(
    bump: Bump,
    package: Package,
    spec: BumpSpec,
    ctx: Context,
    bump_when_needed: bool,
    k: int,
)
    requires
        is_outcome(Ok(bump), package, spec, ctx, bump_when_needed),
    ensures
        bump.package_version@ == package.version@,
        bump.desired_release@ == desired(package, spec, ctx),
        bump.next_release@ == bump.desired_release@ || bump.next_release@ == package.version@,
        (forall|j: int|
            0 <= j < ctx.crates_index.crates@.len() ==> (
            #[trigger] ctx.crates_index.crates@[j]).name@ != package.name@)
            ==> bump.latest_release is None,
        0 <= k < ctx.crates_index.crates@.len() && ctx.crates_index.crates@[k].name@
            == package.name@ && (forall|j: int|
            0 <= j < k ==> (#[trigger] ctx.crates_index.crates@[j]).name@ != package.name@)
            && bump.latest_release is Some ==> parsed(
            ctx.crates_index.crates@[k].highest_version@,
        ) == Some(bump.latest_release->0@),
{
    law_latest(package, ctx.crates_index, k);
}

/// Where a bump is made in any case, or where what the manifest has does not
/// come after what was published, the desired version is released.
pub proof fn law_outcome_is_desired(
    bump: Bump,
    package: Package,
    spec: BumpSpec,
    ctx: Context,
    bump_when_needed: bool,
)
    requires
        is_outcome(Ok(bump), package, spec, ctx, bump_when_needed),
        !bump_when_needed || bump.latest_release is Some && (order_version(
            bump.latest_release->0@,
            bump.desired_release@,
        ) != Order::Less || order_version(package.version@, bump.latest_release->0@)
            != Order::Greater),
    ensures
        bump.next_release@ == bump.desired_release@,
{
}

/// Where a bump is only made when needed, the manifest's version is released
/// if nothing was published yet. It is also released if it and the desired
/// version come after what was published and no breaking step was asked for.
pub proof fn law_outcome_is_manifest_version(
    bump: Bump,
    package: Package,
    spec: BumpSpec,
    ctx: Context,
)
    requires
        is_outcome(Ok(bump), package, spec, ctx, true),
    ensures
        bump.latest_release is None ==> bump.next_release@ == package.version@,
        bump.latest_release is Some && order_version(
            bump.latest_release->0@,
            bump.desired_release@,
        ) == Order::Less && order_version(package.version@, bump.latest_release->0@)
            == Order::Greater && (spec is Patch || spec is Keep || spec is PreRelease
            || ctx.pre_id@.len() > 0 || spec is Minor && package.version@.major > 0)
            ==> bump.next_release@ == package.version@,
{
}

/// Where a bump is only made when needed, and the manifest's version and the
/// desired one come after what was published, the manifest's is released
/// unless the step is breaking and its numbers are not.
pub proof fn law_outcome_choice(bump: Bump, package: Package, spec: BumpSpec, ctx: Context)
    requires
        is_outcome(Ok(bump), package, spec, ctx, true),
        bump.latest_release is Some,
        order_version(bump.latest_release->0@, bump.desired_release@) == Order::Less,
        order_version(package.version@, bump.latest_release->0@) == Order::Greater,
    ensures
        ({
            let current = package.version@;
            let latest = bump.latest_release->0@;
            let greater = current.major > latest.major || current.minor > latest.minor || (
            current.pre.len() > 0 && latest.pre.len() > 0 && current.patch > latest.patch);
            &&& !desired_breaks(package, spec, ctx) || greater ==> bump.next_release@ == current
            &&& desired_breaks(package, spec, ctx) && !greater ==> bump.next_release@
                == bump.desired_release@
        }),
{
}

/// A breaking commit is not lost: an automatic step without a label from a
/// stable version that comes after what was published releases either the
/// desired version or one with a greater major or minor number than that.
pub proof fn law_outcome_of_breaking_commit(
    bump: Bump,
    package: Package,
    ctx: Context,
    bump_when_needed: bool,
    k: int,
)
    requires
        is_outcome(Ok(bump), package, BumpSpec::Auto, ctx, bump_when_needed),
        ctx.pre_id@.len() == 0,
        package.version@.pre.len() == 0,
        0 <= k < ctx.history->0.segments@[0].history@.len(),
        ctx.history->0.segments@[0].history@[k].message.breaking,
        bump.latest_release is Some,
        order_version(bump.latest_release->0@, bump.desired_release@) == Order::Less,
    ensures
        bump.next_release@ == bump.desired_release@ || bump.next_release@.major
            > bump.latest_release->0@.major || bump.next_release@.minor
            > bump.latest_release->0@.minor,
{
    law_breaking_commit_breaks(package, ctx, k);
}

/// A breaking step that was asked for by name is not lost either.
pub proof fn law_outcome_of_breaking_step(
    bump: Bump,
    package: Package,
    spec: BumpSpec,
    ctx: Context,
    bump_when_needed: bool,
)
    requires
        is_outcome(Ok(bump), package, spec, ctx, bump_when_needed),
        spec is Major || spec is Minor && package.version@.major == 0,
        ctx.pre_id@.len() == 0,
        bump.latest_release is Some,
        order_version(bump.latest_release->0@, bump.desired_release@) == Order::Less,
    ensures
        ({
            let latest = bump.latest_release->0@;
            let next = bump.next_release@;
            next == bump.desired_release@ || next.major > latest.major || next.minor > latest.minor
                || (next.pre.len() > 0 && latest.pre.len() > 0 && next.patch > latest.patch)
        }),
{
    law_asked_for_breaks(package, ctx);
}

} // verus!
