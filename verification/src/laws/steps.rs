//! What the steps do to the numbers and to the text of the pre-release.

use vstd::prelude::*;

use crate::bump::{
    auto_prerelease, auto_prerelease_fits, auto_release, auto_release_breaks, auto_release_fits,
    breaks, bump_breaks, bump_fits, bumped, is_unstable, level_of, next_prerelease,
    next_prerelease_fits, BumpSpec,
};
use crate::decimal::{decimal, parsed_u64};
use crate::history::{any_breaking, any_feature, Item};
use crate::identifier::{has_room, is_label, label_of, last_dot, lemma_last_dot, lemma_numbered};
use crate::laws::text::{law_label_without_counter, law_label_without_dot, law_numbered_text};
use crate::version::VersionView;

verus! {

/// A major step that does not graduate raises the major number by one and
/// sets the other two to zero. It graduates if and only if it is made without
/// a label from a pre-release whose other two numbers are zero, and then the
/// numbers stay.
pub proof fn law_major_step_numbers(v: VersionView, pre_id: Seq<char>)
    ensures
        ({
            let next = bumped(v, BumpSpec::Major, pre_id);
            if pre_id.len() == 0 && v.pre.len() > 0 && v.minor == 0 && v.patch == 0 {
                next.major == v.major && next.minor == 0 && next.patch == 0
            } else {
                next.major == v.major + 1 && next.minor == 0 && next.patch == 0
            }
        }),
{
}

/// A minor step that does not graduate keeps the major number, raises the
/// minor number by one and sets the patch number to zero. It graduates if and
/// only if it is made without a label from a pre-release whose patch number is
/// zero, and then the numbers stay.
pub proof fn law_minor_step_numbers(v: VersionView, pre_id: Seq<char>)
    ensures
        ({
            let next = bumped(v, BumpSpec::Minor, pre_id);
            if pre_id.len() == 0 && v.pre.len() > 0 && v.patch == 0 {
                next.major == v.major && next.minor == v.minor && next.patch == 0
            } else {
                next.major == v.major && next.minor == v.minor + 1 && next.patch == 0
            }
        }),
{
}

/// A patch step that does not graduate keeps the major and the minor number
/// and raises the patch number by one. It graduates if and only if it is made
/// without a label from a pre-release, and then the numbers stay.
pub proof fn law_patch_step_numbers(v: VersionView, pre_id: Seq<char>)
    ensures
        ({
            let next = bumped(v, BumpSpec::Patch, pre_id);
            if pre_id.len() == 0 && v.pre.len() > 0 {
                next.major == v.major && next.minor == v.minor && next.patch == v.patch
            } else {
                next.major == v.major && next.minor == v.minor && next.patch == v.patch + 1
            }
        }),
{
}

/// With a label a step ends at the pre-release of that label with the counter
/// zero, and without one at no pre-release. It never touches the build
/// metadata.
pub proof fn law_step_texts(v: VersionView, spec: BumpSpec, pre_id: Seq<char>)
    requires
        spec is Major || spec is Minor || spec is Patch,
    ensures
        pre_id.len() > 0 ==> bumped(v, spec, pre_id).pre == pre_id + seq!['.', '0'],
        pre_id.len() == 0 ==> bumped(v, spec, pre_id).pre.len() == 0,
        bumped(v, spec, pre_id).build == v.build,
{
    law_numbered_text(pre_id, 0);
}

/// A step to a pre-release is never breaking. Of the others a major step
/// always is, a minor step is if and only if the major number is zero, and a
/// patch step never is.
pub proof fn law_step_breaks(v: VersionView, pre_id: Seq<char>)
    ensures
        pre_id.len() > 0 ==> {
            &&& !bump_breaks(v, BumpSpec::Major, pre_id)
            &&& !bump_breaks(v, BumpSpec::Minor, pre_id)
            &&& !bump_breaks(v, BumpSpec::Patch, pre_id)
        },
        pre_id.len() == 0 ==> {
            &&& bump_breaks(v, BumpSpec::Major, pre_id)
            &&& bump_breaks(v, BumpSpec::Minor, pre_id) == (v.major == 0)
            &&& !bump_breaks(v, BumpSpec::Patch, pre_id)
        },
{
}

/// A step can be made wherever the number to raise is not the largest one,
/// and from a pre-release that it releases in any case.
pub proof fn law_step_fits(v: VersionView, pre_id: Seq<char>)
    ensures
        v.major < u64::MAX ==> bump_fits(v, BumpSpec::Major, pre_id),
        v.minor < u64::MAX ==> bump_fits(v, BumpSpec::Minor, pre_id),
        v.patch < u64::MAX ==> bump_fits(v, BumpSpec::Patch, pre_id),
        pre_id.len() == 0 && v.pre.len() > 0 ==> {
            &&& bump_fits(v, BumpSpec::Patch, pre_id)
            &&& v.patch == 0 ==> bump_fits(v, BumpSpec::Minor, pre_id)
            &&& v.minor == 0 && v.patch == 0 ==> bump_fits(v, BumpSpec::Major, pre_id)
        },
{
}

/// A version is unstable if and only if its major number is zero or it is a
/// pre-release.
pub proof fn law_unstable_versions(v: VersionView)
    ensures
        v.major == 0 ==> is_unstable(v),
        v.pre.len() > 0 ==> is_unstable(v),
        v.major > 0 && v.pre.len() == 0 ==> !is_unstable(v),
{
}

/// A greater major or minor number breaks dependents, between stable versions,
/// between pre-releases and from one kind to the other.
pub proof fn law_greater_numbers_break(lhs: VersionView, rhs: VersionView)
    requires
        rhs.major > lhs.major || rhs.minor > lhs.minor,
    ensures
        breaks(lhs, rhs),
{
}

/// Where neither the major nor the minor number grows, dependents break if and
/// only if the patch number grows between two pre-releases.
pub proof fn law_patch_breaks_between_pre_releases(lhs: VersionView, rhs: VersionView)
    requires
        rhs.major <= lhs.major,
        rhs.minor <= lhs.minor,
    ensures
        lhs.pre.len() > 0 && rhs.pre.len() > 0 && rhs.patch > lhs.patch ==> breaks(lhs, rhs),
        lhs.pre.len() == 0 ==> !breaks(lhs, rhs),
        rhs.pre.len() == 0 ==> !breaks(lhs, rhs),
        rhs.patch <= lhs.patch ==> !breaks(lhs, rhs),
{
}

/// The next pre-release has the numbers and the build metadata of the one
/// before it.
pub proof fn law_next_prerelease_numbers(v: VersionView, pre_id: Seq<char>)
    ensures
        next_prerelease(v, pre_id).major == v.major,
        next_prerelease(v, pre_id).minor == v.minor,
        next_prerelease(v, pre_id).patch == v.patch,
        next_prerelease(v, pre_id).build == v.build,
{
}

/// The pre-release after `label.n` is `label.(n + 1)`, if that label or none
/// is asked for, and the first one of the series if another label is.
pub proof fn law_next_prerelease_counts(v: VersionView, label: Seq<char>, n: nat, pre_id: Seq<char>)
    requires
        v.pre == label + seq!['.'] + decimal(n),
        n <= u64::MAX,
    ensures
        pre_id.len() == 0 || pre_id == label ==> next_prerelease(v, pre_id).pre == label + seq!['.']
            + decimal(n + 1),
        pre_id.len() > 0 && pre_id != label ==> next_prerelease(v, pre_id).pre == pre_id + seq![
            '.',
            '0',
        ],
{
    law_numbered_text(label, n);
    law_numbered_text(label, n + 1);
    law_numbered_text(pre_id, 0);
    lemma_numbered(label, n);
}

/// The pre-release after one without a dot has its text as the label and the
/// counter one, if that label or none is asked for, and is the first one of
/// the series if another label is.
pub proof fn law_next_prerelease_starts_counting(v: VersionView, pre_id: Seq<char>)
    requires
        forall|i: int| 0 <= i < v.pre.len() ==> #[trigger] v.pre[i] != '.',
    ensures
        pre_id.len() == 0 || pre_id == v.pre ==> next_prerelease(v, pre_id).pre == v.pre + seq![
            '.',
            '1',
        ],
        pre_id.len() > 0 && pre_id != v.pre ==> next_prerelease(v, pre_id).pre == pre_id + seq![
            '.',
            '0',
        ],
{
    law_label_without_dot(v.pre);
    law_numbered_text(v.pre, 1);
    law_numbered_text(pre_id, 0);
    assert(decimal(1) =~= seq!['1']);
    assert(v.pre + seq!['.'] + seq!['1'] =~= v.pre + seq!['.', '1']);
}

/// The pre-release after one that ends in something other than a counter is
/// the first one of the series that is asked for, if that is another one.
pub proof fn law_next_prerelease_restarts(
    v: VersionView,
    head: Seq<char>,
    tail: Seq<char>,
    pre_id: Seq<char>,
)
    requires
        v.pre == head + seq!['.'] + tail,
        forall|i: int| 0 <= i < tail.len() ==> #[trigger] tail[i] != '.',
        parsed_u64(tail) is None,
        pre_id.len() > 0,
        pre_id != v.pre,
    ensures
        next_prerelease(v, pre_id).pre == pre_id + seq!['.', '0'],
        is_label(pre_id) ==> next_prerelease_fits(v, pre_id),
{
    law_label_without_counter(head, tail);
    law_numbered_text(pre_id, 0);
}

/// The next pre-release can be made under any other label, and after
/// `label.n` wherever the counter is not the largest one and the label leaves
/// room for it.
pub proof fn law_next_prerelease_fits(v: VersionView, label: Seq<char>, n: nat, pre_id: Seq<char>)
    requires
        v.pre == label + seq!['.'] + decimal(n),
        n <= u64::MAX,
        pre_id.len() > 0 ==> is_label(pre_id),
    ensures
        pre_id.len() > 0 && pre_id != label ==> next_prerelease_fits(v, pre_id),
        n < u64::MAX && has_room(label) ==> next_prerelease_fits(v, pre_id),
{
    law_numbered_text(label, n);
    lemma_numbered(label, n);
}

/// After a pre-release without a dot, the next one can be made wherever the
/// text leaves room for a counter.
pub proof fn law_next_prerelease_fits_without_dot(v: VersionView, pre_id: Seq<char>)
    requires
        forall|i: int| 0 <= i < v.pre.len() ==> #[trigger] v.pre[i] != '.',
        pre_id.len() > 0 ==> is_label(pre_id),
        pre_id.len() == 0 ==> has_room(v.pre),
    ensures
        next_prerelease_fits(v, pre_id),
{
    law_label_without_dot(v.pre);
}

/// One breaking commit is enough for the set to be breaking.
pub proof fn law_breaking_commit(items: Seq<Item>, k: int)
    requires
        0 <= k < items.len(),
        items[k].message.breaking,
    ensures
        any_breaking(items),
{
    assert(items[k].is_breaking());
}

/// Without a breaking commit the set is not breaking.
pub proof fn law_no_breaking_commit(items: Seq<Item>)
    requires
        forall|i: int| 0 <= i < items.len() ==> !(#[trigger] items[i]).message.breaking,
    ensures
        !any_breaking(items),
{
}

/// One commit of the kind `feat` is enough for the set to add a feature.
pub proof fn law_feature_commit(items: Seq<Item>, k: int)
    requires
        0 <= k < items.len(),
        items[k].message.kind is Some,
        items[k].message.kind->0@ == seq!['f', 'e', 'a', 't'],
    ensures
        any_feature(items),
{
    reveal_strlit("feat");
    assert("feat"@ =~= seq!['f', 'e', 'a', 't']);
    assert(items[k].is_feature());
}

/// Without a commit of the kind `feat` the set adds no feature.
pub proof fn law_no_feature_commit(items: Seq<Item>)
    requires
        forall|i: int|
            0 <= i < items.len() && (#[trigger] items[i]).message.kind is Some
                ==> items[i].message.kind->0@ != seq!['f', 'e', 'a', 't'],
    ensures
        !any_feature(items),
{
    reveal_strlit("feat");
    assert("feat"@ =~= seq!['f', 'e', 'a', 't']);
}

/// A breaking commit asks for a major step from a stable version, and for a
/// minor step from an unstable one.
pub proof fn law_level_of_breaking_commit(v: VersionView, items: Seq<Item>, k: int)
    requires
        0 <= k < items.len(),
        items[k].message.breaking,
    ensures
        v.major > 0 && v.pre.len() == 0 ==> level_of(v, items) is Major,
        v.major == 0 || v.pre.len() > 0 ==> level_of(v, items) is Minor,
{
    law_breaking_commit(items, k);
}

/// Where no commit is breaking, a feature asks for a minor step from a stable
/// version, and for a patch step from an unstable one.
pub proof fn law_level_of_feature_commit(v: VersionView, items: Seq<Item>, k: int)
    requires
        forall|i: int| 0 <= i < items.len() ==> !(#[trigger] items[i]).message.breaking,
        0 <= k < items.len(),
        items[k].message.kind is Some,
        items[k].message.kind->0@ == seq!['f', 'e', 'a', 't'],
    ensures
        v.major > 0 && v.pre.len() == 0 ==> level_of(v, items) is Minor,
        v.major == 0 || v.pre.len() > 0 ==> level_of(v, items) is Patch,
{
    law_no_breaking_commit(items);
    law_feature_commit(items, k);
}

/// Any other set of commits asks for a patch step.
pub proof fn law_level_of_other_commits(v: VersionView, items: Seq<Item>)
    requires
        forall|i: int| 0 <= i < items.len() ==> !(#[trigger] items[i]).message.breaking,
        forall|i: int|
            0 <= i < items.len() && (#[trigger] items[i]).message.kind is Some
                ==> items[i].message.kind->0@ != seq!['f', 'e', 'a', 't'],
    ensures
        level_of(v, items) is Patch,
{
    law_no_breaking_commit(items);
    law_no_feature_commit(items);
}

/// An automatic release keeps the build metadata and ends at no pre-release.
/// From a pre-release, and where there are no commits, it keeps the numbers.
pub proof fn law_auto_release_texts(v: VersionView, items: Seq<Item>)
    ensures
        auto_release(v, items).build == v.build,
        auto_release(v, items).pre.len() == 0,
        v.pre.len() > 0 || items.len() == 0 ==> {
            &&& auto_release(v, items).major == v.major
            &&& auto_release(v, items).minor == v.minor
            &&& auto_release(v, items).patch == v.patch
            &&& auto_release_fits(v, items)
        },
        v.pre.len() > 0 ==> !auto_release_breaks(v, items),
        v.major < u64::MAX && v.minor < u64::MAX && v.patch < u64::MAX ==> auto_release_fits(
            v,
            items,
        ),
{
}

/// With a breaking commit the automatic release of a stable version is
/// breaking. It raises the major number, or below 1.0.0 the minor number, and
/// sets the numbers behind it to zero.
pub proof fn law_auto_release_of_breaking_commit(v: VersionView, items: Seq<Item>, k: int)
    requires
        v.pre.len() == 0,
        0 <= k < items.len(),
        items[k].message.breaking,
    ensures
        auto_release_breaks(v, items),
        auto_release(v, items).patch == 0,
        v.major > 0 ==> {
            &&& auto_release(v, items).major == v.major + 1
            &&& auto_release(v, items).minor == 0
        },
        v.major == 0 ==> {
            &&& auto_release(v, items).major == 0
            &&& auto_release(v, items).minor == v.minor + 1
        },
{
    law_level_of_breaking_commit(v, items, k);
    law_breaking_commit(items, k);
}

/// With a feature and without a breaking commit the automatic release of a
/// stable version is not breaking. It raises the minor number and sets the
/// patch number to zero, or below 1.0.0 raises the patch number.
pub proof fn law_auto_release_of_feature_commit(v: VersionView, items: Seq<Item>, k: int)
    requires
        v.pre.len() == 0,
        forall|i: int| 0 <= i < items.len() ==> !(#[trigger] items[i]).message.breaking,
        0 <= k < items.len(),
        items[k].message.kind is Some,
        items[k].message.kind->0@ == seq!['f', 'e', 'a', 't'],
    ensures
        !auto_release_breaks(v, items),
        auto_release(v, items).major == v.major,
        v.major > 0 ==> {
            &&& auto_release(v, items).minor == v.minor + 1
            &&& auto_release(v, items).patch == 0
        },
        v.major == 0 ==> {
            &&& auto_release(v, items).minor == v.minor
            &&& auto_release(v, items).patch == v.patch + 1
        },
{
    law_level_of_feature_commit(v, items, k);
    law_no_breaking_commit(items);
}

/// With neither the automatic release of a stable version is not breaking, and
/// raises the patch number if there are commits at all.
pub proof fn law_auto_release_of_other_commits(v: VersionView, items: Seq<Item>)
    requires
        v.pre.len() == 0,
        forall|i: int| 0 <= i < items.len() ==> !(#[trigger] items[i]).message.breaking,
        forall|i: int|
            0 <= i < items.len() && (#[trigger] items[i]).message.kind is Some
                ==> items[i].message.kind->0@ != seq!['f', 'e', 'a', 't'],
    ensures
        !auto_release_breaks(v, items),
        auto_release(v, items).major == v.major,
        auto_release(v, items).minor == v.minor,
        items.len() > 0 ==> auto_release(v, items).patch == v.patch + 1,
{
    law_level_of_other_commits(v, items);
    law_no_breaking_commit(items);
}

/// An automatic pre-release leaves the version alone where there are no
/// commits, and never touches the build metadata.
pub proof fn law_auto_prerelease_keeps(
    v: VersionView,
    last: VersionView,
    items: Seq<Item>,
    label: Seq<char>,
)
    ensures
        items.len() == 0 ==> auto_prerelease(v, last, items, label) == v,
        items.len() == 0 ==> auto_prerelease_fits(v, last, items, label),
        auto_prerelease(v, last, items, label).build == v.build,
{
}

/// With a breaking commit an automatic pre-release leads up to the version
/// that follows the last stable one by a major step, or below 1.0.0 by a minor
/// step.
pub proof fn law_auto_prerelease_of_breaking_commit(
    v: VersionView,
    last: VersionView,
    items: Seq<Item>,
    label: Seq<char>,
    k: int,
)
    requires
        last.pre.len() == 0,
        0 <= k < items.len(),
        items[k].message.breaking,
    ensures
        auto_prerelease(v, last, items, label).patch == 0,
        last.major > 0 ==> {
            &&& auto_prerelease(v, last, items, label).major == last.major + 1
            &&& auto_prerelease(v, last, items, label).minor == 0
        },
        last.major == 0 ==> {
            &&& auto_prerelease(v, last, items, label).major == 0
            &&& auto_prerelease(v, last, items, label).minor == last.minor + 1
        },
{
    law_level_of_breaking_commit(last, items, k);
}

/// With a feature and without a breaking commit an automatic pre-release leads
/// up to the version that follows the last stable one by a minor step, or
/// below 1.0.0 by a patch step.
pub proof fn law_auto_prerelease_of_feature_commit(
    v: VersionView,
    last: VersionView,
    items: Seq<Item>,
    label: Seq<char>,
    k: int,
)
    requires
        last.pre.len() == 0,
        forall|i: int| 0 <= i < items.len() ==> !(#[trigger] items[i]).message.breaking,
        0 <= k < items.len(),
        items[k].message.kind is Some,
        items[k].message.kind->0@ == seq!['f', 'e', 'a', 't'],
    ensures
        auto_prerelease(v, last, items, label).major == last.major,
        last.major > 0 ==> {
            &&& auto_prerelease(v, last, items, label).minor == last.minor + 1
            &&& auto_prerelease(v, last, items, label).patch == 0
        },
        last.major == 0 ==> {
            &&& auto_prerelease(v, last, items, label).minor == last.minor
            &&& auto_prerelease(v, last, items, label).patch == last.patch + 1
        },
{
    law_level_of_feature_commit(last, items, k);
}

/// With any other commits an automatic pre-release leads up to the version
/// that follows the last stable one by a patch step.
pub proof fn law_auto_prerelease_of_other_commits(
    v: VersionView,
    last: VersionView,
    items: Seq<Item>,
    label: Seq<char>,
)
    requires
        last.pre.len() == 0,
        items.len() > 0,
        forall|i: int| 0 <= i < items.len() ==> !(#[trigger] items[i]).message.breaking,
        forall|i: int|
            0 <= i < items.len() && (#[trigger] items[i]).message.kind is Some
                ==> items[i].message.kind->0@ != seq!['f', 'e', 'a', 't'],
    ensures
        auto_prerelease(v, last, items, label).major == last.major,
        auto_prerelease(v, last, items, label).minor == last.minor,
        auto_prerelease(v, last, items, label).patch == last.patch + 1,
{
    law_level_of_other_commits(last, items);
}

/// An automatic pre-release goes on counting if it keeps the three numbers and
/// the version is `label.n` already.
pub proof fn law_auto_prerelease_goes_on_counting(
    v: VersionView,
    last: VersionView,
    items: Seq<Item>,
    label: Seq<char>,
    n: nat,
)
    requires
        items.len() > 0,
        v.pre == label + seq!['.'] + decimal(n),
        n <= u64::MAX,
        ({
            let next = auto_prerelease(v, last, items, label);
            next.major == v.major && next.minor == v.minor && next.patch == v.patch
        }),
    ensures
        auto_prerelease(v, last, items, label).pre == label + seq!['.'] + decimal(n + 1),
{
    law_numbered_text(label, n);
    law_numbered_text(label, n + 1);
    lemma_numbered(label, n);
}

/// A pre-release without a dot counts as zero there too.
pub proof fn law_auto_prerelease_starts_counting(
    v: VersionView,
    last: VersionView,
    items: Seq<Item>,
)
    requires
        items.len() > 0,
        v.pre.len() > 0,
        forall|i: int| 0 <= i < v.pre.len() ==> #[trigger] v.pre[i] != '.',
        ({
            let next = auto_prerelease(v, last, items, v.pre);
            next.major == v.major && next.minor == v.minor && next.patch == v.patch
        }),
    ensures
        auto_prerelease(v, last, items, v.pre).pre == v.pre + seq!['.', '1'],
{
    law_label_without_dot(v.pre);
    law_numbered_text(v.pre, 1);
    assert(decimal(1) =~= seq!['1']);
    assert(v.pre + seq!['.'] + seq!['1'] =~= v.pre + seq!['.', '1']);
}

/// An automatic pre-release starts a series if it changes one of the three
/// numbers.
pub proof fn law_auto_prerelease_new_numbers(
    v: VersionView,
    last: VersionView,
    items: Seq<Item>,
    label: Seq<char>,
)
    requires
        items.len() > 0,
        ({
            let next = auto_prerelease(v, last, items, label);
            next.major != v.major || next.minor != v.minor || next.patch != v.patch
        }),
    ensures
        auto_prerelease(v, last, items, label).pre == label + seq!['.', '0'],
{
    law_numbered_text(label, 0);
}

/// An automatic pre-release starts a series if the version is none of that
/// series: if it is neither the label itself nor the label, a dot and a number.
pub proof fn law_auto_prerelease_new_label(
    v: VersionView,
    last: VersionView,
    items: Seq<Item>,
    label: Seq<char>,
)
    requires
        items.len() > 0,
        v.pre.len() == 0 || v.pre != label && !exists|counter: Seq<char>|
            #![trigger label + seq!['.'] + counter]
            v.pre == label + seq!['.'] + counter && parsed_u64(counter) is Some,
    ensures
        auto_prerelease(v, last, items, label).pre == label + seq!['.', '0'],
{
    law_numbered_text(label, 0);
    if v.pre.len() > 0 && label_of(v.pre) == label {
        lemma_last_dot(v.pre);
        match last_dot(v.pre) {
            Some(i) => {
                let counter = v.pre.skip(i + 1);
                assert(v.pre =~= v.pre.take(i) + seq!['.'] + counter);
                assert(v.pre == label + seq!['.'] + counter);
            },
            None => {},
        }
    }
}

/// An automatic pre-release can be made wherever no number of the last stable
/// version is the largest one, unless the version is one of the label's series
/// whose counter is the largest one, or the label itself with a dot in it.
pub proof fn law_auto_prerelease_fits(
    v: VersionView,
    last: VersionView,
    items: Seq<Item>,
    label: Seq<char>,
)
    requires
        last.major < u64::MAX,
        last.minor < u64::MAX,
        last.patch < u64::MAX,
        is_label(label),
        forall|counter: Seq<char>|
            v.pre == #[trigger] (label + seq!['.'] + counter) && parsed_u64(counter) is Some
                ==> parsed_u64(counter)->0 < u64::MAX,
        v.pre == label ==> forall|i: int| 0 <= i < v.pre.len() ==> #[trigger] v.pre[i] != '.',
    ensures
        auto_prerelease_fits(v, last, items, label),
{
    if v.pre.len() > 0 && label_of(v.pre) == label {
        lemma_last_dot(v.pre);
        match last_dot(v.pre) {
            Some(i) => {
                let counter = v.pre.skip(i + 1);
                assert(v.pre =~= v.pre.take(i) + seq!['.'] + counter);
                if parsed_u64(counter) is Some {
                    assert(v.pre == label + seq!['.'] + counter);
                } else {
                    assert(v.pre == label);
                    assert(v.pre[i] == '.');
                }
            },
            None => {},
        }
    }
}

} // verus!
