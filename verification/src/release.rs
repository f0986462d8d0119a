//! The next release of a crate.

use vstd::prelude::*;

use crate::bump::{
    auto_prerelease, auto_prerelease_fits, auto_release, auto_release_breaks, auto_release_fits,
    breaks, bump_auto_pre_release, bump_auto_release, bump_breaks, bump_fits,
    bump_major_minor_patch, bump_pre_release, bumped, next_prerelease, next_prerelease_fits,
    rhs_is_breaking_bump_for_lhs, BumpSpec,
};
use crate::context::{
    auto_scope, find_crate, select_publishee_bump_spec, selected_spec, Context, Index, Package,
};
use crate::history::Item;
use crate::identifier::is_label;
use crate::order::Order;
use crate::version::{
    lemma_order_version_total, order_version, parsed, Prerelease, Version, VersionView,
};

verus! {

/// The versions that play a role in the next release of a crate.
#[derive(Debug)]
pub struct Bump {
    pub next_release: Version,
    /// The current version of the crate as read from Cargo.toml.
    pub package_version: Version,
    /// The latest released version of the package, as read from the crates-index.
    pub latest_release: Option<Version>,
    /// The computed version, for example based on a user version bump or a computed version bump.
    pub desired_release: Version,
}

impl Clone for Bump {
    fn clone(&self) -> (copy: Bump)
        ensures
            copy.next_release@ == self.next_release@,
            copy.package_version@ == self.package_version@,
            copy.desired_release@ == self.desired_release@,
            match (copy.latest_release, self.latest_release) {
                (Some(a), Some(b)) => a@ == b@,
                (None, None) => true,
                _ => false,
            },
    {
        Bump {
            next_release: self.next_release.clone(),
            package_version: self.package_version.clone(),
            latest_release: match &self.latest_release {
                Some(version) => Some(version.clone()),
                None => None,
            },
            desired_release: self.desired_release.clone(),
        }
    }
}

impl Bump {
    /// Returns true if the manifest has to be changed for the release.
    pub fn next_release_changes_manifest(&self) -> (changes: bool)
        ensures
            changes == (order_version(self.next_release@, self.package_version@)
                == Order::Greater),
    {
        match self.next_release.compare(&self.package_version) {
            Order::Greater => true,
            _ => false,
        }
    }

    /// Returns true if the release breaks dependents of the version in the manifest.
    pub fn is_breaking(&self) -> (breaking: bool)
        ensures
            breaking == breaks(self.package_version@, self.next_release@),
    {
        rhs_is_breaking_bump_for_lhs(&self.package_version, &self.next_release)
    }

    /// Returns true if the version bump produces a pre-release that existing caret
    /// requirements on `package_version` cannot match. This happens when `next_release`
    /// is pre-release and has a different major.minor.patch base than `package_version`.
    pub fn is_pre_release_incompatible(&self) -> (incompatible: bool)
        ensures
            incompatible == (!self.next_release@.is_stable() && !self.next_release@.same_base(
                self.package_version@,
            )),
    {
        let lhs = &self.package_version;
        let rhs = &self.next_release;
        !rhs.pre.is_empty() && (lhs.major != rhs.major || lhs.minor != rhs.minor || lhs.patch
            != rhs.patch)
    }
}

/// The stable version that a text stands for, where it stands for one.
pub open spec fn parsed_stable(text: Seq<char>) -> Option<VersionView> {
    match parsed(text) {
        Some(v) if v.is_stable() => Some(v),
        _ => None,
    }
}

/// The greatest of the stable versions among the texts.
pub open spec fn greatest_stable(texts: Seq<String>) -> Option<VersionView>
    decreases texts.len(),
{
    if texts.len() == 0 {
        None
    } else {
        match (greatest_stable(texts.drop_last()), parsed_stable(texts.last()@)) {
            (Some(a), Some(b)) => if order_version(a, b) == Order::Greater {
                Some(a)
            } else {
                Some(b)
            },
            (Some(a), None) => Some(a),
            (None, b) => b,
        }
    }
}

/// The last stable version of a package: the greatest one that was published,
/// or else what its own version leads up to.
pub open spec fn last_stable(package: Package, index: Index) -> VersionView {
    let published = match find_crate(index.crates@, package.name@) {
        Some(published) => greatest_stable(published.versions@),
        None => None,
    };
    match published {
        Some(v) => v,
        None => package.version@.released(),
    }
}

/// The greatest of the stable versions among the texts.
fn find_greatest_stable(texts: &Vec<String>) -> (greatest: Option<Version>)
    ensures
        match greatest {
            Some(v) => greatest_stable(texts@) == Some(v@),
            None => greatest_stable(texts@) is None,
        },
{
    let mut greatest: Option<Version> = None;
    let mut i: usize = 0;
    assert(texts@.take(0) =~= Seq::<String>::empty());
    while i < texts.len()
        invariant
            i <= texts@.len(),
            match greatest {
                Some(v) => greatest_stable(texts@.take(i as int)) == Some(v@),
                None => greatest_stable(texts@.take(i as int)) is None,
            },
        decreases texts@.len() - i,
    {
        let ghost upto = texts@.take(i + 1);
        assert(upto.drop_last() =~= texts@.take(i as int));
        assert(upto.last() == texts@[i as int]);
        if let Ok(version) = Version::parse(texts[i].as_str()) {
            if version.pre.is_empty() {
                let replace = match &greatest {
                    Some(best) => match best.compare(&version) {
                        Order::Greater => false,
                        _ => true,
                    },
                    None => true,
                };
                if replace {
                    greatest = Some(version);
                }
            }
        }
        i += 1;
    }
    assert(texts@.take(texts@.len() as int) =~= texts@);
    greatest
}

/// Find the last stable (non-pre-release) version for a package.
/// Checks the crates index first, falls back to stripping pre from current version.
/// That base was already bumped when the pre-release began, and serves as the floor.
pub fn find_last_stable_version(package: &Package, ctx: &Context) -> (version: Version)
    ensures
        version@ == last_stable(*package, ctx.crates_index),
{
    if let Some(published_crate) = ctx.crates_index.crate_(&package.name) {
        if let Some(v) = find_greatest_stable(&published_crate.versions) {
            return v;
        }
    }
    let mut fallback = package.version.clone();
    fallback.pre = Prerelease::empty();
    assert(fallback@ =~= package.version@.released());
    fallback
}

/// Why no version could be chosen.
#[derive(Debug, PartialEq, Eq)]
pub enum BumpError {
    /// The next pre-release of a version that is no pre-release was asked for.
    NotAPreRelease { version: Version },
    /// The commits that an automatic choice looks at are not there.
    NoHistory,
}

impl BumpError {
    /// What a user is told.
    pub open spec fn message(self) -> Seq<char> {
        match self {
            BumpError::NotAPreRelease { version } => "Cannot use 'prerelease' on stable version "@
                + version@.text()
                + ". Use '--bump major/minor/patch --pre-id <label>' to start a pre-release series."@,
            BumpError::NoHistory => "Did not have access to the Git history - please assure to not be on a detached HEAD"@,
        }
    }

    pub fn to_string(&self) -> (text: String)
        ensures
            text@ == self.message(),
    {
        match self {
            BumpError::NotAPreRelease { version } => {
                let mut text = "Cannot use 'prerelease' on stable version ".to_owned();
                text.append(version.to_string().as_str());
                text.append(
                    ". Use '--bump major/minor/patch --pre-id <label>' to start a pre-release series.",
                );
                text
            },
            BumpError::NoHistory => "Did not have access to the Git history - please assure to not be on a detached HEAD".to_owned(),
        }
    }
}

/// The commits that an automatic choice goes by.
pub open spec fn unreleased(ctx: Context) -> Seq<Item> {
    ctx.history->0.segments@[0].history@
}

/// The choice can be made: a pre-release is there to follow, and the commits
/// to go by are there.
pub open spec fn is_possible(package: Package, spec: BumpSpec, ctx: Context) -> bool {
    match spec {
        BumpSpec::PreRelease => !package.version@.is_stable(),
        BumpSpec::Auto => ctx.history is Some,
        _ => true,
    }
}

/// The version that `spec` asks for.
pub open spec fn desired(package: Package, spec: BumpSpec, ctx: Context) -> VersionView {
    let v = package.version@;
    let pre_id = ctx.pre_id@;
    match spec {
        BumpSpec::Major | BumpSpec::Minor | BumpSpec::Patch => bumped(v, spec, pre_id),
        BumpSpec::PreRelease => next_prerelease(v, pre_id),
        BumpSpec::Keep => v,
        BumpSpec::Auto => if pre_id.len() > 0 {
            auto_prerelease(v, last_stable(package, ctx.crates_index), unreleased(ctx), pre_id)
        } else {
            auto_release(v, unreleased(ctx))
        },
    }
}

/// The step that `spec` asks for is a breaking one.
pub open spec fn desired_breaks(package: Package, spec: BumpSpec, ctx: Context) -> bool {
    match spec {
        BumpSpec::Major | BumpSpec::Minor | BumpSpec::Patch => bump_breaks(
            package.version@,
            spec,
            ctx.pre_id@,
        ),
        BumpSpec::Auto => ctx.pre_id@.len() == 0 && auto_release_breaks(
            package.version@,
            unreleased(ctx),
        ),
        _ => false,
    }
}

/// The version that `spec` asks for can be written down, and the commits it
/// depends on were read in the right scope.
pub open spec fn desired_fits(package: Package, spec: BumpSpec, ctx: Context) -> bool {
    let v = package.version@;
    let pre_id = ctx.pre_id@;
    match spec {
        BumpSpec::Major | BumpSpec::Minor | BumpSpec::Patch => {
            &&& pre_id.len() > 0 ==> is_label(pre_id)
            &&& bump_fits(v, spec, pre_id)
        },
        BumpSpec::PreRelease => next_prerelease_fits(v, pre_id),
        BumpSpec::Keep => true,
        BumpSpec::Auto => {
            &&& ctx.history->0.scope == auto_scope(pre_id)
            &&& if pre_id.len() > 0 {
                &&& ctx.history->0.segments@.len() > 0
                &&& auto_prerelease_fits(
                    v,
                    last_stable(package, ctx.crates_index),
                    unreleased(ctx),
                    pre_id,
                )
            } else {
                &&& ctx.history->0.segments@.len() == 1
                &&& auto_release_fits(v, unreleased(ctx))
            }
        },
    }
}

/// Moves the version of the package on as `bump_spec` asks for. Returns true
/// with it if that is a breaking change.
pub fn desired_release(package: &Package, bump_spec: BumpSpec, ctx: &Context) -> (result: Result<
    (Version, bool),
    BumpError,
>)
    requires
        is_possible(*package, bump_spec, *ctx) ==> desired_fits(*package, bump_spec, *ctx),
    ensures
        match result {
            Ok((version, breaking)) => {
                &&& is_possible(*package, bump_spec, *ctx)
                &&& version@ == desired(*package, bump_spec, *ctx)
                &&& breaking == desired_breaks(*package, bump_spec, *ctx)
            },
            Err(BumpError::NotAPreRelease { version }) => {
                &&& bump_spec is PreRelease
                &&& package.version@.is_stable()
                &&& version@ == package.version@
            },
            Err(BumpError::NoHistory) => bump_spec is Auto && ctx.history is None,
        },
{
    let mut v = package.version.clone();
    let breaking = match bump_spec {
        BumpSpec::Major | BumpSpec::Minor | BumpSpec::Patch => bump_major_minor_patch(
            &mut v,
            bump_spec,
            ctx.pre_id.as_str(),
        ),
        BumpSpec::PreRelease => {
            if v.pre.is_empty() {
                return Err(BumpError::NotAPreRelease { version: v });
            }
            bump_pre_release(&mut v, ctx.pre_id.as_str());
            false
        },
        BumpSpec::Keep => false,
        BumpSpec::Auto => match &ctx.history {
            None => {
                return Err(BumpError::NoHistory);
            },
            Some(history) => {
                let items = &history.segments[0].history;
                if ctx.pre_id.as_str().is_empty() {
                    bump_auto_release(&mut v, items)
                } else {
                    let last_stable = find_last_stable_version(package, ctx);
                    bump_auto_pre_release(&mut v, &last_stable, items, ctx.pre_id.as_str());
                    false
                }
            },
        },
    };
    Ok((v, breaking))
}

/// The version to release, where `desired` was asked for, the manifest has
/// `current`, and `latest` is the highest published one. A version in the
/// manifest that is still unpublished serves if a bump is only made when
/// needed, unless the step must be a breaking one and it is not.
pub open spec fn next_release(
    desired: VersionView,
    current: VersionView,
    latest: Option<VersionView>,
    bump_when_needed: bool,
    must_break: bool,
) -> VersionView {
    match latest {
        Some(latest) => if order_version(latest, desired) == Order::Less && bump_when_needed
            && order_version(current, latest) == Order::Greater && desired != current && (must_break
            ==> breaks(latest, current)) {
            current
        } else {
            desired
        },
        None => if bump_when_needed {
            current
        } else {
            desired
        },
    }
}

/// Chooses between the desired version and the one that the manifest has.
pub fn select_next_release(
    desired: &Version,
    current: &Version,
    latest: &Option<Version>,
    bump_when_needed: bool,
    must_break: bool,
) -> (version: Version)
    ensures
        version@ == next_release(
            desired@,
            current@,
            match *latest {
                Some(latest) => Some(latest@),
                None => None,
            },
            bump_when_needed,
            must_break,
        ),
{
    match latest {
        Some(latest) => {
            let published = match latest.compare(desired) {
                Order::Less => false,
                _ => true,
            };
            if published || !bump_when_needed {
                return desired.clone();
            }
            let unpublished = match current.compare(latest) {
                Order::Greater => true,
                _ => false,
            };
            let same = match desired.compare(current) {
                Order::Equal => true,
                _ => false,
            };
            proof {
                lemma_order_version_total();
                let version = |a: VersionView, b: VersionView| order_version(a, b);
                assert((version(desired@, current@) == Order::Equal) == (desired@ == current@));
            }
            if unpublished && !same && (!must_break || rhs_is_breaking_bump_for_lhs(latest, current)) {
                current.clone()
            } else {
                desired.clone()
            }
        },
        None => if bump_when_needed {
            current.clone()
        } else {
            desired.clone()
        },
    }
}

/// The highest published version of the package.
pub open spec fn latest(package: Package, index: Index) -> Option<VersionView> {
    match find_crate(index.crates@, package.name@) {
        Some(published) => parsed(published.highest_version@),
        None => None,
    }
}

/// The highest version that the registry has of the package is a version.
pub open spec fn index_is_valid(package: Package, index: Index) -> bool {
    find_crate(index.crates@, package.name@) is Some ==> latest(package, index) is Some
}

/// `result` is what the choice of the next release comes to: an error if and
/// only if the choice cannot be made, and otherwise the four versions that
/// play a role in it.
pub open spec fn is_outcome(
    result: Result<Bump, BumpError>,
    package: Package,
    spec: BumpSpec,
    ctx: Context,
    bump_when_needed: bool,
) -> bool {
    let current = package.version@;
    let desired = desired(package, spec, ctx);
    let latest = latest(package, ctx.crates_index);
    let must_break = desired_breaks(package, spec, ctx);
    match result {
        Ok(bump) => {
            &&& is_possible(package, spec, ctx)
            &&& bump.package_version@ == current
            &&& bump.desired_release@ == desired
            &&& latest == match bump.latest_release {
                Some(v) => Some(v@),
                None => None,
            }
            &&& bump.next_release@ == next_release(
                desired,
                current,
                latest,
                bump_when_needed,
                must_break,
            )
        },
        Err(BumpError::NotAPreRelease { version }) => {
            &&& spec is PreRelease
            &&& current.is_stable()
            &&& version@ == current
        },
        Err(BumpError::NoHistory) => spec is Auto && ctx.history is None,
    }
}

/// Chooses the next release of a package.
pub fn bump_package_with_spec(
    package: &Package,
    bump_spec: BumpSpec,
    ctx: &Context,
    bump_when_needed: bool,
) -> (result: Result<Bump, BumpError>)
    requires
        is_possible(*package, bump_spec, *ctx) ==> {
            &&& desired_fits(*package, bump_spec, *ctx)
            &&& index_is_valid(*package, ctx.crates_index)
        },
    ensures
        is_outcome(result, *package, bump_spec, *ctx, bump_when_needed),
{
    let (desired_release, must_break) = match desired_release(package, bump_spec, ctx) {
        Ok(desired) => desired,
        Err(error) => {
            return Err(error);
        },
    };
    let latest_release = match ctx.crates_index.crate_(&package.name) {
        Some(published_crate) => Some(
            Version::parse(published_crate.highest_version.as_str()).unwrap(),
        ),
        None => None,
    };
    let next_release = select_next_release(
        &desired_release,
        &package.version,
        &latest_release,
        bump_when_needed,
        must_break,
    );
    Ok(
        Bump {
            next_release,
            package_version: package.version.clone(),
            latest_release,
            desired_release,
        },
    )
}

/// Chooses the next release of a package, in the way that the context has for it.
pub fn bump_package(package: &Package, ctx: &Context, bump_when_needed: bool) -> (result: Result<
    Bump,
    BumpError,
>)
    requires
        is_possible(*package, selected_spec(package.name@, *ctx), *ctx) ==> {
            &&& desired_fits(*package, selected_spec(package.name@, *ctx), *ctx)
            &&& index_is_valid(*package, ctx.crates_index)
        },
    ensures
        is_outcome(result, *package, selected_spec(package.name@, *ctx), *ctx, bump_when_needed),
{
    let bump_spec = select_publishee_bump_spec(&package.name, ctx);
    bump_package_with_spec(package, bump_spec, ctx, bump_when_needed)
}

} // verus!
