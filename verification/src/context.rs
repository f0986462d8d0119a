//! What is known of the crates to release when their versions are chosen.

use vstd::prelude::*;

use crate::bump::BumpSpec;
use crate::history::{History, SegmentScope};
use crate::version::Version;

verus! {

/// A crate of the workspace.
#[derive(Debug)]
pub struct Package {
    pub name: String,
    /// The version that its manifest has.
    pub version: Version,
}

/// A crate in the registry.
#[derive(Debug)]
pub struct PublishedCrate {
    pub name: String,
    /// The text of each published version.
    pub versions: Vec<String>,
    /// The text of the highest of them.
    pub highest_version: String,
}

/// The crates that the registry has.
#[derive(Debug)]
pub struct Index {
    pub crates: Vec<PublishedCrate>,
}

/// The first crate of the given name.
pub open spec fn find_crate(crates: Seq<PublishedCrate>, name: Seq<char>) -> Option<PublishedCrate>
    decreases crates.len(),
{
    if crates.len() == 0 {
        None
    } else if crates[0].name@ == name {
        Some(crates[0])
    } else {
        find_crate(crates.drop_first(), name)
    }
}

impl Index {
    /// The crate of the given name, if it was ever published.
    pub fn crate_(&self, name: &String) -> (published: Option<&PublishedCrate>)
        ensures
            match published {
                Some(published) => find_crate(self.crates@, name@) == Some(*published),
                None => find_crate(self.crates@, name@) is None,
            },
    {
        let mut i: usize = 0;
        assert(self.crates@.skip(0) =~= self.crates@);
        while i < self.crates.len()
            invariant
                i <= self.crates@.len(),
                find_crate(self.crates@, name@) == find_crate(self.crates@.skip(i as int), name@),
            decreases self.crates@.len() - i,
        {
            let ghost rest = self.crates@.skip(i as int);
            assert(rest[0] == self.crates@[i as int]);
            assert(rest.drop_first() =~= self.crates@.skip(i + 1));
            if self.crates[i].name == *name {
                return Some(&self.crates[i]);
            }
            i += 1;
        }
        None
    }
}

/// What the choice of a version depends on.
#[derive(Debug)]
pub struct Context {
    /// The crates whose release was asked for.
    pub crate_names: Vec<String>,
    /// How the versions of those crates are chosen.
    pub bump: BumpSpec,
    /// How the versions of all other crates are chosen.
    pub bump_dependencies: BumpSpec,
    /// The label of pre-releases to make. Empty if none was given.
    pub pre_id: String,
    /// The commits of the crate whose version is chosen, in the scope that
    /// `history_scope` names. `None` where there is no access to them.
    pub history: Option<History>,
    pub crates_index: Index,
}

/// The scope of the commits that an automatic choice looks at.
pub open spec fn auto_scope(pre_id: Seq<char>) -> SegmentScope {
    if pre_id.len() > 0 {
        SegmentScope::UnreleasedSinceStable
    } else {
        SegmentScope::Unreleased
    }
}

/// The scope in which the commits have to be read, if they are needed at all.
pub fn history_scope(bump_spec: BumpSpec, ctx: &Context) -> (scope: Option<SegmentScope>)
    ensures
        scope == if bump_spec is Auto {
            Some(auto_scope(ctx.pre_id@))
        } else {
            None
        },
{
    match bump_spec {
        BumpSpec::Auto => if ctx.pre_id.as_str().is_empty() {
            Some(SegmentScope::Unreleased)
        } else {
            Some(SegmentScope::UnreleasedSinceStable)
        },
        _ => None,
    }
}

/// The release of the named crate was asked for.
pub open spec fn is_requested(name: Seq<char>, ctx: Context) -> bool {
    exists|i: int| 0 <= i < ctx.crate_names@.len() && (#[trigger] ctx.crate_names@[i])@ == name
}

/// How the version of the named crate is chosen.
pub open spec fn selected_spec(name: Seq<char>, ctx: Context) -> BumpSpec {
    if is_requested(name, ctx) {
        ctx.bump
    } else {
        ctx.bump_dependencies
    }
}

/// How the version of the named crate is chosen.
pub fn select_publishee_bump_spec(name: &String, ctx: &Context) -> (spec: BumpSpec)
    ensures
        spec == selected_spec(name@, *ctx),
{
    let mut i: usize = 0;
    while i < ctx.crate_names.len()
        invariant
            i <= ctx.crate_names@.len(),
            forall|j: int| 0 <= j < i ==> (#[trigger] ctx.crate_names@[j])@ != name@,
        decreases ctx.crate_names@.len() - i,
    {
        if ctx.crate_names[i] == *name {
            return ctx.bump;
        }
        i += 1;
    }
    ctx.bump_dependencies
}

} // verus!
