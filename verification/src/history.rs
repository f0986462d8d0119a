//! What the commits of a crate say about the next version.

use vstd::prelude::*;

verus! {

/// Which commits of a crate are looked at.
#[derive(Clone, Copy, Debug, PartialEq, Eq, Structural)]
pub enum SegmentScope {
    /// Those since the last release, of a pre-release or not.
    Unreleased,
    /// Those since the last release that is no pre-release.
    UnreleasedSinceStable,
}

/// A commit message, as far as it is made up by convention.
#[derive(Debug)]
pub struct Message {
    /// The kind of change, such as `feat` or `fix`.
    pub kind: Option<String>,
    pub breaking: bool,
}

/// A commit.
#[derive(Debug)]
pub struct Item {
    pub message: Message,
}

impl Item {
    /// The commit is a breaking change.
    pub open spec fn is_breaking(self) -> bool {
        self.message.breaking
    }

    /// The commit adds a feature.
    pub open spec fn is_feature(self) -> bool {
        match self.message.kind {
            Some(kind) => kind@ == "feat"@,
            None => false,
        }
    }
}

/// The commits between two releases.
#[derive(Debug)]
pub struct Segment {
    pub history: Vec<Item>,
}

/// The history of a single crate, in segments, the unreleased one first.
#[derive(Debug)]
pub struct History {
    pub scope: SegmentScope,
    pub segments: Vec<Segment>,
}

/// One of the commits is a breaking change.
pub open spec fn any_breaking(items: Seq<Item>) -> bool {
    exists|i: int| 0 <= i < items.len() && (#[trigger] items[i]).is_breaking()
}

/// One of the commits adds a feature.
pub open spec fn any_feature(items: Seq<Item>) -> bool {
    exists|i: int| 0 <= i < items.len() && (#[trigger] items[i]).is_feature()
}

/// One of the commits is a breaking change.
pub fn has_breaking(items: &Vec<Item>) -> (found: bool)
    ensures
        found == any_breaking(items@),
{
    let mut i: usize = 0;
    while i < items.len()
        invariant
            i <= items@.len(),
            forall|j: int| 0 <= j < i ==> !(#[trigger] items@[j]).is_breaking(),
        decreases items@.len() - i,
    {
        if items[i].message.breaking {
            assert(items@[i as int].is_breaking());
            return true;
        }
        i += 1;
    }
    false
}

/// One of the commits adds a feature.
pub fn has_feature(items: &Vec<Item>) -> (found: bool)
    ensures
        found == any_feature(items@),
{
    let feature = "feat".to_owned();
    let mut i: usize = 0;
    while i < items.len()
        invariant
            i <= items@.len(),
            feature@ == "feat"@,
            forall|j: int| 0 <= j < i ==> !(#[trigger] items@[j]).is_feature(),
        decreases items@.len() - i,
    {
        if let Some(kind) = &items[i].message.kind {
            if *kind == feature {
                assert(items@[i as int].is_feature());
                return true;
            }
        }
        i += 1;
    }
    false
}

} // verus!
