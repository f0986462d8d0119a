//! Version bumping for crates that are released together: which version a
//! crate gets next, and whether that step breaks its dependents.

pub mod bump;
pub mod bumpable;
pub mod context;
pub mod decimal;
pub mod history;
pub mod identifier;
pub mod laws;
pub mod order;
pub mod release;
pub mod version;

mod semver_calls;

pub use crate::bump::{
    bump_major_minor_patch, extract_pre_label, extract_pre_number, is_pre_release,
    rhs_is_breaking_bump_for_lhs, BumpSpec,
};
pub use crate::context::{
    history_scope, select_publishee_bump_spec, Context, Index, Package, PublishedCrate,
};
pub use crate::history::{History, Item, Message, Segment, SegmentScope};
pub use crate::order::Order;
pub use crate::release::{
    bump_package, bump_package_with_spec, find_last_stable_version, Bump, BumpError,
};
pub use crate::version::{BuildMetadata, ParseError, Prerelease, Version};
