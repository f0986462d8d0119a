use smart_release_version::{rhs_is_breaking_bump_for_lhs, Version};

#[test]
fn same_pre_release_series_not_breaking() {
    let lhs = Version::parse("1.1.0-beta.1").unwrap();
    let rhs = Version::parse("1.1.0-beta.2").unwrap();
    assert!(!rhs_is_breaking_bump_for_lhs(&lhs, &rhs));
}

#[test]
fn different_base_in_pre_release_is_breaking() {
    let lhs = Version::parse("1.1.0-beta.1").unwrap();
    let rhs = Version::parse("1.2.0-beta.1").unwrap();
    assert!(rhs_is_breaking_bump_for_lhs(&lhs, &rhs));
}

#[test]
fn graduation_same_base_not_breaking() {
    let lhs = Version::parse("1.1.0-beta.1").unwrap();
    let rhs = Version::parse("1.1.0").unwrap();
    assert!(!rhs_is_breaking_bump_for_lhs(&lhs, &rhs));
}

#[test]
fn graduation_higher_minor_is_breaking() {
    let lhs = Version::parse("1.0.0-beta.1").unwrap();
    let rhs = Version::parse("1.1.0").unwrap();
    assert!(rhs_is_breaking_bump_for_lhs(&lhs, &rhs));
}

#[test]
fn stable_minor_bump_is_breaking() {
    let lhs = Version::parse("1.0.0").unwrap();
    let rhs = Version::parse("1.1.0").unwrap();
    assert!(rhs_is_breaking_bump_for_lhs(&lhs, &rhs));
}

#[test]
fn stable_patch_bump_not_breaking() {
    let lhs = Version::parse("1.0.0").unwrap();
    let rhs = Version::parse("1.0.1").unwrap();
    assert!(!rhs_is_breaking_bump_for_lhs(&lhs, &rhs));
}
