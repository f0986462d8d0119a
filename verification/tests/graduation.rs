use smart_release_version::{bump_major_minor_patch, BumpSpec, Version};

#[test]
fn patch_on_pre_release_strips_pre() {
    let mut v = Version::parse("1.0.0-beta.1").unwrap();
    bump_major_minor_patch(&mut v, BumpSpec::Patch, "");
    assert_eq!(v, Version::parse("1.0.0").unwrap());
}

#[test]
fn patch_on_pre_release_with_patch() {
    let mut v = Version::parse("1.0.1-beta.1").unwrap();
    bump_major_minor_patch(&mut v, BumpSpec::Patch, "");
    assert_eq!(v, Version::parse("1.0.1").unwrap());
}

#[test]
fn minor_on_pre_release_strips_pre() {
    let mut v = Version::parse("1.1.0-beta.1").unwrap();
    bump_major_minor_patch(&mut v, BumpSpec::Minor, "");
    assert_eq!(v, Version::parse("1.1.0").unwrap());
}

#[test]
fn minor_on_pre_release_with_patch_bumps_minor() {
    let mut v = Version::parse("1.0.1-beta.1").unwrap();
    bump_major_minor_patch(&mut v, BumpSpec::Minor, "");
    assert_eq!(v, Version::parse("1.1.0").unwrap());
}

#[test]
fn major_on_pre_release_strips_pre() {
    let mut v = Version::parse("2.0.0-beta.1").unwrap();
    bump_major_minor_patch(&mut v, BumpSpec::Major, "");
    assert_eq!(v, Version::parse("2.0.0").unwrap());
}

#[test]
fn major_on_pre_release_with_minor_bumps_major() {
    let mut v = Version::parse("1.1.0-beta.1").unwrap();
    bump_major_minor_patch(&mut v, BumpSpec::Major, "");
    assert_eq!(v, Version::parse("2.0.0").unwrap());
}

#[test]
fn patch_on_stable_increments_patch() {
    let mut v = Version::parse("1.0.0").unwrap();
    bump_major_minor_patch(&mut v, BumpSpec::Patch, "");
    assert_eq!(v, Version::parse("1.0.1").unwrap());
}
