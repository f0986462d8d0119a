use smart_release_version::{bump_major_minor_patch, BumpSpec, Version};

#[test]
fn major_from_stable() {
    let mut v = Version::parse("1.2.3").unwrap();
    bump_major_minor_patch(&mut v, BumpSpec::Major, "beta");
    assert_eq!(v, Version::parse("2.0.0-beta.0").unwrap());
}

#[test]
fn minor_from_stable() {
    let mut v = Version::parse("1.2.3").unwrap();
    bump_major_minor_patch(&mut v, BumpSpec::Minor, "beta");
    assert_eq!(v, Version::parse("1.3.0-beta.0").unwrap());
}

#[test]
fn patch_from_stable() {
    let mut v = Version::parse("1.2.3").unwrap();
    bump_major_minor_patch(&mut v, BumpSpec::Patch, "beta");
    assert_eq!(v, Version::parse("1.2.4-beta.0").unwrap());
}

#[test]
fn major_from_pre_release() {
    let mut v = Version::parse("2.0.0-beta.3").unwrap();
    bump_major_minor_patch(&mut v, BumpSpec::Major, "beta");
    assert_eq!(v, Version::parse("3.0.0-beta.0").unwrap());
}

#[test]
fn minor_from_pre_release() {
    let mut v = Version::parse("1.3.0-beta.2").unwrap();
    bump_major_minor_patch(&mut v, BumpSpec::Minor, "beta");
    assert_eq!(v, Version::parse("1.4.0-beta.0").unwrap());
}

#[test]
fn patch_from_pre_release() {
    let mut v = Version::parse("1.2.4-beta.1").unwrap();
    bump_major_minor_patch(&mut v, BumpSpec::Patch, "rc");
    assert_eq!(v, Version::parse("1.2.5-rc.0").unwrap());
}
