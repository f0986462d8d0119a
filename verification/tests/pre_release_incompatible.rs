use smart_release_version::{Bump, Version};

fn bump(from: &str, to: &str) -> Bump {
    Bump {
        package_version: Version::parse(from).unwrap(),
        next_release: Version::parse(to).unwrap(),
        latest_release: None,
        desired_release: Version::parse(to).unwrap(),
    }
}

#[test]
fn stable_to_pre_release_different_patch() {
    assert!(bump("0.1.0", "0.1.1-alpha.0").is_pre_release_incompatible());
}

#[test]
fn stable_to_pre_release_different_minor() {
    assert!(bump("1.0.0", "1.1.0-alpha.0").is_pre_release_incompatible());
}

#[test]
fn stable_to_pre_release_different_major() {
    assert!(bump("1.0.0", "2.0.0-alpha.0").is_pre_release_incompatible());
}

#[test]
fn pre_to_pre_same_base_is_compatible() {
    assert!(!bump("1.0.0-beta.0", "1.0.0-beta.1").is_pre_release_incompatible());
}

#[test]
fn pre_to_pre_same_base_different_label_is_compatible() {
    assert!(!bump("1.0.0-beta.0", "1.0.0-rc.0").is_pre_release_incompatible());
}

#[test]
fn pre_to_pre_different_base_is_incompatible() {
    assert!(bump("0.1.1-alpha.0", "0.1.2-alpha.0").is_pre_release_incompatible());
}

#[test]
fn pre_to_stable_graduation_is_compatible() {
    assert!(!bump("1.0.0-beta.0", "1.0.0").is_pre_release_incompatible());
}

#[test]
fn stable_to_stable_is_compatible() {
    assert!(!bump("1.0.0", "1.0.1").is_pre_release_incompatible());
    assert!(!bump("1.0.0", "1.1.0").is_pre_release_incompatible());
    assert!(!bump("0.1.0", "0.1.1").is_pre_release_incompatible());
}
