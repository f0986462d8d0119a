use smart_release_version::{
    bump_package, bump_package_with_spec, select_publishee_bump_spec, Bump, BumpError, BumpSpec,
    Context, Index, Package, PublishedCrate, Version,
};

fn package(version: &str) -> Package {
    Package {
        name: "some-crate".to_string(),
        version: Version::parse(version).unwrap(),
    }
}

fn context(pre_id: &str, highest: Option<&str>) -> Context {
    let crates = match highest {
        Some(text) => vec![PublishedCrate {
            name: "some-crate".to_string(),
            versions: vec![text.to_string()],
            highest_version: text.to_string(),
        }],
        None => Vec::new(),
    };
    Context {
        crate_names: vec!["first".to_string(), "some-crate".to_string()],
        bump: BumpSpec::Minor,
        bump_dependencies: BumpSpec::Patch,
        pre_id: pre_id.to_string(),
        history: None,
        crates_index: Index { crates },
    }
}

fn desired(version: &str, spec: BumpSpec, pre_id: &str) -> String {
    bump_package_with_spec(&package(version), spec, &context(pre_id, None), false)
        .unwrap()
        .desired_release
        .to_string()
}

#[test]
fn labelled_bumps() {
    assert_eq!(desired("1.2.3", BumpSpec::Major, "beta"), "2.0.0-beta.0");
    assert_eq!(desired("2.0.0-beta.2", BumpSpec::Major, "beta"), "3.0.0-beta.0");
    assert_eq!(desired("1.2.3", BumpSpec::Minor, "beta"), "1.3.0-beta.0");
    assert_eq!(desired("2.0.0-beta.2", BumpSpec::Minor, "beta"), "2.1.0-beta.0");
    assert_eq!(desired("1.2.3", BumpSpec::Patch, "beta"), "1.2.4-beta.0");
    assert_eq!(desired("2.0.0-beta.2", BumpSpec::Patch, "beta"), "2.0.1-beta.0");
}

#[test]
fn plain_bumps() {
    assert_eq!(desired("1.2.3", BumpSpec::Major, ""), "2.0.0");
    assert_eq!(desired("2.0.0-beta.2", BumpSpec::Major, ""), "2.0.0");
    assert_eq!(desired("1.2.3", BumpSpec::Keep, ""), "1.2.3");
    assert_eq!(desired("1.2.3-beta.1", BumpSpec::Keep, "rc"), "1.2.3-beta.1");
}

#[test]
fn pre_release_bumps() {
    assert_eq!(desired("2.0.0-beta.2", BumpSpec::PreRelease, ""), "2.0.0-beta.3");
    assert_eq!(desired("2.0.0-beta.2", BumpSpec::PreRelease, "beta"), "2.0.0-beta.3");
    assert_eq!(desired("2.0.0-beta.2", BumpSpec::PreRelease, "rc"), "2.0.0-rc.0");
    assert_eq!(desired("2.0.0-beta.9", BumpSpec::PreRelease, ""), "2.0.0-beta.10");
    assert_eq!(desired("2.0.0-beta", BumpSpec::PreRelease, ""), "2.0.0-beta.1");
    assert_eq!(desired("2.0.0-pre.beta.3", BumpSpec::PreRelease, ""), "2.0.0-pre.beta.4");
    assert_eq!(desired("2.0.0-7", BumpSpec::PreRelease, ""), "2.0.0-7.1");
    assert_eq!(desired("2.0.0-beta.x", BumpSpec::PreRelease, "rc"), "2.0.0-rc.0");
    assert_eq!(desired("2.0.0-beta.2+linux", BumpSpec::PreRelease, ""), "2.0.0-beta.3+linux");
}

#[test]
fn pre_release_of_a_stable_version_is_an_error() {
    for pre_id in ["", "rc"] {
        let error = bump_package_with_spec(
            &package("1.2.3+linux"),
            BumpSpec::PreRelease,
            &context(pre_id, Some("1.0.0")),
            true,
        )
        .unwrap_err();
        assert_eq!(
            error,
            BumpError::NotAPreRelease {
                version: Version::parse("1.2.3+linux").unwrap()
            }
        );
        assert_eq!(
            error.to_string(),
            "Cannot use 'prerelease' on stable version 1.2.3+linux. \
             Use '--bump major/minor/patch --pre-id <label>' to start a pre-release series."
        );
    }
}

fn next(version: &str, spec: BumpSpec, highest: Option<&str>, bump_when_needed: bool) -> Bump {
    bump_package_with_spec(&package(version), spec, &context("", highest), bump_when_needed).unwrap()
}

#[test]
fn the_four_versions_of_a_bump() {
    let bump = next("1.1.0", BumpSpec::Patch, Some("1.0.0"), true);
    assert_eq!(bump.package_version, Version::parse("1.1.0").unwrap());
    assert_eq!(bump.latest_release, Some(Version::parse("1.0.0").unwrap()));
    assert_eq!(bump.desired_release, Version::parse("1.1.1").unwrap());
    assert_eq!(bump.next_release, Version::parse("1.1.0").unwrap());
    assert!(!bump.next_release_changes_manifest());
    assert!(!bump.is_breaking());
}

#[test]
fn bump_in_any_case() {
    let bump = next("1.1.0", BumpSpec::Patch, Some("1.0.0"), false);
    assert_eq!(bump.next_release.to_string(), "1.1.1");
    assert!(bump.next_release_changes_manifest());
    let bump = next("1.1.0", BumpSpec::Minor, None, false);
    assert_eq!(bump.next_release.to_string(), "1.2.0");
    assert!(bump.is_breaking());
    assert_eq!(bump.latest_release, None);
}

#[test]
fn unpublished_crates_keep_their_version_if_possible() {
    assert_eq!(next("1.1.0", BumpSpec::Major, None, true).next_release.to_string(), "1.1.0");
}

#[test]
fn published_versions_are_bumped() {
    assert_eq!(next("1.0.0", BumpSpec::Patch, Some("1.0.0"), true).next_release.to_string(), "1.0.1");
    assert_eq!(next("1.0.0", BumpSpec::Patch, Some("1.5.0"), true).next_release.to_string(), "1.0.1");
    assert_eq!(next("1.0.0", BumpSpec::Patch, Some("1.0.1"), true).next_release.to_string(), "1.0.1");
}

#[test]
fn breaking_bumps_need_a_breaking_version() {
    assert_eq!(next("1.0.1", BumpSpec::Major, Some("1.0.0"), true).next_release.to_string(), "2.0.0");
    assert_eq!(next("1.1.0", BumpSpec::Major, Some("1.0.0"), true).next_release.to_string(), "1.1.0");
    assert_eq!(next("0.1.1", BumpSpec::Minor, Some("0.1.0"), true).next_release.to_string(), "0.2.0");
    assert_eq!(next("0.2.0", BumpSpec::Minor, Some("0.1.0"), true).next_release.to_string(), "0.2.0");
}

#[test]
fn counters_are_compared_as_numbers() {
    let bump = next("1.1.0-beta.9", BumpSpec::PreRelease, Some("1.1.0-beta.9"), true);
    assert_eq!(bump.next_release.to_string(), "1.1.0-beta.10");
    assert!(bump.next_release_changes_manifest());
    assert!(!bump.is_breaking());
    assert!(!bump.is_pre_release_incompatible());
}

#[test]
fn kept_versions_do_not_change_the_manifest() {
    for bump_when_needed in [false, true] {
        for highest in [None, Some("0.9.0"), Some("1.1.0"), Some("3.0.0")] {
            let bump = next("1.1.0", BumpSpec::Keep, highest, bump_when_needed);
            assert_eq!(bump.next_release.to_string(), "1.1.0");
            assert!(!bump.next_release_changes_manifest());
        }
    }
}

#[test]
fn requested_crates_have_their_own_spec() {
    let mut ctx = context("", None);
    assert_eq!(select_publishee_bump_spec(&"some-crate".to_string(), &ctx), BumpSpec::Minor);
    assert_eq!(select_publishee_bump_spec(&"some".to_string(), &ctx), BumpSpec::Patch);
    let bump = bump_package(&package("1.2.3"), &ctx, false).unwrap();
    assert_eq!(bump.next_release.to_string(), "1.3.0");
    ctx.crate_names = Vec::new();
    let bump = bump_package(&package("1.2.3"), &ctx, false).unwrap();
    assert_eq!(bump.next_release.to_string(), "1.2.4");
}

#[test]
fn names_on_the_command_line() {
    assert_eq!(BumpSpec::Auto.to_string(), "auto");
    assert_eq!(BumpSpec::Keep.to_string(), "no");
    assert_eq!(BumpSpec::Patch.to_string(), "patch");
    assert_eq!(BumpSpec::Minor.to_string(), "minor");
    assert_eq!(BumpSpec::Major.to_string(), "major");
    assert_eq!(BumpSpec::PreRelease.to_string(), "prerelease");
}
