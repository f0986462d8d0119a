use smart_release_version::bump::bump_pre_release;
use smart_release_version::{
    bump_major_minor_patch, extract_pre_label, extract_pre_number, is_pre_release,
    rhs_is_breaking_bump_for_lhs, BumpSpec, Order, Version,
};

fn version(text: &str) -> Version {
    Version::parse(text).unwrap()
}

const SPECS: [BumpSpec; 3] = [BumpSpec::Major, BumpSpec::Minor, BumpSpec::Patch];

#[test]
fn breaking_steps() {
    for (text, spec, pre_id, expected) in [
        ("1.2.3", BumpSpec::Major, "", true),
        ("2.0.0-beta.1", BumpSpec::Major, "", true),
        ("1.2.3", BumpSpec::Major, "beta", false),
        ("1.2.3", BumpSpec::Minor, "", false),
        ("0.2.3", BumpSpec::Minor, "", true),
        ("0.2.3", BumpSpec::Minor, "beta", false),
        ("0.2.3", BumpSpec::Patch, "", false),
    ] {
        let mut v = version(text);
        assert_eq!(bump_major_minor_patch(&mut v, spec, pre_id), expected);
    }
}

#[test]
fn steps_lead_to_greater_versions() {
    for text in ["1.2.3", "1.2.3-beta.1", "1.2.0-rc", "2.0.0-beta.0", "0.0.0", "1.0.0+build"] {
        for spec in SPECS {
            for pre_id in ["", "alpha", "rc.x"] {
                let before = version(text);
                let mut after = version(text);
                bump_major_minor_patch(&mut after, spec, pre_id);
                assert_eq!(before.compare(&after), Order::Less);
                assert_eq!(after.compare(&before), Order::Greater);
                assert_eq!(after.build, before.build);
            }
        }
    }
}

#[test]
fn graduation_completes_a_labelled_step() {
    for spec in SPECS {
        let mut by_way_of_beta = version("1.2.3");
        bump_major_minor_patch(&mut by_way_of_beta, spec, "beta");
        assert_eq!(extract_pre_label(&by_way_of_beta), "beta");
        assert_eq!(extract_pre_number(&by_way_of_beta), 0);
        bump_major_minor_patch(&mut by_way_of_beta, spec, "");
        let mut at_once = version("1.2.3");
        bump_major_minor_patch(&mut at_once, spec, "");
        assert_eq!(by_way_of_beta, at_once);
    }
}

#[test]
fn graduation_keeps_build_metadata() {
    let mut v = version("1.0.1-beta.1+linux");
    bump_major_minor_patch(&mut v, BumpSpec::Patch, "");
    assert_eq!(v, version("1.0.1+linux"));
}

#[test]
fn pre_releases_count_up() {
    let mut v = version("1.0.0-beta");
    for n in 1..=12u64 {
        let before = v.clone();
        bump_pre_release(&mut v, "");
        assert_eq!(extract_pre_label(&v), "beta");
        assert_eq!(extract_pre_number(&v), n);
        assert_eq!(before.compare(&v), Order::Less);
        assert!(!rhs_is_breaking_bump_for_lhs(&before, &v));
    }
    bump_pre_release(&mut v, "rc");
    assert_eq!(v, version("1.0.0-rc.0"));
}

#[test]
fn largest_counter() {
    let v = version("1.0.0-beta.18446744073709551615");
    assert_eq!(extract_pre_number(&v), u64::MAX);
    assert_eq!(extract_pre_label(&v), "beta");
    let v = version("1.0.0-beta.18446744073709551616");
    assert_eq!(extract_pre_label(&v), "beta.18446744073709551616");
}

#[test]
fn unstable_versions() {
    assert!(is_pre_release(&version("0.9.0")));
    assert!(is_pre_release(&version("1.0.0-beta.1")));
    assert!(!is_pre_release(&version("1.0.0")));
    assert!(!is_pre_release(&version("1.0.0+build")));
}

#[test]
fn patch_increase_breaks_only_between_pre_releases() {
    assert!(rhs_is_breaking_bump_for_lhs(&version("1.0.0-beta.1"), &version("1.0.1-beta.0")));
    assert!(!rhs_is_breaking_bump_for_lhs(&version("1.0.0"), &version("1.0.1-beta.0")));
    assert!(!rhs_is_breaking_bump_for_lhs(&version("1.0.0-beta.1"), &version("1.0.1")));
    assert!(rhs_is_breaking_bump_for_lhs(&version("1.5.0"), &version("2.0.0")));
    assert!(!rhs_is_breaking_bump_for_lhs(&version("1.0.0-beta.1"), &version("1.0.0-rc.0")));
}
