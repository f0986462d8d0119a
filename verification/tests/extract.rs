use smart_release_version::{extract_pre_label, extract_pre_number, Version};

#[test]
fn extracts_beta_from_beta_2() {
    let v = Version::parse("1.0.0-beta.2").unwrap();
    assert_eq!(extract_pre_label(&v), "beta");
}

#[test]
fn extracts_rc_from_rc_1() {
    let v = Version::parse("1.0.0-rc.1").unwrap();
    assert_eq!(extract_pre_label(&v), "rc");
}

#[test]
fn returns_whole_pre_without_numeric() {
    let v = Version::parse("1.0.0-beta").unwrap();
    assert_eq!(extract_pre_label(&v), "beta");
}

#[test]
fn handles_dotted_label() {
    let v = Version::parse("1.0.0-pre.beta.3").unwrap();
    assert_eq!(extract_pre_label(&v), "pre.beta");
}

#[test]
fn extracts_number() {
    let v = Version::parse("1.0.0-beta.2").unwrap();
    assert_eq!(extract_pre_number(&v), 2);
}

#[test]
fn returns_zero_without_numeric() {
    let v = Version::parse("1.0.0-beta").unwrap();
    assert_eq!(extract_pre_number(&v), 0);
}

#[test]
fn extracts_from_dotted_label() {
    let v = Version::parse("1.0.0-pre.beta.5").unwrap();
    assert_eq!(extract_pre_number(&v), 5);
}
