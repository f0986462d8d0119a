use smart_release_version::{
    bump_package_with_spec, find_last_stable_version, history_scope, Bump, BumpError, BumpSpec,
    Context, History, Index, Item, Message, Package, PublishedCrate, Segment, SegmentScope, Version,
};

fn item(kind: Option<&str>, breaking: bool) -> Item {
    Item {
        message: Message {
            kind: kind.map(|kind| kind.to_string()),
            breaking,
        },
    }
}

fn fix() -> Vec<Item> {
    vec![item(None, false), item(Some("fix"), false)]
}

fn feature() -> Vec<Item> {
    vec![item(Some("fix"), false), item(Some("feat"), false), item(None, false)]
}

fn breaking() -> Vec<Item> {
    vec![item(Some("feat"), false), item(Some("refactor"), true)]
}

fn package(version: &str) -> Package {
    Package {
        name: "some-crate".to_string(),
        version: Version::parse(version).unwrap(),
    }
}

fn index(versions: &[&str], highest: &str) -> Index {
    let other = PublishedCrate {
        name: "other-crate".to_string(),
        versions: vec!["7.0.0".to_string()],
        highest_version: "7.0.0".to_string(),
    };
    let published = PublishedCrate {
        name: "some-crate".to_string(),
        versions: versions.iter().map(|text| text.to_string()).collect(),
        highest_version: highest.to_string(),
    };
    Index {
        crates: vec![other, published],
    }
}

fn unpublished() -> Index {
    Index { crates: Vec::new() }
}

fn context(pre_id: &str, items: Vec<Item>, crates_index: Index) -> Context {
    let scope = if pre_id.is_empty() {
        SegmentScope::Unreleased
    } else {
        SegmentScope::UnreleasedSinceStable
    };
    Context {
        crate_names: Vec::new(),
        bump: BumpSpec::Auto,
        bump_dependencies: BumpSpec::Auto,
        pre_id: pre_id.to_string(),
        history: Some(History {
            scope,
            segments: vec![Segment { history: items }],
        }),
        crates_index,
    }
}

fn auto(version: &str, ctx: &Context) -> Bump {
    bump_package_with_spec(&package(version), BumpSpec::Auto, ctx, false).unwrap()
}

fn auto_stable(version: &str, items: Vec<Item>) -> String {
    auto(version, &context("", items, unpublished())).next_release.to_string()
}

fn auto_beta(version: &str, items: Vec<Item>, versions: &[&str]) -> String {
    let highest = versions[versions.len() - 1];
    auto(version, &context("beta", items, index(versions, highest)))
        .next_release
        .to_string()
}

#[test]
fn auto_levels_from_one_on() {
    assert_eq!(auto_stable("1.2.3", fix()), "1.2.4");
    assert_eq!(auto_stable("1.2.3", feature()), "1.3.0");
    assert_eq!(auto_stable("1.2.3", breaking()), "2.0.0");
}

#[test]
fn auto_levels_below_one() {
    assert_eq!(auto_stable("0.2.3", fix()), "0.2.4");
    assert_eq!(auto_stable("0.2.3", feature()), "0.2.4");
    assert_eq!(auto_stable("0.2.3", breaking()), "0.3.0");
}

#[test]
fn auto_without_commits_changes_nothing() {
    assert_eq!(auto_stable("1.2.3", Vec::new()), "1.2.3");
    assert_eq!(auto_beta("1.2.3", Vec::new(), &["1.2.3"]), "1.2.3");
    assert_eq!(auto_beta("1.2.4-beta.1", Vec::new(), &["1.2.3"]), "1.2.4-beta.1");
}

#[test]
fn auto_graduates_a_pre_release() {
    assert_eq!(auto_stable("2.0.0-beta.2", fix()), "2.0.0");
    assert_eq!(auto_stable("2.0.0-beta.2", breaking()), "2.0.0");
}

#[test]
fn auto_graduates_a_pre_release_without_commits() {
    assert_eq!(auto_stable("1.2.3-beta.1", Vec::new()), "1.2.3");
    assert_eq!(auto_stable("1.2.3-beta.1+linux", Vec::new()), "1.2.3+linux");
    let bump = auto("1.2.3-beta.1", &context("", Vec::new(), index(&["1.2.3-beta.1"], "1.2.3-beta.1")));
    assert_eq!(bump.desired_release.to_string(), "1.2.3");
    assert_eq!(bump.next_release.to_string(), "1.2.3");
    assert!(bump.next_release_changes_manifest());
}

#[test]
fn auto_keeps_build_metadata() {
    assert_eq!(auto_stable("1.2.3-beta.1+linux", fix()), "1.2.3+linux");
    assert_eq!(auto_beta("1.2.3+linux", fix(), &["1.2.3+mac"]), "1.2.4-beta.0+linux");
}

#[test]
fn auto_with_pre_id_starts_a_series() {
    assert_eq!(auto_beta("1.2.3", fix(), &["1.2.3"]), "1.2.4-beta.0");
    assert_eq!(auto_beta("1.2.3", feature(), &["1.2.3"]), "1.3.0-beta.0");
    assert_eq!(auto_beta("1.2.3", breaking(), &["1.2.3"]), "2.0.0-beta.0");
    assert_eq!(auto_beta("0.2.3", breaking(), &["0.2.3"]), "0.3.0-beta.0");
    assert_eq!(auto_beta("0.2.3", feature(), &["0.2.3"]), "0.2.4-beta.0");
}

#[test]
fn auto_with_pre_id_counts_on() {
    assert_eq!(auto_beta("1.3.0-beta.4", feature(), &["1.2.3", "1.3.0-beta.4"]), "1.3.0-beta.5");
    assert_eq!(auto_beta("1.3.0-beta", feature(), &["1.2.3"]), "1.3.0-beta.1");
}

#[test]
fn auto_with_pre_id_escalates_and_restarts() {
    assert_eq!(auto_beta("1.3.0-beta.4", breaking(), &["1.2.3", "1.3.0-beta.4"]), "2.0.0-beta.0");
}

#[test]
fn auto_with_pre_id_takes_the_base_of_the_commits() {
    assert_eq!(auto_beta("2.0.0-beta.4", fix(), &["1.2.3"]), "1.2.4-beta.0");
}

#[test]
fn auto_with_new_pre_id_restarts() {
    assert_eq!(auto_beta("1.3.0-alpha.4", feature(), &["1.2.3"]), "1.3.0-beta.0");
}

#[test]
fn auto_with_pre_id_on_a_stable_target() {
    assert_eq!(auto_beta("1.2.4", fix(), &["1.2.3"]), "1.2.4-beta.0");
}

#[test]
fn weekly_pre_releases_and_a_release() {
    let first = auto_beta("1.2.3", fix(), &["1.2.3"]);
    assert_eq!(first, "1.2.4-beta.0");
    let second = auto_beta(&first, fix(), &["1.2.3", "1.2.4-beta.0"]);
    assert_eq!(second, "1.2.4-beta.1");
    let third = auto_beta(&second, feature(), &["1.2.3", "1.2.4-beta.0", "1.2.4-beta.1"]);
    assert_eq!(third, "1.3.0-beta.0");
    assert_eq!(auto_stable(&third, fix()), "1.3.0");
    assert_eq!(auto_stable(&third, Vec::new()), "1.3.0");
}

#[test]
fn auto_without_history_is_an_error() {
    let mut ctx = context("", fix(), unpublished());
    ctx.history = None;
    let error = bump_package_with_spec(&package("1.0.0"), BumpSpec::Auto, &ctx, false).unwrap_err();
    assert_eq!(error, BumpError::NoHistory);
    assert_eq!(
        error.to_string(),
        "Did not have access to the Git history - please assure to not be on a detached HEAD"
    );
}

#[test]
fn only_auto_reads_commits() {
    let plain = context("", fix(), unpublished());
    let labelled = context("beta", fix(), unpublished());
    assert_eq!(history_scope(BumpSpec::Auto, &plain), Some(SegmentScope::Unreleased));
    assert_eq!(
        history_scope(BumpSpec::Auto, &labelled),
        Some(SegmentScope::UnreleasedSinceStable)
    );
    for spec in [
        BumpSpec::Keep,
        BumpSpec::Patch,
        BumpSpec::Minor,
        BumpSpec::Major,
        BumpSpec::PreRelease,
    ] {
        assert_eq!(history_scope(spec, &labelled), None);
    }
}

fn last_stable(version: &str, crates_index: Index) -> String {
    let ctx = context("beta", Vec::new(), crates_index);
    find_last_stable_version(&package(version), &ctx).to_string()
}

#[test]
fn last_stable_is_the_greatest_published_one() {
    let versions = ["1.9.0", "1.10.0", "not a version", "1.2.0", "2.0.0-rc.1"];
    assert_eq!(last_stable("3.0.0", index(&versions, "2.0.0-rc.1")), "1.10.0");
    let builds = ["1.0.0+b", "1.0.0+a"];
    assert_eq!(last_stable("3.0.0", index(&builds, "1.0.0+b")), "1.0.0+b");
}

#[test]
fn last_stable_falls_back_to_the_own_version() {
    assert_eq!(last_stable("1.2.3", unpublished()), "1.2.3");
    assert_eq!(last_stable("1.2.3-beta.4+linux", unpublished()), "1.2.3+linux");
    assert_eq!(last_stable("0.0.0-alpha.1", unpublished()), "0.0.0");
    let versions = ["1.0.0-beta.1"];
    assert_eq!(last_stable("1.0.0-beta.2", index(&versions, "1.0.0-beta.1")), "1.0.0");
}
