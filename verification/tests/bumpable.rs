use smart_release_version::bumpable::{
    can_be_label, can_bump, can_bump_auto_pre_release, can_bump_auto_release,
    can_bump_package_with_spec, can_bump_pre_release,
};
use smart_release_version::{
    BumpSpec, Context, History, Index, Item, Message, Package, PublishedCrate, Segment,
    SegmentScope, Version,
};

fn version(text: &str) -> Version {
    Version::parse(text).unwrap()
}

fn fix() -> Vec<Item> {
    vec![Item {
        message: Message {
            kind: Some("fix".to_string()),
            breaking: false,
        },
    }]
}

#[test]
fn labels() {
    for text in ["beta", "rc", "a.b", "7"] {
        assert!(can_be_label(text));
    }
    for text in ["", "be ta", "beta.", "01"] {
        assert!(!can_be_label(text));
    }
}

#[test]
fn largest_numbers() {
    let v = version("18446744073709551615.0.0");
    assert!(!can_bump(&v, BumpSpec::Major, ""));
    assert!(can_bump(&v, BumpSpec::Minor, ""));
    let v = version("18446744073709551615.0.0-beta.1");
    assert!(can_bump(&v, BumpSpec::Major, ""));
    assert!(!can_bump(&v, BumpSpec::Major, "beta"));
    let v = version("1.0.18446744073709551615");
    assert!(!can_bump(&v, BumpSpec::Patch, ""));
}

#[test]
fn counters() {
    assert!(can_bump_pre_release(&version("1.0.0-beta.1"), ""));
    assert!(can_bump_pre_release(&version("1.0.0-beta"), "beta"));
    assert!(!can_bump_pre_release(&version("1.0.0-beta.x"), ""));
    assert!(!can_bump_pre_release(&version("1.0.0-beta.x"), "beta.x"));
    assert!(can_bump_pre_release(&version("1.0.0-beta.x"), "beta"));
    assert!(!can_bump_pre_release(&version("1.0.0-beta.18446744073709551615"), ""));
    assert!(can_bump_pre_release(&version("1.0.0-beta.18446744073709551615"), "rc"));
    assert!(!can_bump_pre_release(&version("1.0.0-beta.1"), "r c"));
}

#[test]
fn automatic_choices() {
    let largest = version("1.0.18446744073709551615");
    assert!(!can_bump_auto_release(&largest, &fix()));
    assert!(can_bump_auto_release(&largest, &Vec::new()));
    assert!(can_bump_auto_release(&version("1.0.18446744073709551615-a"), &fix()));
    let v = version("1.0.1-beta.x");
    assert!(!can_bump_auto_pre_release(&v, &version("1.0.0"), &fix(), "beta.x"));
    assert!(can_bump_auto_pre_release(&v, &version("1.0.0"), &fix(), "beta"));
    assert!(can_bump_auto_pre_release(&v, &version("1.0.1"), &fix(), "beta.x"));
    assert!(!can_bump_auto_pre_release(&v, &largest, &fix(), "beta"));
    assert!(!can_bump_auto_pre_release(&v, &version("1.0.0"), &fix(), ""));
    assert!(can_bump_auto_pre_release(&v, &version("1.0.0"), &Vec::new(), ""));
}

fn context(scope: SegmentScope, n_segments: usize, highest: &str) -> Context {
    let mut segments = Vec::new();
    for _ in 0..n_segments {
        segments.push(Segment { history: fix() });
    }
    Context {
        crate_names: Vec::new(),
        bump: BumpSpec::Auto,
        bump_dependencies: BumpSpec::Auto,
        pre_id: String::new(),
        history: Some(History { scope, segments }),
        crates_index: Index {
            crates: vec![PublishedCrate {
                name: "some-crate".to_string(),
                versions: vec![highest.to_string()],
                highest_version: highest.to_string(),
            }],
        },
    }
}

#[test]
fn packages() {
    let package = Package {
        name: "some-crate".to_string(),
        version: version("1.0.0"),
    };
    let fits = |spec: BumpSpec, ctx: &Context| can_bump_package_with_spec(&package, spec, ctx);
    let unreleased = SegmentScope::Unreleased;
    let since_stable = SegmentScope::UnreleasedSinceStable;
    assert!(fits(BumpSpec::Auto, &context(unreleased, 1, "1.0.0")));
    assert!(!fits(BumpSpec::Auto, &context(unreleased, 0, "1.0.0")));
    assert!(!fits(BumpSpec::Auto, &context(unreleased, 2, "1.0.0")));
    assert!(!fits(BumpSpec::Auto, &context(since_stable, 1, "1.0.0")));
    assert!(!fits(BumpSpec::Keep, &context(unreleased, 1, "one")));
    assert!(fits(BumpSpec::PreRelease, &context(unreleased, 1, "one")));
    let mut ctx = context(since_stable, 2, "1.0.0");
    ctx.pre_id = "beta".to_string();
    assert!(fits(BumpSpec::Auto, &ctx));
    assert!(fits(BumpSpec::Minor, &ctx));
    ctx.pre_id = "be ta".to_string();
    assert!(!fits(BumpSpec::Auto, &ctx));
    assert!(!fits(BumpSpec::Minor, &ctx));
    ctx.history = None;
    assert!(fits(BumpSpec::Auto, &ctx));
}
