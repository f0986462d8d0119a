use smart_release_version::decimal::{chars_of, parse_u64, u64_text};
use smart_release_version::{Order, ParseError, Prerelease, Version};

#[test]
fn parts_of_a_version() {
    let v = Version::parse("1.20.300-beta.4+linux.007").unwrap();
    assert_eq!((v.major, v.minor, v.patch), (1, 20, 300));
    assert_eq!(v.pre.as_str(), "beta.4");
    assert_eq!(v.build.as_str(), "linux.007");
    assert!(!v.pre.is_empty());
    let v = Version::parse("0.0.0").unwrap();
    assert!(v.pre.is_empty());
    assert!(v.build.is_empty());
}

#[test]
fn texts_are_read_back() {
    for text in [
        "0.0.0",
        "1.2.3",
        "18446744073709551615.0.10",
        "1.0.0-beta",
        "1.0.0-beta.0",
        "1.0.0--.-1",
        "1.0.0-0a.10",
        "1.0.0+00.a-b",
        "1.0.0-x+y",
        "1.0.0+a-b",
    ] {
        assert_eq!(Version::parse(text).unwrap().to_string(), text);
        assert_eq!(semver::Version::parse(text).unwrap().to_string(), text);
    }
}

#[test]
fn malformed_versions() {
    for text in [
        "",
        "1",
        "1.0",
        "1.0.0.0",
        "01.0.0",
        "1.00.0",
        "1.0.x",
        "1.0.0-",
        "1.0.0+",
        "1.0.0-a..b",
        "1.0.0-.a",
        "1.0.0-01",
        "1.0.0-a_b",
        "1.0.0-a+b+c",
        " 1.0.0",
        "1.0.0 ",
        "+1.0.0",
        "v1.0.0",
        "18446744073709551616.0.0",
    ] {
        assert_eq!(Version::parse(text).unwrap_err(), ParseError::Malformed);
    }
}

#[test]
fn pre_release_texts() {
    for text in ["", "beta", "beta.0", "0", "a.b.c", "x-y.10", "0a", "-"] {
        assert_eq!(Prerelease::new(text).unwrap().as_str(), text);
    }
    for text in ["01", "beta.", ".beta", "a..b", "a_b", "a+b", "beta.00", " ", "\u{e9}"] {
        assert_eq!(Prerelease::new(text).unwrap_err(), ParseError::Malformed);
    }
    assert_eq!(Prerelease::numbered("beta", 12).as_str(), "beta.12");
    assert!(Prerelease::empty().is_empty());
}

#[test]
fn order_of_versions() {
    let ascending = [
        "0.9.9",
        "1.0.0-0",
        "1.0.0-8",
        "1.0.0-12",
        "1.0.0-alpha",
        "1.0.0-alpha.1",
        "1.0.0-alpha.beta",
        "1.0.0-beta",
        "1.0.0-beta.2",
        "1.0.0-beta.11",
        "1.0.0-beta.18446744073709551616",
        "1.0.0-beta.x",
        "1.0.0-beta.x.0",
        "1.0.0-pre12",
        "1.0.0-pre8",
        "1.0.0-rc.1",
        "1.0.0",
        "1.0.0+0",
        "1.0.0+00",
        "1.0.0+1",
        "1.0.0+01",
        "1.0.0+2",
        "1.0.0+10",
        "1.0.0+10.0",
        "1.0.0+a",
        "1.0.1-a",
        "1.5.0",
        "1.19.0",
        "2.0.0",
    ];
    for (i, a) in ascending.iter().enumerate() {
        for (k, b) in ascending.iter().enumerate() {
            let expected = if i < k {
                Order::Less
            } else if i == k {
                Order::Equal
            } else {
                Order::Greater
            };
            let a = Version::parse(a).unwrap();
            let b = Version::parse(b).unwrap();
            assert_eq!(a.compare(&b), expected);
            assert_eq!(a == b, i == k);
        }
    }
}

#[test]
fn numerals() {
    for n in [0, 1, 9, 10, 11, 99, 100, 12345, u64::MAX - 1, u64::MAX] {
        assert_eq!(u64_text(n), n.to_string());
        assert_eq!(parse_u64(&chars_of(&n.to_string()), 0), Some(n));
    }
}

#[test]
fn numbers_are_read_as_std_reads_them() {
    for text in [
        "",
        "+",
        "-",
        "-0",
        "+0",
        "+7",
        "++7",
        "007",
        "00000000000000000000000000000000005",
        "7x",
        "x7",
        " 7",
        "7 ",
        "1_000",
        "18446744073709551615",
        "18446744073709551616",
        "99999999999999999999999",
        "\u{661}",
    ] {
        assert_eq!(parse_u64(&chars_of(text), 0), text.parse::<u64>().ok());
    }
    assert_eq!(parse_u64(&chars_of("beta.42"), 5), Some(42));
}
