use compact::catalogue::{AssetRef, MidnightArtifacts, MidnightCompiler, NotFoundError};
use compact::version::{Version, VersionSpec};

fn release(major: u64, minor: u64, patch: u64) -> MidnightCompiler {
    let v = Version::new(major, minor, patch);
    MidnightCompiler {
        version: v,
        macos: AssetRef::new(
            format!("compactc-{}-aarch64-apple-darwin.zip", v.to_string()),
            format!("https://example.invalid/{}/macos.zip", v.to_string()),
        ),
        linux: AssetRef::new(
            format!("compactc-{}-x86_64-unknown-linux-musl.zip", v.to_string()),
            format!("https://example.invalid/{}/linux.zip", v.to_string()),
        ),
    }
}

fn catalogue(versions: &[(u64, u64, u64)]) -> MidnightArtifacts {
    let mut cat = MidnightArtifacts::new();
    for &(a, b, c) in versions {
        cat.insert(release(a, b, c));
    }
    cat
}

#[test]
fn exact_text_round_trips() {
    for text in ["0.29.1", "0.0.0", "1.20.300", "18446744073709551615.0.7"] {
        match VersionSpec::parse(text) {
            Ok(VersionSpec::Exact(v)) => assert_eq!(v.to_string(), text),
            other => panic!("{text}: {other:?}"),
        }
    }
}

#[test]
fn exact_parse_gives_components() {
    assert_eq!(
        VersionSpec::parse("3.14.159"),
        Ok(VersionSpec::Exact(Version::new(3, 14, 159)))
    );
    assert_eq!(Version::parse("7.8.9").unwrap(), Version::new(7, 8, 9));
}

#[test]
fn partial_parse() {
    assert_eq!(VersionSpec::parse("0.29"), Ok(VersionSpec::Partial(0, 29)));
    assert_eq!(VersionSpec::parse("12.0"), Ok(VersionSpec::Partial(12, 0)));
}

#[test]
fn parse_errors_name_the_text() {
    for text in ["", "abc", "1", "1.2.3.4", "1..2", "1.2.", ".1", "1.2.3-alpha", "01.2.3", "1.x", "1.2.3+b"] {
        let e = VersionSpec::parse(text).unwrap_err();
        assert_eq!(e.text, text);
    }
    assert!(VersionSpec::parse("99999999999999999999.1").is_err());
}

#[test]
fn partial_matches_ignores_patch() {
    let spec = VersionSpec::Partial(0, 29);
    assert!(spec.matches(&Version::new(0, 29, 0)));
    assert!(spec.matches(&Version::new(0, 29, u64::MAX)));
    assert!(!spec.matches(&Version::new(0, 28, 0)));
    assert!(!spec.matches(&Version::new(1, 29, 0)));
    assert_eq!(spec.exact_value(), None);
}

#[test]
fn exact_matches_one_version() {
    let spec = VersionSpec::Exact(Version::new(1, 2, 3));
    assert!(spec.matches(&Version::new(1, 2, 3)));
    assert!(!spec.matches(&Version::new(1, 2, 4)));
    assert_eq!(spec.exact_value(), Some(Version::new(1, 2, 3)));
}

#[test]
fn precedence_is_lexicographic() {
    assert!(Version::new(0, 9, 9).precedes(&Version::new(1, 0, 0)));
    assert!(Version::new(1, 2, 3).precedes(&Version::new(1, 3, 0)));
    assert!(Version::new(1, 2, 3).precedes(&Version::new(1, 2, 4)));
    assert!(!Version::new(1, 2, 3).precedes(&Version::new(1, 2, 3)));
    assert!(Version::new(1, 2, 3).is_named("1.2.3"));
    assert!(!Version::new(1, 2, 3).is_named("1.2.03"));
}

#[test]
fn select_none_takes_newest() {
    let mut cat = catalogue(&[(0, 29, 1), (0, 28, 0), (1, 0, 0), (0, 29, 0)]);
    let (v, c) = cat.select(None).unwrap();
    assert_eq!(v, Version::new(1, 0, 0));
    assert_eq!(c.version, v);
    assert_eq!(cat.len(), 3);
    assert_eq!(
        cat.versions(),
        vec![Version::new(0, 28, 0), Version::new(0, 29, 0), Version::new(0, 29, 1)]
    );
}

#[test]
fn select_partial_takes_highest_patch() {
    let mut cat = catalogue(&[(2, 3, 0), (2, 3, 5), (2, 3, 2)]);
    let (v, _) = cat.select(Some(VersionSpec::Partial(2, 3))).unwrap();
    assert_eq!(v, Version::new(2, 3, 5));
}

#[test]
fn select_from_empty_fails() {
    for spec in [None, Some(VersionSpec::Partial(0, 1)), Some(VersionSpec::Exact(Version::new(1, 2, 3)))] {
        let mut cat = MidnightArtifacts::new();
        let e = cat.select(spec).unwrap_err();
        assert_eq!(e, NotFoundError { requested: spec });
    }
}

#[test]
fn select_without_match_fails_and_keeps_catalogue() {
    let mut cat = catalogue(&[(0, 28, 0), (0, 29, 1)]);
    let spec = Some(VersionSpec::Partial(0, 30));
    assert!(cat.select(spec).is_err());
    assert_eq!(cat.len(), 2);
}

#[test]
fn insert_replaces_same_version() {
    let mut cat = catalogue(&[(0, 1, 0), (0, 2, 0)]);
    cat.insert(release(0, 1, 0));
    assert_eq!(cat.versions(), vec![Version::new(0, 1, 0), Version::new(0, 2, 0)]);
}
