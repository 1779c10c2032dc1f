use shtt::semver::{highest_semver_tag, release_version, SemVer, SemVerError, VersionBump};

#[test]
fn test_semver_parsing() {
    assert_eq!(SemVer::from_tag("v1.2.3").unwrap(), SemVer::new(1, 2, 3));
    assert_eq!(SemVer::from_tag("1.2.3").unwrap(), SemVer::new(1, 2, 3));
    assert_eq!(SemVer::from_tag("v0.1.0").unwrap(), SemVer::new(0, 1, 0));

    assert!(SemVer::from_tag("1.2").is_err());
    assert!(SemVer::from_tag("1.2.3.4").is_err());
    assert!(SemVer::from_tag("v1.2.a").is_err());
}

#[test]
fn test_semver_ordering() {
    let v1 = SemVer::new(1, 0, 0);
    let v2 = SemVer::new(1, 1, 0);
    let v3 = SemVer::new(1, 1, 1);
    let v4 = SemVer::new(2, 0, 0);

    assert!(v1 < v2);
    assert!(v2 < v3);
    assert!(v3 < v4);
    assert!(v1 < v4);
}

#[test]
fn test_version_bumps() {
    let mut v = SemVer::new(1, 2, 3);

    v.increment_patch();
    assert_eq!(v, SemVer::new(1, 2, 4));

    v.increment_minor();
    assert_eq!(v, SemVer::new(1, 3, 0));

    v.increment_major();
    assert_eq!(v, SemVer::new(2, 0, 0));
}

#[test]
fn test_version_bump_parsing() {
    assert!(matches!("major".parse::<VersionBump>().unwrap(), VersionBump::Major));
    assert!(matches!("minor".parse::<VersionBump>().unwrap(), VersionBump::Minor));
    assert!(matches!("patch".parse::<VersionBump>().unwrap(), VersionBump::Patch));
    assert!(matches!("MAJOR".parse::<VersionBump>().unwrap(), VersionBump::Major));

    assert!("invalid".parse::<VersionBump>().is_err());
}

#[test]
fn test_tag_formatting() {
    let v = SemVer::new(1, 2, 3);
    assert_eq!(v.to_tag(), "v1.2.3");
}

#[test]
fn semver_parse_errors_name_the_refused_part() {
    assert_eq!(
        SemVer::from_tag("v1.2"),
        Err(SemVerError::InvalidFormat("1.2".to_string()))
    );
    assert_eq!(
        SemVer::from_tag("x.2.3"),
        Err(SemVerError::InvalidMajor("x".to_string()))
    );
    assert_eq!(
        SemVer::from_tag("1..3"),
        Err(SemVerError::InvalidMinor("".to_string()))
    );
    assert_eq!(
        SemVer::from_tag("v1.2.a"),
        Err(SemVerError::InvalidPatch("a".to_string()))
    );
}

#[test]
fn semver_parse_follows_u32_parsing() {
    // A leading `+` and leading zeros are accepted, as `str::parse::<u32>` does.
    assert_eq!(SemVer::from_tag("+1.02.3"), Ok(SemVer::new(1, 2, 3)));
    assert_eq!(
        SemVer::from_tag("4294967295.0.0"),
        Ok(SemVer::new(4294967295, 0, 0))
    );
    assert!(SemVer::from_tag("4294967296.0.0").is_err());
    assert!(SemVer::from_tag("-1.0.0").is_err());
    assert!(SemVer::from_tag("+.0.0").is_err());
    // Only one leading `v` is dropped.
    assert!(SemVer::from_tag("vv1.2.3").is_err());
    assert!(SemVer::from_tag("").is_err());
}

#[test]
fn semver_tag_round_trip() {
    for v in [
        SemVer::new(0, 0, 0),
        SemVer::new(1, 2, 3),
        SemVer::new(10, 200, 3000),
        SemVer::new(4294967295, 4294967295, 4294967295),
    ] {
        assert_eq!(SemVer::from_tag(&v.to_tag()), Ok(v));
    }
    assert_eq!(SemVer::new(0, 10, 7).to_tag(), "v0.10.7");
}

#[test]
fn semver_order_is_total_and_strict() {
    let a = SemVer::new(1, 2, 3);
    let b = SemVer::new(1, 2, 4);
    assert!(!(a < a));
    assert!(a < b && !(b < a));
    assert!(b > a);
    assert!(a <= a && a >= a);
    assert_eq!(a.partial_cmp(&b), Some(std::cmp::Ordering::Less));
    assert_eq!(b.partial_cmp(&a), Some(std::cmp::Ordering::Greater));
    assert_eq!(a.partial_cmp(&a), Some(std::cmp::Ordering::Equal));
    assert!(SemVer::new(0, 9, 9) < SemVer::new(1, 0, 0));
}

#[test]
fn bump_increases_and_resets() {
    for (bump, expected) in [
        (VersionBump::Patch, SemVer::new(1, 2, 4)),
        (VersionBump::Minor, SemVer::new(1, 3, 0)),
        (VersionBump::Major, SemVer::new(2, 0, 0)),
    ] {
        let v = SemVer::new(1, 2, 3);
        assert!(bump.fits(&v));
        let next = release_version(Some(v), bump);
        assert_eq!(next, expected);
        assert!(v < next);
    }
    assert!(!VersionBump::Patch.fits(&SemVer::new(0, 0, 4294967295)));
    assert!(VersionBump::Minor.fits(&SemVer::new(0, 0, 4294967295)));
}

#[test]
fn bump_names_ignore_case_only() {
    assert_eq!(VersionBump::from_name("PaTcH"), Ok(VersionBump::Patch));
    assert_eq!(VersionBump::from_name("Minor"), Ok(VersionBump::Minor));
    let err = VersionBump::from_name("majors").unwrap_err();
    assert_eq!(err.input, "majors");
    assert!(VersionBump::from_name(" major").is_err());
    assert!(VersionBump::from_name("").is_err());
    assert!(VersionBump::from_name("ＭＡＪＯＲ").is_err());
    assert_eq!(VersionBump::from_lowercase_name("major"), Some(VersionBump::Major));
    assert_eq!(VersionBump::from_lowercase_name("minor"), Some(VersionBump::Minor));
    assert_eq!(VersionBump::from_lowercase_name("patch"), Some(VersionBump::Patch));
    assert_eq!(VersionBump::from_lowercase_name("Patch"), None);
}

#[test]
fn first_release_starts_from_zero() {
    // The documented first tags: with no tags a patch release is v0.0.1.
    assert_eq!(release_version(None, VersionBump::Patch).to_tag(), "v0.0.1");
    assert_eq!(release_version(None, VersionBump::Minor).to_tag(), "v0.1.0");
    assert_eq!(release_version(None, VersionBump::Major).to_tag(), "v1.0.0");
}

#[test]
fn highest_tag_ignores_non_versions() {
    let names = vec![
        Some("v1.2.3".to_string()),
        Some("release-candidate".to_string()),
        None,
        Some("1.10.0".to_string()),
        Some("v1.9.9".to_string()),
    ];
    assert_eq!(highest_semver_tag(&names), Some(SemVer::new(1, 10, 0)));
    let none: Vec<Option<String>> = vec![Some("latest".to_string()), None];
    assert_eq!(highest_semver_tag(&none), None);
    assert_eq!(highest_semver_tag(&[]), None);
}

#[test]
fn release_tag_is_above_every_existing_tag() {
    // The documented examples: v1.2.3 gives v1.2.4, v1.3.0 and v2.0.0.
    let names = vec![Some("v1.2.3".to_string()), Some("v0.9.0".to_string())];
    let h = highest_semver_tag(&names);
    assert_eq!(release_version(h, VersionBump::Patch).to_tag(), "v1.2.4");
    assert_eq!(release_version(h, VersionBump::Minor).to_tag(), "v1.3.0");
    assert_eq!(release_version(h, VersionBump::Major).to_tag(), "v2.0.0");
    let new_tag = release_version(h, VersionBump::Patch).to_tag();
    assert!(names.iter().all(|n| n.as_deref() != Some(new_tag.as_str())));
}

#[test]
fn bump_name_and_its_lowered_text_agree() {
    for s in ["MAJOR", "Minor", "pAtCh", "Majors", " patch", ""] {
        assert_eq!(
            s.parse::<VersionBump>().ok(),
            s.to_lowercase().parse::<VersionBump>().ok(),
            "input {:?}",
            s
        );
    }
}
