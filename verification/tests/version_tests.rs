use dx_forge::version::{Version, VersionReq};

#[test]
fn test_version_parsing() {
    let v = "1.2.3".parse::<Version>().unwrap();
    assert_eq!(v.major, 1);
    assert_eq!(v.minor, 2);
    assert_eq!(v.patch, 3);

    let v = "v2.0.0-beta.1".parse::<Version>().unwrap();
    assert_eq!(v.major, 2);
    assert_eq!(v.pre_release, Some("beta.1".to_string()));

    let v = "1.0.0+build.123".parse::<Version>().unwrap();
    assert_eq!(v.build, Some("build.123".to_string()));
}

#[test]
fn test_version_comparison() {
    let v1 = Version::new(1, 2, 3);
    let v2 = Version::new(1, 2, 4);
    let v3 = Version::new(2, 0, 0);

    assert!(v1 < v2);
    assert!(v2 < v3);
    assert!(v1 < v3);
}

#[test]
fn test_version_compatibility() {
    let v1 = Version::new(1, 2, 3);
    let v2 = Version::new(1, 5, 0);
    let v3 = Version::new(2, 0, 0);

    assert!(v1.is_compatible_with(&v2));
    assert!(!v1.is_compatible_with(&v3));
}

#[test]
fn test_version_requirements() {
    let v = Version::new(1, 2, 3);

    let req = "^1.0.0".parse::<VersionReq>().unwrap();
    assert!(v.satisfies(&req));

    let req = ">=1.2.0".parse::<VersionReq>().unwrap();
    assert!(v.satisfies(&req));

    let req = ">2.0.0".parse::<VersionReq>().unwrap();
    assert!(!v.satisfies(&req));
}

#[test]
fn test_version_req_parsing() {
    assert!(matches!(
        "^1.2.3".parse::<VersionReq>().unwrap(),
        VersionReq::Compatible(_)
    ));
    assert!(matches!(
        ">=1.2.3".parse::<VersionReq>().unwrap(),
        VersionReq::GreaterOrEqual(_)
    ));
    assert!(matches!("*".parse::<VersionReq>().unwrap(), VersionReq::Any));
}

#[test]
fn malformed_versions_are_rejected() {
    assert!("1.2".parse::<Version>().is_err());
    assert!("1.2.3.4".parse::<Version>().is_err());
    assert!("a.b.c".parse::<Version>().is_err());
    assert!("".parse::<Version>().is_err());
    assert!("1..3".parse::<Version>().is_err());
}

#[test]
fn oversized_numbers_are_rejected() {
    assert!("99999999999999999999.0.0".parse::<Version>().is_err());
    // the largest value that fits is accepted
    let v = "18446744073709551615.0.0".parse::<Version>().unwrap();
    assert_eq!(v.major, u64::MAX);
}

#[test]
fn prerelease_sorts_below_release() {
    let rel = "1.0.0".parse::<Version>().unwrap();
    let pre = "1.0.0-alpha".parse::<Version>().unwrap();
    assert!(pre < rel);
    assert!(pre.is_prerelease());
    assert!(!pre.is_stable());
    assert!(rel.is_stable());
    let alpha = "1.0.0-alpha".parse::<Version>().unwrap();
    let beta = "1.0.0-beta".parse::<Version>().unwrap();
    assert!(alpha < beta);
}
