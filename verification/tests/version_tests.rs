use pgd::version::available_versions;
use pgd::version::format_image;
use pgd::version::latest_version;
use pgd::version::PostgresVersion;

fn v(major: u32, minor: u32) -> PostgresVersion {
    PostgresVersion { major, minor }
}

#[test]
fn test_parse_plain() {
    assert_eq!(PostgresVersion::parse("17.2"), Some(v(17, 2)));
    assert_eq!(PostgresVersion::parse("0.0"), Some(v(0, 0)));
    assert_eq!(PostgresVersion::parse("08.09"), Some(v(8, 9)));
    assert_eq!(PostgresVersion::parse("4294967295.1"), Some(v(4294967295, 1)));
}

#[test]
fn test_parse_rejects_malformed() {
    assert_eq!(PostgresVersion::parse(""), None);
    assert_eq!(PostgresVersion::parse("banana"), None);
    assert_eq!(PostgresVersion::parse("17"), None);
    assert_eq!(PostgresVersion::parse("17."), None);
    assert_eq!(PostgresVersion::parse(".2"), None);
    assert_eq!(PostgresVersion::parse("1.2.3"), None);
    assert_eq!(PostgresVersion::parse("17.x"), None);
    assert_eq!(PostgresVersion::parse("-1.2"), None);
    assert_eq!(PostgresVersion::parse("1 .2"), None);
}

#[test]
fn test_parse_rejects_overflow() {
    assert_eq!(PostgresVersion::parse("4294967296.0"), None);
    assert_eq!(PostgresVersion::parse("0.99999999999999"), None);
}

#[test]
fn test_render() {
    assert_eq!(v(17, 2).render(), "17.2");
    assert_eq!(v(10, 0).render(), "10.0");
    assert_eq!(v(0, 7).render(), "0.7");
}

#[test]
fn test_parse_render_round_trip() {
    for ver in [v(17, 2), v(0, 0), v(4294967295, 4294967295), v(9, 10)] {
        assert_eq!(PostgresVersion::parse(&ver.render()), Some(ver));
    }
}

#[test]
fn test_order_trichotomy_on_samples() {
    // equal versions are related in neither direction
    assert!(!v(17, 2).lt(&v(17, 2)));
    // strictly ordered pairs are related in exactly one direction
    assert!(v(16, 9).lt(&v(17, 0)));
    assert!(!v(17, 0).lt(&v(16, 9)));
    assert!(v(17, 0).lt(&v(17, 1)));
    assert!(!v(17, 1).lt(&v(17, 0)));
    // transitivity on a sample chain
    assert!(v(14, 20).lt(&v(15, 15)) && v(15, 15).lt(&v(16, 11)) && v(14, 20).lt(&v(16, 11)));
}

#[test]
fn test_format_image() {
    assert_eq!(format_image(&v(17, 2)), "postgres:17.2");
}

#[test]
fn test_available_and_latest() {
    let versions = available_versions();
    assert_eq!(versions.len(), 5);
    assert_eq!(versions[0], v(18, 1));
    assert_eq!(latest_version(&versions), Some(v(18, 1)));
    assert_eq!(latest_version(&Vec::new()), None);
    let shuffled = vec![v(15, 15), v(18, 1), v(14, 20)];
    assert_eq!(latest_version(&shuffled), Some(v(18, 1)));
}

#[test]
fn test_image_present() {
    let tags = vec![
        String::from("postgres:17.2"),
        String::from("redis:7.4"),
    ];
    assert!(pgd::version::image_present(&tags, &v(17, 2)));
    assert!(!pgd::version::image_present(&tags, &v(16, 0)));
    assert!(!pgd::version::image_present(&Vec::new(), &v(17, 2)));
}
