use std::cmp::Ordering;

use liveboat::errors::VersionError;
use liveboat::Version;

#[test]
fn test_loading_version_from_string() {
    let mut result = Version::from_str("1.2.3".to_string());
    assert!(result.is_ok());
    let v = result.unwrap();
    assert_eq!(v.major, 1);
    assert_eq!(v.minor, 2);
    assert_eq!(v.patch, 3);
    result = Version::from_str("12.3".to_string());
    assert!(result.is_err());
    result = Version::from_str("1.2.3.4".to_string());
    assert!(result.is_err());
    result = Version::from_str("gibberish".to_string());
    assert!(result.is_err());
    result = Version::from_str("1.2.3-alpha".to_string());
    assert!(result.is_err());
}

#[test]
fn test_comparing_versions() {
    let mut v1 = Version::from_str("1.2.3".to_string()).unwrap();
    let mut v2 = Version::from_str("1.2.3".to_string()).unwrap();
    assert_eq!(v1.cmp(&v2), Ordering::Equal);
    v1 = Version::from_str("1.2.3".to_string()).unwrap();
    v2 = Version::from_str("2.2.3".to_string()).unwrap();
    assert_eq!(v1.cmp(&v2), Ordering::Less);
    v1 = Version::from_str("1.2.4".to_string()).unwrap();
    v2 = Version::from_str("1.2.3".to_string()).unwrap();
    assert_eq!(v1.cmp(&v2), Ordering::Greater);
    v1 = Version::from_str("1.2.3".to_string()).unwrap();
    v2 = Version::from_str("1.4.3".to_string()).unwrap();
    assert_eq!(v1.cmp(&v2), Ordering::Less);
}

#[test]
fn test_version_error_kinds() {
    assert!(matches!(
        Version::from_str("1.2".to_string()),
        Err(VersionError::InvalidFormat)
    ));
    assert!(matches!(
        Version::from_str("1.x.3".to_string()),
        Err(VersionError::InvalidNumber)
    ));
    // a value out of range is rejected, not wrapped around
    assert!(Version::from_str("1.2.99999999999999999999".to_string()).is_err());
}

#[test]
fn version_accepts_leading_plus() {
    // the standard unsigned parser allows one leading plus per part
    let v = Version::from_str("+1.2.+3".to_string()).unwrap();
    assert_eq!(1, v.major);
    assert_eq!(2, v.minor);
    assert_eq!(3, v.patch);
    assert!(Version::from_str("+.2.3".to_string()).is_err());
    assert!(Version::from_str("++1.2.3".to_string()).is_err());
}
