use lodestone_core::neoforge::{split_neoforge_version, NeoforgeVersion, VersionError};
use lodestone_core::util::{format_byte, format_byte_download};
use std::str::FromStr;

#[test]
fn parse_current_version() {
    let v = NeoforgeVersion::from_str("20.2.88").unwrap();
    assert!(!v.legacy);
    assert_eq!((v.major, v.minor, v.patch.as_str()), (20, 2, "88"));
    assert_eq!(v.version(), "20.2.88");
    assert_eq!(v.patch(), 88);
    assert!(v == NeoforgeVersion::new(20, 2, "88".to_string(), false));
    assert_eq!(
        v.installer_url(),
        "https://maven.neoforged.net/releases/net/neoforged/neoforge/20.2.88/neoforge-20.2.88-installer.jar"
    );
}

#[test]
fn parse_legacy_version() {
    let v = NeoforgeVersion::parse("1.20.1-47.1.106").unwrap();
    assert!(v.legacy);
    assert_eq!((v.major, v.minor, v.patch.as_str()), (20, 1, "106"));
    assert_eq!(v.patch(), 106);
    assert_eq!(v.version(), "1.20.1-47.1.106");
    assert_eq!(
        v.installer_url(),
        "https://maven.neoforged.net/releases/net/neoforged/forge/1.20.1-47.1.106/forge-1.20.1-47.1.106-installer.jar"
    );
}

#[test]
fn parse_beta_channel() {
    let v = NeoforgeVersion::parse("20.4.80-beta").unwrap();
    assert_eq!((v.major, v.minor, v.patch.as_str()), (20, 4, "80"));
    assert_eq!(
        split_neoforge_version("20.2.88-beta").unwrap(),
        ("20".to_string(), "2".to_string(), ("88".to_string(), Some("beta".to_string())))
    );
    assert_eq!(
        split_neoforge_version("20.2.88.5").unwrap(),
        ("20".to_string(), "2".to_string(), ("88".to_string(), None))
    );
}

#[test]
fn parse_errors() {
    assert_eq!(NeoforgeVersion::parse("20").unwrap_err(), VersionError::InvalidFormat);
    assert_eq!(NeoforgeVersion::parse("20.2").unwrap_err(), VersionError::InvalidFormat);
    assert_eq!(NeoforgeVersion::parse("20.x.1").unwrap_err(), VersionError::InvalidNumber);
    assert_eq!(NeoforgeVersion::parse("99999999999.1.1").unwrap_err(), VersionError::InvalidNumber);
    assert_eq!(VersionError::InvalidFormat.message(), "Invalid version format.");
    assert_eq!(VersionError::InvalidNumber.message(), "Invalid number in version.");
}

#[test]
fn patch_without_number_is_zero() {
    let v = NeoforgeVersion::new(20, 2, "abc".to_string(), false);
    assert_eq!(v.patch(), 0);
    assert_eq!(v.version(), "20.2.0");
    let n = NeoforgeVersion::new(-3, 2, "-7".to_string(), false);
    assert_eq!(n.version(), "-3.2.-7");
}

#[test]
fn byte_formats() {
    assert_eq!(format_byte(0), "0.0 B");
    assert_eq!(format_byte(1024), "1024.0 B");
    assert_eq!(format_byte(1025), "1.0 KB");
    assert_eq!(format_byte(1536), "1.5 KB");
    assert_eq!(format_byte(1280), "1.2 KB");
    assert_eq!(format_byte(1048576), "1024.0 KB");
    assert_eq!(format_byte(1610612736), "1.5 GB");
    assert_eq!(format_byte(u64::MAX), "16.0 EB");
}

#[test]
fn download_formats() {
    assert_eq!(format_byte_download(1536, 3072), "1.5 / 3.0 KB");
    assert_eq!(format_byte_download(500, 3072), "500.0 / 3072.0 B");
    assert_eq!(format_byte_download(2097152 * 3, 2097152 * 10), "6.0 / 20.0 MB");
}
