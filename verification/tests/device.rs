use export_findmy::device::{FakeIOSConfig, FAKE_SERIAL};

fn config() -> FakeIOSConfig {
    FakeIOSConfig::with_identifiers(0xa1a2a3a4_b1b2_c1c2_d1d2_d3d4d5d6d7d8, 0xfee1)
}

#[test]
fn identifiers_are_written_in_upper_case() {
    let config = config();
    assert_eq!(config.get_device_uuid(), "A1A2A3A4-B1B2-C1C2-D1D2-D3D4D5D6D7D8");
    assert_eq!(config.get_udid(), "0000000000000000000000000000FEE1");
    assert_eq!(config.get_serial_number(), "F2LZN0FAKE00");
    assert_eq!(FAKE_SERIAL, "F2LZN0FAKE00");
}

#[test]
fn small_identifiers_keep_their_zeros() {
    let config = FakeIOSConfig::with_identifiers(0, 0);
    assert_eq!(config.device_uuid, "00000000-0000-0000-0000-000000000000");
    assert_eq!(config.udid, "0".repeat(32));
}

#[test]
fn a_new_device_has_a_random_uuid() {
    for _ in 0..50 {
        let config = FakeIOSConfig::new();
        let uuid: Vec<char> = config.device_uuid.chars().collect();
        assert_eq!(uuid.len(), 36);
        for (i, c) in uuid.iter().enumerate() {
            if [8, 13, 18, 23].contains(&i) {
                assert_eq!(*c, '-');
            } else {
                assert!(c.is_ascii_digit() || ('A'..='F').contains(c));
            }
        }
        assert_eq!(uuid[14], '4');
        assert!(['8', '9', 'A', 'B'].contains(&uuid[19]));
        assert_eq!(config.udid.len(), 32);
        assert!(config.udid.chars().all(|c| c.is_ascii_digit() || ('A'..='F').contains(&c)));
        assert_eq!(config.serial, "F2LZN0FAKE00");
    }
}

#[test]
fn two_new_devices_differ() {
    let (a, b) = (FakeIOSConfig::new(), FakeIOSConfig::new());
    assert_ne!(a.device_uuid, b.device_uuid);
    assert_ne!(a.udid, b.udid);
}

#[test]
fn the_device_describes_itself_as_a_phone() {
    let config = config();
    assert_eq!(config.get_activation_device(), "iPhone");
    assert_eq!(config.get_device_name(), "iPhone");
    assert_eq!(config.get_protocol_version(), 1640);
    let meta = config.get_register_meta();
    assert_eq!(meta.hardware_version, "iPhone15,2");
    assert_eq!(meta.os_version, "iPhone OS,17.4,21E219");
    assert_eq!(meta.software_version, "21E219");
    let meta = config.get_debug_meta();
    assert_eq!(meta.user_version, "17.4");
    assert_eq!(meta.hardware_version, "iPhone15,2");
    assert_eq!(meta.serial_number, "F2LZN0FAKE00");
    assert_eq!(config.get_version_ua(), "[iPhone OS,17.4,21E219,iPhone15,2]");
    assert_eq!(config.get_aoskit_version(), "com.apple.AuthKit/1 (com.apple.akd/1.0)");
    assert_eq!(
        config.get_login_url(),
        "https://setup.icloud.com/setup/iosbuddy/loginDelegates"
    );
}

#[test]
fn user_agents_name_the_program() {
    let config = config();
    assert_eq!(config.get_normal_ua("akd/1.0"), "akd/1.0 CFNetwork/1494.0.7 Darwin/23.4.0");
    assert_eq!(
        config.get_mme_clientinfo("com.apple.AuthKit/1"),
        "<iPhone15,2> <iPhone OS;17.4;21E219> <com.apple.AuthKit/1>"
    );
}

#[test]
fn the_device_has_no_further_data() {
    let config = config();
    assert!(config.get_private_data().is_empty());
    assert!(config.get_gsa_hardware_headers().is_empty());
    assert!(config.generate_validation_data().is_empty());
}
