use export_findmy::filename::{accessory_filename, safe_filename_component, UsedNames};
use export_findmy::records::{
    BeaconAccessory, BeaconNamingRecord, KeyAlignmentRecord, MasterBeaconRecord,
};

fn accessory(name: &str, stable_identifier: &str) -> BeaconAccessory {
    BeaconAccessory {
        master_record: MasterBeaconRecord {
            private_key: vec![],
            shared_secret: vec![],
            shared_secret_2: None,
            secure_locations_shared_secret: None,
            public_key: vec![],
            stable_identifier: stable_identifier.to_string(),
            model: String::new(),
            pairing_date: None,
        },
        naming: BeaconNamingRecord {
            emoji: String::new(),
            name: name.to_string(),
            associated_beacon: stable_identifier.to_string(),
            role_id: 0,
        },
        naming_id: String::new(),
        alignment: KeyAlignmentRecord::default(),
        alignment_id: String::new(),
        local_alignment: KeyAlignmentRecord::default(),
    }
}

#[test]
fn safe_component_replaces_other_characters() {
    assert_eq!(safe_filename_component("My Keys/é"), "My_Keys__");
    assert_eq!(safe_filename_component("../a\\b:c"), "___a_b_c");
    assert_eq!(safe_filename_component("AZaz09-_"), "AZaz09-_");
    assert_eq!(safe_filename_component("٣"), "_");
    assert_eq!(safe_filename_component("@[`{/:"), "______");
}

#[test]
fn safe_component_of_nothing_is_unknown() {
    assert_eq!(safe_filename_component(""), "Unknown");
}

#[test]
fn making_safe_twice_changes_nothing_more() {
    for s in ["", "a b", "héllo", "x-y_z"] {
        let once = safe_filename_component(s);
        assert_eq!(safe_filename_component(&once), once);
        assert!(!once.is_empty());
    }
}

#[test]
fn safe_component_agrees_with_ascii_alphanumeric() {
    for code in 0..0x300u32 {
        let c = char::from_u32(code).unwrap();
        let kept = c.is_ascii_alphanumeric() || c == '-' || c == '_';
        let expected = if kept { c } else { '_' };
        assert_eq!(safe_filename_component(&c.to_string()), expected.to_string());
    }
}

#[test]
fn filename_has_the_name_and_twelve_characters_of_the_identifier() {
    let mut used = UsedNames::new();
    let name = accessory_filename(&accessory("Car Keys", "0123456789ABCDEF"), &mut used);
    assert_eq!(name, "Car_Keys__0123456789AB.plist");
    assert!(used.contains("Car_Keys__0123456789AB.plist"));
    assert_eq!(used.len(), 1);
    assert_eq!(accessory_filename(&accessory("", ""), &mut used), "Unknown__Unknown.plist");
    assert_eq!(accessory_filename(&accessory("é", "ab/c"), &mut used), "___ab_c.plist");
}

#[test]
fn taken_filenames_are_numbered_from_two() {
    let mut used = UsedNames::new();
    let acc = accessory("Bag", "id");
    assert_eq!(accessory_filename(&acc, &mut used), "Bag__id.plist");
    assert_eq!(accessory_filename(&acc, &mut used), "Bag__id__2.plist");
    assert_eq!(accessory_filename(&acc, &mut used), "Bag__id__3.plist");
    assert_eq!(used.len(), 3);
}

#[test]
fn the_first_free_number_is_taken() {
    let mut used = UsedNames::new();
    assert!(used.insert("Bag__id.plist".to_string()));
    assert!(used.insert("Bag__id__3.plist".to_string()));
    assert!(!used.insert("Bag__id__3.plist".to_string()));
    let acc = accessory("Bag", "id");
    assert_eq!(accessory_filename(&acc, &mut used), "Bag__id__2.plist");
    assert_eq!(accessory_filename(&acc, &mut used), "Bag__id__4.plist");
}

#[test]
fn filenames_stay_in_their_directory() {
    let mut used = UsedNames::new();
    let name = accessory_filename(&accessory("../../etc/passwd", "/abs\0"), &mut used);
    assert_eq!(name, "______etc_passwd___abs_.plist");
    assert!(!name.contains('/') && !name.contains('\0') && !name.starts_with('.'));
}
