use export_findmy::accessory_plist::accessory_to_plist;
use export_findmy::export::plan_exports;
use export_findmy::records::{
    BeaconAccessory, BeaconNamingRecord, KeyAlignmentRecord, MasterBeaconRecord,
};
use plist::Value;
use std::time::{Duration, SystemTime, UNIX_EPOCH};

fn paired() -> SystemTime {
    UNIX_EPOCH + Duration::from_secs(1_600_000_000)
}

fn bare() -> BeaconAccessory {
    BeaconAccessory {
        master_record: MasterBeaconRecord {
            private_key: vec![1, 2],
            shared_secret: vec![3],
            shared_secret_2: None,
            secure_locations_shared_secret: None,
            public_key: vec![4],
            stable_identifier: "ABC".to_string(),
            model: "AirTag1,1".to_string(),
            pairing_date: None,
        },
        naming: BeaconNamingRecord {
            emoji: "🔑".to_string(),
            name: "Keys".to_string(),
            associated_beacon: "ABC".to_string(),
            role_id: 1,
        },
        naming_id: "n".to_string(),
        alignment: KeyAlignmentRecord::default(),
        alignment_id: String::new(),
        local_alignment: KeyAlignmentRecord::default(),
    }
}

fn full() -> BeaconAccessory {
    let mut acc = bare();
    acc.master_record.shared_secret_2 = Some(vec![5, 6]);
    acc.master_record.secure_locations_shared_secret = Some(vec![7]);
    acc.master_record.pairing_date = Some(paired());
    acc.alignment_id = "a".to_string();
    acc.alignment = KeyAlignmentRecord {
        beacon_identifier: "ABC".to_string(),
        last_index_observed: -3,
        last_index_observation_date: Some(UNIX_EPOCH),
    };
    acc
}

fn keys(value: &Value) -> Vec<String> {
    value.as_dictionary().unwrap().keys().cloned().collect()
}

#[test]
fn a_bare_accessory_has_the_fields_that_all_have() {
    let value = accessory_to_plist(&bare());
    assert_eq!(
        keys(&value),
        ["privateKey", "sharedSecret", "publicKey", "identifier", "model", "name", "emoji",
         "alignment"]
    );
    let dict = value.as_dictionary().unwrap();
    assert_eq!(keys(dict.get("alignment").unwrap()), ["beaconIdentifier", "lastIndexObserved"]);
}

#[test]
fn a_full_accessory_has_all_fields() {
    let value = accessory_to_plist(&full());
    assert_eq!(
        keys(&value),
        ["privateKey", "sharedSecret", "secondarySharedSecret", "secureLocationsSharedSecret",
         "publicKey", "identifier", "model", "pairingDate", "name", "emoji", "alignment"]
    );
    let dict = value.as_dictionary().unwrap();
    assert_eq!(dict["privateKey"].as_data().unwrap(), [1, 2]);
    assert_eq!(dict["sharedSecret"].as_data().unwrap(), [3]);
    assert_eq!(dict["secondarySharedSecret"].as_data().unwrap(), [5, 6]);
    assert_eq!(dict["secureLocationsSharedSecret"].as_data().unwrap(), [7]);
    assert_eq!(dict["publicKey"].as_data().unwrap(), [4]);
    assert_eq!(dict["identifier"].as_string().unwrap(), "ABC");
    assert_eq!(dict["model"].as_string().unwrap(), "AirTag1,1");
    assert_eq!(SystemTime::from(dict["pairingDate"].as_date().unwrap()), paired());
    assert_eq!(dict["name"].as_string().unwrap(), "Keys");
    assert_eq!(dict["emoji"].as_string().unwrap(), "🔑");
    let alignment = dict["alignment"].as_dictionary().unwrap();
    assert_eq!(
        keys(&dict["alignment"]),
        ["recordIdentifier", "beaconIdentifier", "lastIndexObserved", "lastIndexObservationDate"]
    );
    assert_eq!(alignment["recordIdentifier"].as_string().unwrap(), "a");
    assert_eq!(alignment["beaconIdentifier"].as_string().unwrap(), "ABC");
    assert_eq!(alignment["lastIndexObserved"].as_signed_integer().unwrap(), -3);
    let observed = alignment["lastIndexObservationDate"].as_date().unwrap();
    assert_eq!(SystemTime::from(observed), UNIX_EPOCH);
}

#[test]
fn the_property_list_can_be_written_and_read() {
    let value = accessory_to_plist(&full());
    let mut bytes: Vec<u8> = Vec::new();
    value.to_writer_xml(&mut bytes).unwrap();
    let text = String::from_utf8(bytes.clone()).unwrap();
    assert!(text.contains("<key>pairingDate</key>\n\t<date>2020-09-13T12:26:40Z</date>"));
    let back = Value::from_reader_xml(bytes.as_slice()).unwrap();
    assert_eq!(back, value);
}

#[test]
fn every_accessory_gets_a_file_of_its_own() {
    let mut other = bare();
    other.naming.name = "Bag".to_string();
    let list = vec![
        ("m1".to_string(), bare()),
        ("m2".to_string(), other),
        ("m3".to_string(), full()),
    ];
    let files = plan_exports(&list);
    let names: Vec<&str> = files.iter().map(|f| f.0.as_str()).collect();
    assert_eq!(names, ["Keys__ABC.plist", "Bag__ABC.plist", "Keys__ABC__2.plist"]);
    for (file, (_, acc)) in files.iter().zip(list.iter()) {
        assert_eq!(file.1, accessory_to_plist(acc));
        let dict = file.1.as_dictionary().unwrap();
        assert_eq!(dict["privateKey"].as_data().unwrap(), acc.master_record.private_key);
    }
}

#[test]
fn no_accessories_make_no_files() {
    assert!(plan_exports(&vec![]).is_empty());
}
