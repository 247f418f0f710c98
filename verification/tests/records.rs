use export_findmy::assembly::{assemble_accessories, make_accessory, shorten_id};
use export_findmy::record_book::{
    collect_records, DecodedRecord, RecordBook, RecordChange, RecordKind, RecordTypes,
};
use export_findmy::records::{
    BeaconAccessory, BeaconNamingRecord, KeyAlignmentRecord, MasterBeaconRecord,
};
use export_findmy::string_table::StringTable;

fn master(stable_identifier: &str, key: u8) -> MasterBeaconRecord {
    MasterBeaconRecord {
        private_key: vec![key],
        shared_secret: vec![2],
        shared_secret_2: None,
        secure_locations_shared_secret: None,
        public_key: vec![3],
        stable_identifier: stable_identifier.to_string(),
        model: "AirTag1,1".to_string(),
        pairing_date: None,
    }
}

fn naming(beacon: &str, name: &str) -> BeaconNamingRecord {
    BeaconNamingRecord {
        emoji: "🔑".to_string(),
        name: name.to_string(),
        associated_beacon: beacon.to_string(),
        role_id: 5,
    }
}

fn alignment(beacon: &str, index: i64) -> KeyAlignmentRecord {
    KeyAlignmentRecord {
        beacon_identifier: beacon.to_string(),
        last_index_observed: index,
        last_index_observation_date: None,
    }
}

fn change(identifier: &str, record: DecodedRecord) -> RecordChange {
    RecordChange { identifier: identifier.to_string(), record: Some(record) }
}

fn sorted(book: RecordBook) -> Vec<(String, BeaconAccessory)> {
    let mut list = book.assemble().unwrap();
    list.sort_by(|a, b| a.0.partial_cmp(&b.0).unwrap());
    list
}

#[test]
fn record_types_are_told_apart() {
    let types = RecordTypes {
        master: "MasterBeaconRecord".to_string(),
        naming: "BeaconNamingRecord".to_string(),
        alignment: "KeyAlignmentRecord".to_string(),
    };
    assert_eq!(types.classify("MasterBeaconRecord"), RecordKind::Master);
    assert_eq!(types.classify("BeaconNamingRecord"), RecordKind::Naming);
    assert_eq!(types.classify("KeyAlignmentRecord"), RecordKind::Alignment);
    assert_eq!(types.classify("SafeLocation"), RecordKind::Other);
    assert_eq!(types.classify(""), RecordKind::Other);
}

#[test]
fn accessories_get_their_own_records() {
    let list = sorted(collect_records(vec![
        change("n1", DecodedRecord::Naming(naming("S1", "Keys"))),
        change("m2", DecodedRecord::Master(master("S2", 20))),
        change("a2", DecodedRecord::Alignment(alignment("S2", 7))),
        change("m1", DecodedRecord::Master(master("S1", 10))),
        change("x", DecodedRecord::Other),
        RecordChange { identifier: "gone".to_string(), record: None },
    ]));
    assert_eq!(list.len(), 2);
    let (id, acc) = &list[0];
    assert_eq!(id, "m1");
    assert_eq!(acc.master_record.private_key, vec![10]);
    assert_eq!(acc.naming.name, "Keys");
    assert_eq!(acc.naming_id, "n1");
    assert_eq!(acc.naming.role_id, 5);
    assert_eq!(acc.alignment_id, "");
    assert_eq!(acc.alignment.beacon_identifier, "");
    assert_eq!(acc.alignment.last_index_observed, 0);
    let (id, acc) = &list[1];
    assert_eq!(id, "m2");
    assert_eq!(acc.naming.name, "Unknown-S2");
    assert_eq!(acc.naming.emoji, "");
    assert_eq!(acc.naming.associated_beacon, "S2");
    assert_eq!(acc.naming.role_id, 0);
    assert_eq!(acc.naming_id, "");
    assert_eq!(acc.alignment_id, "a2");
    assert_eq!(acc.alignment.last_index_observed, 7);
    assert_eq!(acc.local_alignment.last_index_observed, 7);
    assert_eq!(acc.local_alignment.beacon_identifier, "S2");
}

#[test]
fn the_last_record_under_a_key_wins() {
    let list = sorted(collect_records(vec![
        change("m", DecodedRecord::Master(master("S", 1))),
        change("n1", DecodedRecord::Naming(naming("S", "Old"))),
        change("n2", DecodedRecord::Naming(naming("S", "New"))),
        change("a1", DecodedRecord::Alignment(alignment("S", 1))),
        change("a2", DecodedRecord::Alignment(alignment("S", 2))),
        change("m", DecodedRecord::Master(master("S", 9))),
    ]));
    assert_eq!(list.len(), 1);
    let acc = &list[0].1;
    assert_eq!(acc.master_record.private_key, vec![9]);
    assert_eq!((acc.naming.name.as_str(), acc.naming_id.as_str()), ("New", "n2"));
    assert_eq!((acc.alignment.last_index_observed, acc.alignment_id.as_str()), (2, "a2"));
}

#[test]
fn records_without_a_master_record_are_left_over() {
    let book = collect_records(vec![change("n", DecodedRecord::Naming(naming("S", "Keys")))]);
    assert!(book.assemble().unwrap().is_empty());
    let book = collect_records(vec![change("n", DecodedRecord::Naming(naming("S", "Keys")))]);
    assert!(book.masters.into_entries().is_empty());
    assert_eq!(book.namings.into_entries().len(), 1);
}

#[test]
fn a_record_is_given_to_one_accessory_only() {
    let mut namings = StringTable::new();
    namings.insert("S".to_string(), ("n".to_string(), naming("S", "Keys")));
    let masters = vec![("m1".to_string(), master("S", 1)), ("m2".to_string(), master("S", 2))];
    let list = assemble_accessories(masters, namings, StringTable::new()).unwrap();
    assert_eq!(list[0].1.naming.name, "Keys");
    assert_eq!(list[1].1.naming.name, "Unknown-S");
}

#[test]
fn the_order_of_master_records_does_not_matter() {
    let build = |flip: bool| {
        let mut namings = StringTable::new();
        namings.insert("S1".to_string(), ("n1".to_string(), naming("S1", "One")));
        namings.insert("S2".to_string(), ("n2".to_string(), naming("S2", "Two")));
        let mut masters =
            vec![("m1".to_string(), master("S1", 1)), ("m2".to_string(), master("S2", 2))];
        if flip {
            masters.reverse();
        }
        let mut list = assemble_accessories(masters, namings, StringTable::new()).unwrap();
        if flip {
            list.reverse();
        }
        list.into_iter().map(|(id, acc)| (id, acc.naming.name)).collect::<Vec<_>>()
    };
    assert_eq!(build(false), build(true));
}

#[test]
fn identifiers_are_cut_to_eight_bytes() {
    assert_eq!(shorten_id("0123456789").unwrap(), "01234567");
    assert_eq!(shorten_id("01234567").unwrap(), "01234567");
    assert_eq!(shorten_id("abc").unwrap(), "abc");
    assert_eq!(shorten_id("").unwrap(), "");
    assert_eq!(shorten_id("éééé-").unwrap(), "éééé");
    assert_eq!(shorten_id("ééé").unwrap(), "ééé");
}

#[test]
fn no_character_is_cut_in_two() {
    assert!(shorten_id("0123456é").is_none());
    assert!(make_accessory(master("0123456é", 1), None, None).is_none());
    let named = Some(("n".to_string(), naming("0123456é", "Keys")));
    assert_eq!(make_accessory(master("0123456é", 1), named, None).unwrap().naming.name, "Keys");
    let masters = vec![("m".to_string(), master("0123456é", 1))];
    assert!(assemble_accessories(masters, StringTable::new(), StringTable::new()).is_none());
}

#[test]
fn a_table_keeps_one_value_per_key() {
    let mut table = StringTable::new();
    table.insert("a".to_string(), master("1", 1));
    table.insert("b".to_string(), master("2", 2));
    table.insert("a".to_string(), master("3", 3));
    assert_eq!(table.remove("a").unwrap().stable_identifier, "3");
    assert!(table.remove("a").is_none());
    let rest = table.into_entries();
    assert_eq!(rest.len(), 1);
    assert_eq!((rest[0].0.as_str(), rest[0].1.private_key[0]), ("b", 2));
}
