//! An accessory as a property list.

use crate::entries::{has_key, key_index, keys_distinct, lemma_lookup_entry, lookup};
use crate::property_list::{
    data_value, date_value, dictionary_entries, dictionary_value, integer_value, string_value,
    value_tree, PlistTree,
};
use crate::records::{BeaconAccessory, BeaconAccessoryModel, MasterBeaconModel};
use vstd::prelude::*;

verus! {

/// The entries of a dictionary.
pub type Entries = Seq<(Seq<char>, PlistTree)>;

/// One entry.
pub open spec fn entry(key: Seq<char>, value: PlistTree) -> Entries {
    seq![(key, value)]
}

/// One entry, where there is a value for it.
pub open spec fn optional_entry(key: Seq<char>, value: Option<PlistTree>) -> Entries {
    match value {
        Some(v) => entry(key, v),
        None => Seq::empty(),
    }
}

/// Optional bytes as an optional property list value.
pub open spec fn optional_data(bytes: Option<Seq<u8>>) -> Option<PlistTree> {
    match bytes {
        Some(b) => Some(PlistTree::Bytes(b)),
        None => None,
    }
}

/// An optional time as an optional property list value.
pub open spec fn optional_date(time: Option<std::time::SystemTime>) -> Option<PlistTree> {
    match time {
        Some(t) => Some(PlistTree::Time(t)),
        None => None,
    }
}

/// The entries for the alignment of an accessory. The identifier of the
/// alignment record stands among them where there is such a record.
pub open spec fn alignment_entries(acc: BeaconAccessoryModel) -> Entries {
    optional_entry(
        "recordIdentifier"@,
        if acc.alignment_id.len() > 0 {
            Some(PlistTree::Text(acc.alignment_id))
        } else {
            None
        },
    ) + entry("beaconIdentifier"@, PlistTree::Text(acc.alignment.beacon_identifier))
        + entry("lastIndexObserved"@, PlistTree::Number(acc.alignment.last_index_observed as int))
        + optional_entry(
        "lastIndexObservationDate"@,
        optional_date(acc.alignment.last_index_observation_date),
    )
}

/// The entries for the master record of an accessory.
pub open spec fn master_entries(master: MasterBeaconModel) -> Entries {
    entry("privateKey"@, PlistTree::Bytes(master.private_key))
        + entry("sharedSecret"@, PlistTree::Bytes(master.shared_secret))
        + optional_entry("secondarySharedSecret"@, optional_data(master.shared_secret_2))
        + optional_entry(
        "secureLocationsSharedSecret"@,
        optional_data(master.secure_locations_shared_secret),
    ) + entry("publicKey"@, PlistTree::Bytes(master.public_key))
        + entry("identifier"@, PlistTree::Text(master.stable_identifier))
        + entry("model"@, PlistTree::Text(master.model))
        + optional_entry("pairingDate"@, optional_date(master.pairing_date))
}

/// The entries of the property list of an accessory, in their order.
pub open spec fn accessory_entries(acc: BeaconAccessoryModel) -> Entries {
    master_entries(acc.master_record)
        + entry("name"@, PlistTree::Text(acc.naming.name))
        + entry("emoji"@, PlistTree::Text(acc.naming.emoji))
        + entry("alignment"@, PlistTree::Entries(alignment_entries(acc)))
}

/// What tells the keys of an accessory's property list apart.
proof fn lemma_keys()
    ensures
        "privateKey"@.len() == 10 && "privateKey"@[0] == 'p',
        "sharedSecret"@.len() == 12,
        "secondarySharedSecret"@.len() == 21,
        "secureLocationsSharedSecret"@.len() == 27,
        "publicKey"@.len() == 9 && "publicKey"@[0] == 'p',
        "identifier"@.len() == 10 && "identifier"@[0] == 'i',
        "model"@.len() == 5 && "model"@[0] == 'm',
        "pairingDate"@.len() == 11,
        "name"@.len() == 4,
        "emoji"@.len() == 5 && "emoji"@[0] == 'e',
        "alignment"@.len() == 9 && "alignment"@[0] == 'a',
        "recordIdentifier"@.len() == 16 && "recordIdentifier"@[0] == 'r',
        "beaconIdentifier"@.len() == 16 && "beaconIdentifier"@[0] == 'b',
        "lastIndexObserved"@.len() == 17,
        "lastIndexObservationDate"@.len() == 24,
{
    reveal_strlit("privateKey");
    reveal_strlit("sharedSecret");
    reveal_strlit("secondarySharedSecret");
    reveal_strlit("secureLocationsSharedSecret");
    reveal_strlit("publicKey");
    reveal_strlit("identifier");
    reveal_strlit("model");
    reveal_strlit("pairingDate");
    reveal_strlit("name");
    reveal_strlit("emoji");
    reveal_strlit("alignment");
    reveal_strlit("recordIdentifier");
    reveal_strlit("beaconIdentifier");
    reveal_strlit("lastIndexObserved");
    reveal_strlit("lastIndexObservationDate");
}

/// The keys of two lists of entries are those of either.
broadcast proof fn lemma_has_key_concat(a: Entries, b: Entries, key: Seq<char>)
    ensures
        #[trigger] has_key(a + b, key) == (has_key(a, key) || has_key(b, key)),
{
    let both = a + b;
    if has_key(both, key) {
        let i = choose|i: int| 0 <= i < both.len() && (#[trigger] both[i]).0 == key;
        if i < a.len() {
            assert(a[i].0 == key);
        } else {
            assert(b[i - a.len()].0 == key);
        }
    }
    if has_key(a, key) {
        let i = choose|i: int| 0 <= i < a.len() && (#[trigger] a[i]).0 == key;
        assert(both[i].0 == key);
    }
    if has_key(b, key) {
        let i = choose|i: int| 0 <= i < b.len() && (#[trigger] b[i]).0 == key;
        assert(both[i + a.len()].0 == key);
    }
}

/// An optional entry has no key but its own.
broadcast proof fn lemma_has_key_optional(own: Seq<char>, value: Option<PlistTree>, key: Seq<char>)
    ensures
        #[trigger] has_key(optional_entry(own, value), key) == (value is Some && own == key),
{
    let entries = optional_entry(own, value);
    if value is Some {
        assert(entries[0].0 == own);
    }
}

/// An entry has no key but its own.
broadcast proof fn lemma_has_key_entry(own: Seq<char>, value: PlistTree, key: Seq<char>)
    ensures
        #[trigger] has_key(entry(own, value), key) == (own == key),
{
    assert(entry(own, value)[0].0 == own);
}

broadcast group group_has_key {
    lemma_has_key_concat,
    lemma_has_key_optional,
    lemma_has_key_entry,
}

/// Gives a new key its value.
fn put(dict: &mut plist::Dictionary, key: &str, value: plist::Value)
    requires
        !has_key(dictionary_entries(*old(dict)), key@),
    ensures
        dictionary_entries(*final(dict)) == dictionary_entries(*old(dict)) + entry(
            key@,
            value_tree(value),
        ),
{
    let ghost before = dictionary_entries(*dict);
    dict.insert(key.to_owned(), value);
    proof {
        assert(before.push((key@, value_tree(value))) =~= before + entry(
            key@,
            value_tree(value),
        ));
    }
}

/// Gives a new key these bytes.
fn put_bytes(dict: &mut plist::Dictionary, key: &str, bytes: &Vec<u8>)
    requires
        !has_key(dictionary_entries(*old(dict)), key@),
    ensures
        dictionary_entries(*final(dict)) == dictionary_entries(*old(dict)) + entry(
            key@,
            PlistTree::Bytes(bytes@),
        ),
{
    let copy = bytes.clone();
    assert(copy@ =~= bytes@);
    put(dict, key, data_value(copy));
}

/// Gives a new key these bytes, where there are any.
fn put_optional_bytes(dict: &mut plist::Dictionary, key: &str, bytes: &Option<Vec<u8>>)
    requires
        !has_key(dictionary_entries(*old(dict)), key@),
    ensures
        dictionary_entries(*final(dict)) == dictionary_entries(*old(dict)) + optional_entry(
            key@,
            optional_data(crate::records::optional_bytes(*bytes)),
        ),
{
    match bytes {
        Some(b) => {
            put_bytes(dict, key, b);
        },
        None => {
            assert(dictionary_entries(*dict) + Seq::<(Seq<char>, PlistTree)>::empty()
                =~= dictionary_entries(*dict));
        },
    }
}

/// Gives a new key its time, where there is one.
fn put_optional_date(dict: &mut plist::Dictionary, key: &str, time: Option<std::time::SystemTime>)
    requires
        !has_key(dictionary_entries(*old(dict)), key@),
    ensures
        dictionary_entries(*final(dict)) == dictionary_entries(*old(dict)) + optional_entry(
            key@,
            optional_date(time),
        ),
{
    match time {
        Some(t) => {
            put(dict, key, date_value(t));
        },
        None => {
            assert(dictionary_entries(*dict) + Seq::<(Seq<char>, PlistTree)>::empty()
                =~= dictionary_entries(*dict));
        },
    }
}

/// The dictionary for the alignment of an accessory.
fn alignment_dictionary(acc: &BeaconAccessory) -> (dict: plist::Dictionary)
    ensures
        dictionary_entries(dict) == alignment_entries(acc@),
{
    broadcast use group_has_key;

    proof {
        lemma_keys();
    }
    let mut dict = plist::Dictionary::new();
    if !acc.alignment_id.as_str().is_empty() {
        put(&mut dict, "recordIdentifier", string_value(acc.alignment_id.clone()));
    }
    proof {
        assert(dictionary_entries(dict) =~= optional_entry(
            "recordIdentifier"@,
            if acc@.alignment_id.len() > 0 {
                Some(PlistTree::Text(acc@.alignment_id))
            } else {
                None
            },
        ));
    }
    put(&mut dict, "beaconIdentifier", string_value(acc.alignment.beacon_identifier.clone()));
    put(&mut dict, "lastIndexObserved", integer_value(acc.alignment.last_index_observed));
    put_optional_date(&mut dict, "lastIndexObservationDate", acc.alignment.last_index_observation_date);
    dict
}

/// The property list of an accessory: a dictionary with the entries
/// [`accessory_entries`].
pub fn accessory_to_plist(acc: &BeaconAccessory) -> (value: plist::Value)
    ensures
        value_tree(value) == PlistTree::Entries(accessory_entries(acc@)),
{
    broadcast use group_has_key;

    proof {
        lemma_keys();
    }
    let mut dict = plist::Dictionary::new();
    put_bytes(&mut dict, "privateKey", &acc.master_record.private_key);
    proof {
        assert(dictionary_entries(dict) =~= entry(
            "privateKey"@,
            PlistTree::Bytes(acc@.master_record.private_key),
        ));
    }
    put_bytes(&mut dict, "sharedSecret", &acc.master_record.shared_secret);
    put_optional_bytes(&mut dict, "secondarySharedSecret", &acc.master_record.shared_secret_2);
    put_optional_bytes(
        &mut dict,
        "secureLocationsSharedSecret",
        &acc.master_record.secure_locations_shared_secret,
    );
    put_bytes(&mut dict, "publicKey", &acc.master_record.public_key);
    put(&mut dict, "identifier", string_value(acc.master_record.stable_identifier.clone()));
    put(&mut dict, "model", string_value(acc.master_record.model.clone()));
    put_optional_date(&mut dict, "pairingDate", acc.master_record.pairing_date);
    put(&mut dict, "name", string_value(acc.naming.name.clone()));
    put(&mut dict, "emoji", string_value(acc.naming.emoji.clone()));
    let alignment = alignment_dictionary(acc);
    put(&mut dict, "alignment", dictionary_value(alignment));
    dictionary_value(dict)
}

/// An entry with a new key keeps the keys distinct, and is found under it.
proof fn lemma_add_entry(a: Entries, own: Seq<char>, value: PlistTree)
    requires
        keys_distinct(a),
        !has_key(a, own),
    ensures
        keys_distinct(a + entry(own, value)),
        forall|key: Seq<char>|
            #[trigger] lookup(a + entry(own, value), key) == if key == own {
                Some(value)
            } else {
                lookup(a, key)
            },
{
    let after = a + entry(own, value);
    assert forall|i: int, j: int| 0 <= i < j < after.len() implies (#[trigger] after[i]).0 != (
    #[trigger] after[j]).0 by {
        assert(after[i] == a[i]);
        if j < a.len() {
            assert(a[i].0 != a[j].0);
        }
    }
    assert forall|key: Seq<char>| #[trigger] lookup(after, key) == if key == own {
        Some(value)
    } else {
        lookup(a, key)
    } by {
        lemma_has_key_concat(a, entry(own, value), key);
        lemma_has_key_entry(own, value, key);
        if has_key(after, key) {
            let i = key_index(after, key);
            lemma_lookup_entry(after, i);
            if i < a.len() {
                assert(a[i].0 == key);
                lemma_lookup_entry(a, i);
            }
        }
    }
}

/// An optional entry with a new key keeps the keys distinct, and is found under
/// it where there is one.
proof fn lemma_add_optional_entry(a: Entries, own: Seq<char>, value: Option<PlistTree>)
    requires
        keys_distinct(a),
        !has_key(a, own),
    ensures
        keys_distinct(a + optional_entry(own, value)),
        forall|key: Seq<char>|
            #[trigger] lookup(a + optional_entry(own, value), key) == if key == own {
                value
            } else {
                lookup(a, key)
            },
{
    match value {
        Some(v) => lemma_add_entry(a, own, v),
        None => {
            assert(a + optional_entry(own, value) =~= a);
        },
    }
}

/// A single entry has distinct keys.
proof fn lemma_start(own: Seq<char>, value: PlistTree)
    ensures
        keys_distinct(entry(own, value)),
        forall|key: Seq<char>|
            #[trigger] lookup(entry(own, value), key) == if key == own {
                Some(value)
            } else {
                None
            },
{
    assert(Seq::<(Seq<char>, PlistTree)>::empty() + entry(own, value) =~= entry(own, value));
    lemma_add_entry(Seq::empty(), own, value);
}

/// What stands under the keys of a master record.
proof fn lemma_master_read_back(master: MasterBeaconModel)
    ensures
        keys_distinct(master_entries(master)),
        lookup(master_entries(master), "privateKey"@) == Some(
            PlistTree::Bytes(master.private_key),
        ),
        lookup(master_entries(master), "sharedSecret"@) == Some(
            PlistTree::Bytes(master.shared_secret),
        ),
        lookup(master_entries(master), "secondarySharedSecret"@) == optional_data(
            master.shared_secret_2,
        ),
        lookup(master_entries(master), "secureLocationsSharedSecret"@) == optional_data(
            master.secure_locations_shared_secret,
        ),
        lookup(master_entries(master), "publicKey"@) == Some(PlistTree::Bytes(master.public_key)),
        lookup(master_entries(master), "identifier"@) == Some(
            PlistTree::Text(master.stable_identifier),
        ),
        lookup(master_entries(master), "model"@) == Some(PlistTree::Text(master.model)),
        lookup(master_entries(master), "pairingDate"@) == optional_date(master.pairing_date),
        !has_key(master_entries(master), "name"@),
        !has_key(master_entries(master), "emoji"@),
        !has_key(master_entries(master), "alignment"@),
{
    broadcast use group_has_key;

    lemma_keys();
    let private_key = PlistTree::Bytes(master.private_key);
    let shared = PlistTree::Bytes(master.shared_secret);
    let secondary = optional_data(master.shared_secret_2);
    let locations = optional_data(master.secure_locations_shared_secret);
    let public_key = PlistTree::Bytes(master.public_key);
    let identifier = PlistTree::Text(master.stable_identifier);
    let model = PlistTree::Text(master.model);
    let paired = optional_date(master.pairing_date);
    let e1 = entry("privateKey"@, private_key);
    let e2 = e1 + entry("sharedSecret"@, shared);
    let e3 = e2 + optional_entry("secondarySharedSecret"@, secondary);
    let e4 = e3 + optional_entry("secureLocationsSharedSecret"@, locations);
    let e5 = e4 + entry("publicKey"@, public_key);
    let e6 = e5 + entry("identifier"@, identifier);
    let e7 = e6 + entry("model"@, model);
    lemma_start("privateKey"@, private_key);
    lemma_add_entry(e1, "sharedSecret"@, shared);
    lemma_add_optional_entry(e2, "secondarySharedSecret"@, secondary);
    lemma_add_optional_entry(e3, "secureLocationsSharedSecret"@, locations);
    lemma_add_entry(e4, "publicKey"@, public_key);
    lemma_add_entry(e5, "identifier"@, identifier);
    lemma_add_entry(e6, "model"@, model);
    lemma_add_optional_entry(e7, "pairingDate"@, paired);
}

/// What stands under which key once the name, the emoji and the alignment came
/// to the entries `a`.
proof fn lemma_add_three(a: Entries, name: PlistTree, emoji: PlistTree, alignment: PlistTree)
    requires
        keys_distinct(a),
        !has_key(a, "name"@),
        !has_key(a, "emoji"@),
        !has_key(a, "alignment"@),
    ensures
        keys_distinct(
            a + entry("name"@, name) + entry("emoji"@, emoji) + entry("alignment"@, alignment),
        ),
        forall|key: Seq<char>|
            #[trigger] lookup(
                a + entry("name"@, name) + entry("emoji"@, emoji) + entry("alignment"@, alignment),
                key,
            ) == if key == "alignment"@ {
                Some(alignment)
            } else if key == "emoji"@ {
                Some(emoji)
            } else if key == "name"@ {
                Some(name)
            } else {
                lookup(a, key)
            },
{
    broadcast use group_has_key;

    lemma_keys();
    let e1 = a + entry("name"@, name);
    let e2 = e1 + entry("emoji"@, emoji);
    lemma_add_entry(a, "name"@, name);
    lemma_add_entry(e1, "emoji"@, emoji);
    lemma_add_entry(e2, "alignment"@, alignment);
}

/// The property list of an accessory gives back what the accessory holds: each
/// key occurs once, and under it stands the field that it is for. The keys of
/// fields that an accessory may lack are there where it has them.
pub proof fn law_accessory_read_back(acc: BeaconAccessoryModel)
    ensures
        keys_distinct(accessory_entries(acc)),
        lookup(accessory_entries(acc), "privateKey"@) == Some(
            PlistTree::Bytes(acc.master_record.private_key),
        ),
        lookup(accessory_entries(acc), "sharedSecret"@) == Some(
            PlistTree::Bytes(acc.master_record.shared_secret),
        ),
        lookup(accessory_entries(acc), "secondarySharedSecret"@) == optional_data(
            acc.master_record.shared_secret_2,
        ),
        lookup(accessory_entries(acc), "secureLocationsSharedSecret"@) == optional_data(
            acc.master_record.secure_locations_shared_secret,
        ),
        lookup(accessory_entries(acc), "publicKey"@) == Some(
            PlistTree::Bytes(acc.master_record.public_key),
        ),
        lookup(accessory_entries(acc), "identifier"@) == Some(
            PlistTree::Text(acc.master_record.stable_identifier),
        ),
        lookup(accessory_entries(acc), "model"@) == Some(PlistTree::Text(acc.master_record.model)),
        lookup(accessory_entries(acc), "pairingDate"@) == optional_date(
            acc.master_record.pairing_date,
        ),
        lookup(accessory_entries(acc), "name"@) == Some(PlistTree::Text(acc.naming.name)),
        lookup(accessory_entries(acc), "emoji"@) == Some(PlistTree::Text(acc.naming.emoji)),
        lookup(accessory_entries(acc), "alignment"@) == Some(
            PlistTree::Entries(alignment_entries(acc)),
        ),
{
    lemma_keys();
    lemma_master_read_back(acc.master_record);
    lemma_add_three(
        master_entries(acc.master_record),
        PlistTree::Text(acc.naming.name),
        PlistTree::Text(acc.naming.emoji),
        PlistTree::Entries(alignment_entries(acc)),
    );
}

/// The alignment part of an accessory's property list gives back what the
/// alignment holds; the identifier of the alignment record is there where it
/// is not empty.
pub proof fn law_alignment_read_back(acc: BeaconAccessoryModel)
    ensures
        keys_distinct(alignment_entries(acc)),
        lookup(alignment_entries(acc), "recordIdentifier"@) == (if acc.alignment_id.len() > 0 {
            Some(PlistTree::Text(acc.alignment_id))
        } else {
            None
        }),
        lookup(alignment_entries(acc), "beaconIdentifier"@) == Some(
            PlistTree::Text(acc.alignment.beacon_identifier),
        ),
        lookup(alignment_entries(acc), "lastIndexObserved"@) == Some(
            PlistTree::Number(acc.alignment.last_index_observed as int),
        ),
        lookup(alignment_entries(acc), "lastIndexObservationDate"@) == optional_date(
            acc.alignment.last_index_observation_date,
        ),
{
    broadcast use group_has_key;

    lemma_keys();
    let value = if acc.alignment_id.len() > 0 {
        Some(PlistTree::Text(acc.alignment_id))
    } else {
        None
    };
    let beacon = PlistTree::Text(acc.alignment.beacon_identifier);
    let index = PlistTree::Number(acc.alignment.last_index_observed as int);
    let observed = optional_date(acc.alignment.last_index_observation_date);
    let none = Seq::<(Seq<char>, PlistTree)>::empty();
    let e1 = optional_entry("recordIdentifier"@, value);
    let e2 = e1 + entry("beaconIdentifier"@, beacon);
    let e3 = e2 + entry("lastIndexObserved"@, index);
    assert(none + e1 =~= e1);
    lemma_add_optional_entry(none, "recordIdentifier"@, value);
    lemma_add_entry(e1, "beaconIdentifier"@, beacon);
    lemma_add_entry(e2, "lastIndexObserved"@, index);
    lemma_add_optional_entry(e3, "lastIndexObservationDate"@, observed);
}

/// The property list of an accessory holds these entries in this order, and no
/// others: those of the fields that every accessory has, and among them, at
/// their places, those of the optional fields that this accessory has. Every
/// field stands there as it is.
pub proof fn law_accessory_layout(acc: BeaconAccessory)
    ensures
        ({
            let e = accessory_entries(acc@);
            let master = acc.master_record;
            let a: int = if master.shared_secret_2 is Some {
                1
            } else {
                0
            };
            let b: int = a + if master.secure_locations_shared_secret is Some {
                1int
            } else {
                0
            };
            let d: int = b + if master.pairing_date is Some {
                1int
            } else {
                0
            };
            &&& e.len() == 8 + d
            &&& e[0] == ("privateKey"@, PlistTree::Bytes(master.private_key@))
            &&& e[1] == ("sharedSecret"@, PlistTree::Bytes(master.shared_secret@))
            &&& master.shared_secret_2 matches Some(s) ==> e[2] == (
                "secondarySharedSecret"@,
                PlistTree::Bytes(s@),
            )
            &&& master.secure_locations_shared_secret matches Some(s) ==> e[2 + a] == (
                "secureLocationsSharedSecret"@,
                PlistTree::Bytes(s@),
            )
            &&& e[2 + b] == ("publicKey"@, PlistTree::Bytes(master.public_key@))
            &&& e[3 + b] == ("identifier"@, PlistTree::Text(master.stable_identifier@))
            &&& e[4 + b] == ("model"@, PlistTree::Text(master.model@))
            &&& master.pairing_date matches Some(t) ==> e[5 + b] == (
                "pairingDate"@,
                PlistTree::Time(t),
            )
            &&& e[5 + d] == ("name"@, PlistTree::Text(acc.naming.name@))
            &&& e[6 + d] == ("emoji"@, PlistTree::Text(acc.naming.emoji@))
            &&& e[7 + d] == ("alignment"@, PlistTree::Entries(alignment_entries(acc@)))
        }),
{
}

/// The alignment part of an accessory's property list holds these entries in
/// this order, and no others; the identifier of the alignment record and the
/// time of the observation stand there where the accessory has them.
pub proof fn law_alignment_layout(acc: BeaconAccessory)
    ensures
        ({
            let e = alignment_entries(acc@);
            let a: int = if acc.alignment_id@.len() > 0 {
                1
            } else {
                0
            };
            let d: int = a + if acc.alignment.last_index_observation_date is Some {
                1int
            } else {
                0
            };
            &&& e.len() == 2 + d
            &&& acc.alignment_id@.len() > 0 ==> e[0] == (
                "recordIdentifier"@,
                PlistTree::Text(acc.alignment_id@),
            )
            &&& e[a] == (
                "beaconIdentifier"@,
                PlistTree::Text(acc.alignment.beacon_identifier@),
            )
            &&& e[1 + a] == (
                "lastIndexObserved"@,
                PlistTree::Number(acc.alignment.last_index_observed as int),
            )
            &&& acc.alignment.last_index_observation_date matches Some(t) ==> e[2 + a] == (
                "lastIndexObservationDate"@,
                PlistTree::Time(t),
            )
        }),
{
}

/// Each optional secret of an accessory is in its property list, with all its
/// bytes whatever their number, exactly where the accessory has it.
pub proof fn law_optional_secrets_are_written(acc: BeaconAccessory)
    ensures
        match acc.master_record.shared_secret_2 {
            Some(b) => lookup(accessory_entries(acc@), "secondarySharedSecret"@) == Some(
                PlistTree::Bytes(b@),
            ),
            None => forall|i: int|
                0 <= i < accessory_entries(acc@).len() ==> (#[trigger] accessory_entries(
                    acc@,
                )[i]).0 != "secondarySharedSecret"@,
        },
        match acc.master_record.secure_locations_shared_secret {
            Some(b) => lookup(accessory_entries(acc@), "secureLocationsSharedSecret"@) == Some(
                PlistTree::Bytes(b@),
            ),
            None => forall|i: int|
                0 <= i < accessory_entries(acc@).len() ==> (#[trigger] accessory_entries(
                    acc@,
                )[i]).0 != "secureLocationsSharedSecret"@,
        },
{
    law_accessory_read_back(acc@);
    let e = accessory_entries(acc@);
    if acc.master_record.shared_secret_2 is None {
        assert(!has_key(e, "secondarySharedSecret"@));
    }
    if acc.master_record.secure_locations_shared_secret is None {
        assert(!has_key(e, "secureLocationsSharedSecret"@));
    }
}

/// Each time of an accessory is in its property list exactly where the accessory
/// has it.
pub proof fn law_optional_dates_are_written(acc: BeaconAccessory)
    ensures
        match acc.master_record.pairing_date {
            Some(t) => lookup(accessory_entries(acc@), "pairingDate"@) == Some(PlistTree::Time(t)),
            None => forall|i: int|
                0 <= i < accessory_entries(acc@).len() ==> (#[trigger] accessory_entries(
                    acc@,
                )[i]).0 != "pairingDate"@,
        },
        match acc.alignment.last_index_observation_date {
            Some(t) => lookup(alignment_entries(acc@), "lastIndexObservationDate"@) == Some(
                PlistTree::Time(t),
            ),
            None => forall|i: int|
                0 <= i < alignment_entries(acc@).len() ==> (#[trigger] alignment_entries(
                    acc@,
                )[i]).0 != "lastIndexObservationDate"@,
        },
{
    law_accessory_read_back(acc@);
    law_alignment_read_back(acc@);
    if acc.master_record.pairing_date is None {
        assert(!has_key(accessory_entries(acc@), "pairingDate"@));
    }
    if acc.alignment.last_index_observation_date is None {
        assert(!has_key(alignment_entries(acc@), "lastIndexObservationDate"@));
    }
}

} // verus!
