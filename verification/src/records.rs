//! The records kept for a FindMy accessory, and the accessory they make up.
//!
//! Each type has a mathematical twin, its view, in which strings and byte
//! vectors are sequences; contracts speak of the views.

use std::time::SystemTime;
use vstd::prelude::*;

verus! {

/// `std::time::SystemTime`, carried through as an opaque value.
#[verifier::external_type_specification]
#[verifier::external_body]
pub struct ExSystemTime(SystemTime);

/// The key material and identity of an accessory.
pub struct MasterBeaconRecord {
    pub private_key: Vec<u8>,
    pub shared_secret: Vec<u8>,
    pub shared_secret_2: Option<Vec<u8>>,
    pub secure_locations_shared_secret: Option<Vec<u8>>,
    pub public_key: Vec<u8>,
    pub stable_identifier: String,
    pub model: String,
    pub pairing_date: Option<SystemTime>,
}

/// The view of a [`MasterBeaconRecord`].
pub struct MasterBeaconModel {
    pub private_key: Seq<u8>,
    pub shared_secret: Seq<u8>,
    pub shared_secret_2: Option<Seq<u8>>,
    pub secure_locations_shared_secret: Option<Seq<u8>>,
    pub public_key: Seq<u8>,
    pub stable_identifier: Seq<char>,
    pub model: Seq<char>,
    pub pairing_date: Option<SystemTime>,
}

/// The bytes of an optional vector.
pub open spec fn optional_bytes(bytes: Option<Vec<u8>>) -> Option<Seq<u8>> {
    match bytes {
        Some(b) => Some(b@),
        None => None,
    }
}

impl View for MasterBeaconRecord {
    type V = MasterBeaconModel;

    open spec fn view(&self) -> MasterBeaconModel {
        MasterBeaconModel {
            private_key: self.private_key@,
            shared_secret: self.shared_secret@,
            shared_secret_2: optional_bytes(self.shared_secret_2),
            secure_locations_shared_secret: optional_bytes(self.secure_locations_shared_secret),
            public_key: self.public_key@,
            stable_identifier: self.stable_identifier@,
            model: self.model@,
            pairing_date: self.pairing_date,
        }
    }
}

/// The name that the owner gave an accessory.
pub struct BeaconNamingRecord {
    pub emoji: String,
    pub name: String,
    pub associated_beacon: String,
    pub role_id: i64,
}

/// The view of a [`BeaconNamingRecord`].
pub struct BeaconNamingModel {
    pub emoji: Seq<char>,
    pub name: Seq<char>,
    pub associated_beacon: Seq<char>,
    pub role_id: i64,
}

impl View for BeaconNamingRecord {
    type V = BeaconNamingModel;

    open spec fn view(&self) -> BeaconNamingModel {
        BeaconNamingModel {
            emoji: self.emoji@,
            name: self.name@,
            associated_beacon: self.associated_beacon@,
            role_id: self.role_id,
        }
    }
}

/// How far the rolling keys of an accessory had advanced when it was last
/// observed.
pub struct KeyAlignmentRecord {
    pub beacon_identifier: String,
    pub last_index_observed: i64,
    pub last_index_observation_date: Option<SystemTime>,
}

/// The view of a [`KeyAlignmentRecord`].
pub struct KeyAlignmentModel {
    pub beacon_identifier: Seq<char>,
    pub last_index_observed: i64,
    pub last_index_observation_date: Option<SystemTime>,
}

impl View for KeyAlignmentRecord {
    type V = KeyAlignmentModel;

    open spec fn view(&self) -> KeyAlignmentModel {
        KeyAlignmentModel {
            beacon_identifier: self.beacon_identifier@,
            last_index_observed: self.last_index_observed,
            last_index_observation_date: self.last_index_observation_date,
        }
    }
}

impl Clone for KeyAlignmentRecord {
    fn clone(&self) -> (out: Self)
        ensures
            out == *self,
    {
        KeyAlignmentRecord {
            beacon_identifier: self.beacon_identifier.clone(),
            last_index_observed: self.last_index_observed,
            last_index_observation_date: self.last_index_observation_date,
        }
    }
}

/// The alignment of an accessory that was never observed.
pub open spec fn no_alignment() -> KeyAlignmentModel {
    KeyAlignmentModel {
        beacon_identifier: Seq::empty(),
        last_index_observed: 0,
        last_index_observation_date: None,
    }
}

impl Default for KeyAlignmentRecord {
    fn default() -> (out: Self)
        ensures
            out@ == no_alignment(),
            out.beacon_identifier@.len() == 0,
            out.last_index_observed == 0,
            out.last_index_observation_date is None,
    {
        KeyAlignmentRecord {
            beacon_identifier: String::new(),
            last_index_observed: 0,
            last_index_observation_date: None,
        }
    }
}

/// An accessory: its master record, its name and its alignment, the last two
/// with the identifiers of the records that they came from.
pub struct BeaconAccessory {
    pub master_record: MasterBeaconRecord,
    pub naming: BeaconNamingRecord,
    pub naming_id: String,
    pub alignment: KeyAlignmentRecord,
    pub alignment_id: String,
    pub local_alignment: KeyAlignmentRecord,
}

/// The view of a [`BeaconAccessory`].
pub struct BeaconAccessoryModel {
    pub master_record: MasterBeaconModel,
    pub naming: BeaconNamingModel,
    pub naming_id: Seq<char>,
    pub alignment: KeyAlignmentModel,
    pub alignment_id: Seq<char>,
    pub local_alignment: KeyAlignmentModel,
}

impl View for BeaconAccessory {
    type V = BeaconAccessoryModel;

    open spec fn view(&self) -> BeaconAccessoryModel {
        BeaconAccessoryModel {
            master_record: self.master_record@,
            naming: self.naming@,
            naming_id: self.naming_id@,
            alignment: self.alignment@,
            alignment_id: self.alignment_id@,
            local_alignment: self.local_alignment@,
        }
    }
}

/// The view of a master record has each field of the record as it is.
pub proof fn law_master_view(record: MasterBeaconRecord)
    ensures
        record@.private_key == record.private_key@,
        record@.shared_secret == record.shared_secret@,
        record.shared_secret_2 is Some <==> record@.shared_secret_2 is Some,
        record.shared_secret_2 matches Some(s) ==> record@.shared_secret_2 == Some(s@),
        record.secure_locations_shared_secret is Some
            <==> record@.secure_locations_shared_secret is Some,
        record.secure_locations_shared_secret matches Some(s)
            ==> record@.secure_locations_shared_secret == Some(s@),
        record@.public_key == record.public_key@,
        record@.stable_identifier == record.stable_identifier@,
        record@.model == record.model@,
        record@.pairing_date == record.pairing_date,
{
}

/// The view of a naming record has each field of the record as it is.
pub proof fn law_naming_view(record: BeaconNamingRecord)
    ensures
        record@.emoji == record.emoji@,
        record@.name == record.name@,
        record@.associated_beacon == record.associated_beacon@,
        record@.role_id == record.role_id,
{
}

/// The view of an alignment record has each field of the record as it is.
pub proof fn law_alignment_view(record: KeyAlignmentRecord)
    ensures
        record@.beacon_identifier == record.beacon_identifier@,
        record@.last_index_observed == record.last_index_observed,
        record@.last_index_observation_date == record.last_index_observation_date,
{
}

/// The view of an accessory has each part of the accessory as it is.
pub proof fn law_accessory_view(acc: BeaconAccessory)
    ensures
        acc@.master_record == acc.master_record@,
        acc@.naming == acc.naming@,
        acc@.naming_id == acc.naming_id@,
        acc@.alignment == acc.alignment@,
        acc@.alignment_id == acc.alignment_id@,
        acc@.local_alignment == acc.local_alignment@,
{
}

} // verus!
