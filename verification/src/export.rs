//! What is written to which file.

use crate::accessory_plist::{accessory_entries, accessory_to_plist, law_accessory_read_back};
use crate::assembly::{is_assembly, law_one_accessory_per_master, Masters};
use crate::entries::{as_map, key_index, keys_distinct, lemma_lookup_entry, lookup};
use crate::filename::{
    accessory_filename, filename_of, is_safe_filename, law_filename_is_free, law_filename_is_safe,
    law_name_available, name_available, name_base, UsedNames,
};
use crate::property_list::{value_tree, PlistTree};
use crate::record_book::BookModel;
use crate::records::{BeaconAccessory, BeaconAccessoryModel, MasterBeaconModel};
use crate::string_table::pairs_of;
use vstd::prelude::*;

verus! {

/// The accessories that are exported, each under its identifier, in the order
/// in which they get their file names.
pub type Accessories = Seq<(Seq<char>, BeaconAccessoryModel)>;

/// The file names of the first `n` accessories.
pub open spec fn used_after(accessories: Accessories, n: nat) -> Set<Seq<char>>
    decreases n,
{
    if n == 0 {
        Set::empty()
    } else {
        let before = used_after(accessories, (n - 1) as nat);
        before.insert(filename_of(accessories[n - 1].1, before))
    }
}

/// The file name of the `i`-th accessory: one that no earlier accessory has.
pub open spec fn filename_at(accessories: Accessories, i: int) -> Seq<char> {
    filename_of(accessories[i].1, used_after(accessories, i as nat))
}

/// Whether the numbers that a file name may carry suffice for all accessories.
pub open spec fn names_suffice(accessories: Accessories) -> bool {
    forall|i: int|
        0 <= i < accessories.len() ==> name_available(
            name_base((#[trigger] accessories[i]).1),
            used_after(accessories, i as nat),
        )
}

/// A file for each accessory, in the order given: its name, and the property
/// list to write to it.
///
/// The numbers that a file name may carry have to suffice, which they do for
/// any number of accessories below `i32::MAX` ([`law_names_suffice`]).
pub fn plan_exports(accessories: &Vec<(String, BeaconAccessory)>) -> (files: Vec<
    (String, plist::Value),
>)
    requires
        names_suffice(pairs_of(accessories@)),
    ensures
        files@.len() == accessories@.len(),
        forall|i: int|
            0 <= i < files@.len() ==> {
                &&& (#[trigger] files@[i]).0@ == filename_at(pairs_of(accessories@), i)
                &&& value_tree(files@[i].1) == PlistTree::Entries(
                    accessory_entries(accessories@[i].1@),
                )
            },
{
    let ghost all = pairs_of(accessories@);
    let mut used_names = UsedNames::new();
    let mut files: Vec<(String, plist::Value)> = Vec::new();
    let mut i: usize = 0;
    while i < accessories.len()
        invariant
            i <= accessories@.len(),
            all == pairs_of(accessories@),
            names_suffice(all),
            used_names@ == used_after(all, i as nat),
            files@.len() == i,
            forall|j: int|
                0 <= j < files@.len() ==> {
                    &&& (#[trigger] files@[j]).0@ == filename_at(all, j)
                    &&& value_tree(files@[j].1) == PlistTree::Entries(
                        accessory_entries(accessories@[j].1@),
                    )
                },
        decreases accessories@.len() - i,
    {
        let acc = &accessories[i].1;
        assert(all[i as int].1 == acc@);
        let filename = accessory_filename(acc, &mut used_names);
        let value = accessory_to_plist(acc);
        files.push((filename, value));
        i = i + 1;
    }
    files
}

/// The names given so far are finitely many, at most one per accessory.
proof fn lemma_used_len(accessories: Accessories, n: nat)
    ensures
        used_after(accessories, n).finite(),
        used_after(accessories, n).len() <= n,
    decreases n,
{
    if n > 0 {
        lemma_used_len(accessories, (n - 1) as nat);
    }
}

/// The numbers that a file name may carry suffice for any number of accessories
/// below `i32::MAX`.
pub proof fn law_names_suffice(accessories: Accessories)
    requires
        accessories.len() < i32::MAX,
    ensures
        names_suffice(accessories),
{
    assert forall|i: int| 0 <= i < accessories.len() implies name_available(
        name_base((#[trigger] accessories[i]).1),
        used_after(accessories, i as nat),
    ) by {
        lemma_used_len(accessories, i as nat);
        law_name_available(name_base(accessories[i].1), used_after(accessories, i as nat));
    }
}

/// The file name of an accessory is among those given once it had its turn.
proof fn lemma_used_contains(accessories: Accessories, i: int, n: nat)
    requires
        0 <= i < n,
    ensures
        used_after(accessories, n).contains(filename_at(accessories, i)),
    decreases n,
{
    if i < n - 1 {
        lemma_used_contains(accessories, i, (n - 1) as nat);
    }
}

/// No two accessories are written to the same file.
pub proof fn law_filenames_differ(accessories: Accessories, i: int, j: int)
    requires
        names_suffice(accessories),
        0 <= i < j < accessories.len(),
    ensures
        filename_at(accessories, i) != filename_at(accessories, j),
{
    lemma_used_contains(accessories, i, j as nat);
    law_filename_is_free(accessories[j].1, used_after(accessories, j as nat));
}

/// Every file name is a stem of safe characters followed by `.plist`.
pub proof fn law_filenames_are_safe(accessories: Accessories, i: int)
    requires
        0 <= i < accessories.len(),
    ensures
        is_safe_filename(filename_at(accessories, i)),
{
    law_filename_is_safe(accessories[i].1, used_after(accessories, i as nat));
}

/// The key material of every master record in the book is exported: one of the
/// accessories has its identifier, no other accessory has, and the property list
/// of that accessory gives the record's fields back.
pub proof fn law_every_master_is_exported(
    book: BookModel,
    masters: Masters,
    accessories: Accessories,
    id: Seq<char>,
)
    requires
        keys_distinct(masters),
        as_map(masters) == book.masters,
        accessories.len() == masters.len(),
        is_assembly(accessories, masters, book.namings, book.alignments),
        book.masters.contains_key(id),
    ensures
        exists|i: int|
            {
                &&& 0 <= i < accessories.len()
                &&& #[trigger] holds_fields_of(accessories[i].1, book.masters[id])
                &&& accessories[i].0 == id
                &&& forall|j: int|
                    0 <= j < accessories.len() && j != i ==> (#[trigger] accessories[j]).0 != id
            },
{
    law_one_accessory_per_master(accessories, masters, book.namings, book.alignments);
    assert(as_map(masters).contains_key(id));
    assert(as_map(accessories).contains_key(id));
    let i = key_index(accessories, id);
    lemma_lookup_entry(accessories, i);
    assert(as_map(accessories)[id] == accessories[i].1);
    law_accessory_read_back(accessories[i].1);
    assert(holds_fields_of(accessories[i].1, book.masters[id]));
    assert forall|j: int| 0 <= j < accessories.len() && j != i implies (
    #[trigger] accessories[j]).0 != id by {
        if j < i {
            assert(accessories[j].0 != accessories[i].0);
        } else {
            assert(accessories[i].0 != accessories[j].0);
        }
    }
}

/// Whether the property list of an accessory gives the fields of a master
/// record back.
pub open spec fn holds_fields_of(acc: BeaconAccessoryModel, master: MasterBeaconModel) -> bool {
    let entries = accessory_entries(acc);
    &&& lookup(entries, "privateKey"@) == Some(PlistTree::Bytes(master.private_key))
    &&& lookup(entries, "sharedSecret"@) == Some(PlistTree::Bytes(master.shared_secret))
    &&& match master.shared_secret_2 {
        Some(b) => lookup(entries, "secondarySharedSecret"@) == Some(PlistTree::Bytes(b)),
        None => lookup(entries, "secondarySharedSecret"@) is None,
    }
    &&& match master.secure_locations_shared_secret {
        Some(b) => lookup(entries, "secureLocationsSharedSecret"@) == Some(PlistTree::Bytes(b)),
        None => lookup(entries, "secureLocationsSharedSecret"@) is None,
    }
    &&& lookup(entries, "publicKey"@) == Some(PlistTree::Bytes(master.public_key))
    &&& lookup(entries, "identifier"@) == Some(PlistTree::Text(master.stable_identifier))
    &&& lookup(entries, "model"@) == Some(PlistTree::Text(master.model))
    &&& match master.pairing_date {
        Some(t) => lookup(entries, "pairingDate"@) == Some(PlistTree::Time(t)),
        None => lookup(entries, "pairingDate"@) is None,
    }
}

/// The file name of an accessory is the one that it gets where exactly the file
/// names of the accessories before it are taken.
pub proof fn law_earlier_names_are_taken(accessories: Seq<(String, BeaconAccessory)>, i: int)
    requires
        0 <= i < accessories.len(),
    ensures
        exists|names: Set<Seq<char>>|
            {
                &&& filename_at(pairs_of(accessories), i) == #[trigger] filename_of(
                    accessories[i].1@,
                    names,
                )
                &&& names.finite() && names.len() <= i
                &&& forall|name: Seq<char>| #[trigger]
                    names.contains(name) <==> exists|j: int|
                        0 <= j < i && #[trigger] filename_at(pairs_of(accessories), j) == name
            },
{
    let all = pairs_of(accessories);
    let names = used_after(all, i as nat);
    lemma_used_len(all, i as nat);
    assert forall|name: Seq<char>| #[trigger] names.contains(name) <==> exists|j: int|
        0 <= j < i && #[trigger] filename_at(all, j) == name by {
        if names.contains(name) {
            lemma_used_only(all, name, i as nat);
        }
        if exists|j: int| 0 <= j < i && #[trigger] filename_at(all, j) == name {
            let j = choose|j: int| 0 <= j < i && #[trigger] filename_at(all, j) == name;
            lemma_used_contains(all, j, i as nat);
        }
    }
    assert(filename_at(all, i) == filename_of(accessories[i].1@, names));
}

/// A name that was given is the file name of an accessory that had its turn.
proof fn lemma_used_only(accessories: Accessories, name: Seq<char>, n: nat)
    requires
        used_after(accessories, n).contains(name),
    ensures
        exists|j: int| 0 <= j < n && #[trigger] filename_at(accessories, j) == name,
    decreases n,
{
    if n > 0 {
        if used_after(accessories, (n - 1) as nat).contains(name) {
            lemma_used_only(accessories, name, (n - 1) as nat);
        } else {
            assert(filename_at(accessories, n - 1) == name);
        }
    }
}

/// Fewer than `i32::MAX` accessories are written to as many different files.
pub proof fn law_one_file_per_accessory(
    accessories: Seq<(String, BeaconAccessory)>,
    i: int,
    j: int,
)
    requires
        accessories.len() < i32::MAX,
        0 <= i < j < accessories.len(),
    ensures
        filename_at(pairs_of(accessories), i) != filename_at(pairs_of(accessories), j),
{
    law_names_suffice(pairs_of(accessories));
    law_filenames_differ(pairs_of(accessories), i, j);
}

} // verus!
