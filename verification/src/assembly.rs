//! Putting accessories together from their records.

use crate::filename::at_most;
use crate::entries::{as_map, has_key, key_index, keys_distinct, lemma_lookup_entry};
use crate::record_book::{Alignments, Namings, RecordBook};
use crate::records::{
    no_alignment, BeaconAccessory, BeaconAccessoryModel, BeaconNamingModel, BeaconNamingRecord,
    KeyAlignmentModel, KeyAlignmentRecord, MasterBeaconModel, MasterBeaconRecord,
};
use crate::string_table::{pairs_of, StringTable};
use vstd::prelude::*;
use vstd::utf8::{decode_utf8, encode_utf8, is_char_boundary};

verus! {

/// The start of an identifier that stands in the name of an accessory without
/// a name: its first eight bytes, or all where there are fewer. There is none
/// where the eight bytes end within a character.
pub open spec fn short_id(id: Seq<char>) -> Option<Seq<char>> {
    let bytes = encode_utf8(id);
    let end = if bytes.len() < 8 {
        bytes.len() as int
    } else {
        8
    };
    if is_char_boundary(bytes, end) {
        Some(decode_utf8(bytes.subrange(0, end)))
    } else {
        None
    }
}

/// The start of `id` that stands in the name of an accessory without a name.
pub fn shorten_id(id: &str) -> (out: Option<String>)
    ensures
        match out {
            Some(s) => short_id(id@) == Some(s@),
            None => short_id(id@) is None,
        },
        match out {
            Some(s) => {
                &&& s@.is_prefix_of(id@)
                &&& encode_utf8(s@).len() == if encode_utf8(id@).len() < 8 {
                    encode_utf8(id@).len()
                } else {
                    8
                }
            },
            None => encode_utf8(id@).len() > 8 && !is_char_boundary(encode_utf8(id@), 8),
        },
{
    let bytes = id.as_bytes();
    let end: usize = if bytes.len() < 8 {
        bytes.len()
    } else {
        8
    };
    proof {
        vstd::utf8::encode_utf8_valid_utf8(id@);
        vstd::utf8::is_char_boundary_start_end_of_seq(encode_utf8(id@));
    }
    if !id.is_char_boundary(end) {
        return None;
    }
    let (head, _) = id.split_at(end);
    proof {
        vstd::utf8::encode_utf8_decode_utf8(head@);
        assert(encode_utf8(head@) == encode_utf8(id@).subrange(0, end as int));
        law_short_id_is_start(id@);
    }
    Some(head.to_owned())
}

/// The short form of an identifier is a start of it, eight bytes long, or all
/// of it where that has fewer.
pub proof fn law_short_id_is_start(id: Seq<char>)
    requires
        short_id(id) is Some,
    ensures
        short_id(id)->0.is_prefix_of(id),
        encode_utf8(short_id(id)->0).len() == if encode_utf8(id).len() < 8 {
            encode_utf8(id).len()
        } else {
            8
        },
{
    let bytes = encode_utf8(id);
    let end = if bytes.len() < 8 {
        bytes.len() as int
    } else {
        8
    };
    let short = bytes.subrange(0, end);
    let rest = bytes.subrange(end, bytes.len() as int);
    vstd::utf8::encode_utf8_valid_utf8(id);
    vstd::utf8::encode_utf8_decode_utf8(id);
    vstd::utf8::valid_utf8_split(bytes, end);
    vstd::utf8::decode_utf8_split(bytes, end);
    vstd::utf8::decode_utf8_encode_utf8(short);
    assert(id == decode_utf8(short) + decode_utf8(rest));
    assert(id.subrange(0, decode_utf8(short).len() as int) =~= decode_utf8(short));
}

/// An identifier in ASCII always has a short form: its first eight characters.
pub proof fn law_short_id_of_ascii(id: Seq<char>)
    requires
        vstd::utf8::is_ascii_chars(id),
    ensures
        short_id(id) == Some(at_most(id, 8)),
{
    let bytes = encode_utf8(id);
    let head = at_most(id, 8);
    let end = head.len() as int;
    vstd::utf8::encode_utf8_valid_utf8(id);
    vstd::utf8::is_ascii_chars_encode_utf8(id);
    assert(vstd::utf8::is_ascii_chars(head));
    vstd::utf8::is_ascii_chars_encode_utf8(head);
    assert(bytes.subrange(0, end) =~= encode_utf8(head)) by {
        assert forall|i: int| 0 <= i < end implies bytes[i] == #[trigger] encode_utf8(head)[i] by {
            assert(head[i] == id[i]);
            assert(id[i] as u8 == bytes[i]);
        }
    }
    vstd::utf8::encode_utf8_decode_utf8(head);
    if end < bytes.len() {
        assert(id[end] as u8 == bytes[end]);
        let c = id[end];
        lemma_ascii_byte(c);
        vstd::utf8::is_char_boundary_iff_not_is_continuation_byte(bytes, end);
    } else {
        vstd::utf8::is_char_boundary_start_end_of_seq(bytes);
    }
}

/// The byte of an ASCII character continues no other character.
proof fn lemma_ascii_byte(c: char)
    requires
        c <= '\u{7f}',
    ensures
        !vstd::utf8::is_continuation_byte(c as u8),
{
    assert(c as u8 == c as int);
}

/// The naming record of an accessory that was given no name.
pub open spec fn unknown_naming(stable_id: Seq<char>, short: Seq<char>) -> BeaconNamingModel {
    BeaconNamingModel {
        emoji: Seq::empty(),
        name: "Unknown-"@ + short,
        associated_beacon: stable_id,
        role_id: 0,
    }
}

/// The accessory of a master record, with its naming and alignment records and
/// their identifiers where it has them. There is none where it has no naming
/// record, and its identifier no short form.
pub open spec fn accessory_of(
    master: MasterBeaconModel,
    naming: Option<(Seq<char>, BeaconNamingModel)>,
    alignment: Option<(Seq<char>, KeyAlignmentModel)>,
) -> Option<BeaconAccessoryModel> {
    let short = short_id(master.stable_identifier);
    if naming is None && short is None {
        None
    } else {
        let (naming_id, naming) = match naming {
            Some(n) => n,
            None => (Seq::empty(), unknown_naming(master.stable_identifier, short->0)),
        };
        let (alignment_id, alignment) = match alignment {
            Some(a) => a,
            None => (Seq::empty(), no_alignment()),
        };
        Some(
            BeaconAccessoryModel {
                master_record: master,
                naming,
                naming_id,
                alignment,
                alignment_id,
                local_alignment: alignment,
            },
        )
    }
}

/// The accessory of a master record, with its naming and alignment records
/// where it has them.
pub fn make_accessory(
    master: MasterBeaconRecord,
    naming: Option<(String, BeaconNamingRecord)>,
    alignment: Option<(String, KeyAlignmentRecord)>,
) -> (out: Option<BeaconAccessory>)
    ensures
        match out {
            Some(acc) => accessory_of(
                master@,
                naming_view(naming),
                alignment_view(alignment),
            ) == Some(acc@),
            None => accessory_of(
                master@,
                naming_view(naming),
                alignment_view(alignment),
            ) is None,
        },
        out matches Some(acc) ==> {
            &&& acc.master_record == master
            &&& match naming {
                Some(n) => acc.naming_id == n.0 && acc.naming == n.1,
                None => {
                    &&& acc.naming_id@.len() == 0
                    &&& acc.naming.emoji@.len() == 0
                    &&& short_id(master.stable_identifier@) is Some
                    &&& acc.naming.name@ == "Unknown-"@ + short_id(
                        master.stable_identifier@,
                    )->0
                    &&& acc.naming.associated_beacon@ == master.stable_identifier@
                    &&& acc.naming.role_id == 0
                },
            }
            &&& match alignment {
                Some(a) => {
                    &&& acc.alignment_id == a.0
                    &&& acc.alignment == a.1
                    &&& acc.local_alignment == a.1
                },
                None => {
                    &&& acc.alignment_id@.len() == 0
                    &&& acc.alignment.beacon_identifier@.len() == 0
                    &&& acc.alignment.last_index_observed == 0
                    &&& acc.alignment.last_index_observation_date is None
                    &&& acc.local_alignment == acc.alignment
                },
            }
        },
        out is None ==> naming is None && encode_utf8(master.stable_identifier@).len() > 8
            && !is_char_boundary(encode_utf8(master.stable_identifier@), 8),
{
    let (naming_id, naming) = match naming {
        Some(n) => n,
        None => {
            let short = match shorten_id(master.stable_identifier.as_str()) {
                Some(s) => s,
                None => {
                    return None;
                },
            };
            let mut name = "Unknown-".to_owned();
            name.append(short.as_str());
            (
                String::new(),
                BeaconNamingRecord {
                    emoji: String::new(),
                    name,
                    associated_beacon: master.stable_identifier.clone(),
                    role_id: 0,
                },
            )
        },
    };
    let (alignment_id, alignment) = match alignment {
        Some(a) => a,
        None => (String::new(), KeyAlignmentRecord::default()),
    };
    Some(
        BeaconAccessory {
            master_record: master,
            naming,
            naming_id,
            alignment: alignment.clone(),
            alignment_id,
            local_alignment: alignment,
        },
    )
}

/// The view of an optional naming record with its identifier.
pub open spec fn naming_view(naming: Option<(String, BeaconNamingRecord)>) -> Option<
    (Seq<char>, BeaconNamingModel),
> {
    match naming {
        Some(n) => Some((n.0@, n.1@)),
        None => None,
    }
}

/// The view of an optional alignment record with its identifier.
pub open spec fn alignment_view(alignment: Option<(String, KeyAlignmentRecord)>) -> Option<
    (Seq<char>, KeyAlignmentModel),
> {
    match alignment {
        Some(a) => Some((a.0@, a.1@)),
        None => None,
    }
}

/// The master records under their identifiers, in the order in which
/// accessories are made of them.
pub type Masters = Seq<(Seq<char>, MasterBeaconModel)>;

/// Whether no master record before the `i`-th has the same stable identifier.
pub open spec fn comes_first(masters: Masters, i: int) -> bool {
    forall|j: int|
        0 <= j < i ==> (#[trigger] masters[j]).1.stable_identifier
            != masters[i].1.stable_identifier
}

/// The record, of those kept by stable identifier, that the `i`-th accessory
/// gets: the first accessory with an identifier takes the record away.
pub open spec fn claimed<R>(masters: Masters, records: Map<Seq<char>, R>, i: int) -> Option<R> {
    let stable_id = masters[i].1.stable_identifier;
    if comes_first(masters, i) && records.contains_key(stable_id) {
        Some(records[stable_id])
    } else {
        None
    }
}

/// The accessory that is made of the `i`-th master record.
pub open spec fn assembled(
    masters: Masters,
    namings: Namings,
    alignments: Alignments,
    i: int,
) -> Option<BeaconAccessoryModel> {
    accessory_of(
        masters[i].1,
        claimed(masters, namings, i),
        claimed(masters, alignments, i),
    )
}

/// Whether `list` holds the accessories made of the first master records, as
/// many as it is long, each under the identifier of its master record.
pub open spec fn is_assembly(
    list: Seq<(Seq<char>, BeaconAccessoryModel)>,
    masters: Masters,
    namings: Namings,
    alignments: Alignments,
) -> bool {
    forall|i: int|
        0 <= i < list.len() ==> {
            &&& (#[trigger] list[i]).0 == masters[i].0
            &&& assembled(masters, namings, alignments, i) == Some(list[i].1)
        }
}

/// Whether `out` is what becomes of the master records: the accessories made of
/// them, or nothing where none can be made of one of them.
pub open spec fn assembles_to(
    out: Option<Vec<(String, BeaconAccessory)>>,
    masters: Masters,
    namings: Namings,
    alignments: Alignments,
) -> bool {
    match out {
        Some(list) => {
            &&& list@.len() == masters.len()
            &&& is_assembly(pairs_of(list@), masters, namings, alignments)
        },
        None => exists|i: int|
            0 <= i < masters.len() && (#[trigger] assembled(
                masters,
                namings,
                alignments,
                i,
            )) is None,
    }
}

/// The stable identifiers of the first `n` master records.
spec fn used_ids(masters: Masters, n: int) -> Set<Seq<char>> {
    Set::new(
        |id: Seq<char>|
            exists|j: int| 0 <= j < n && (#[trigger] masters[j]).1.stable_identifier == id,
    )
}

/// The records that remain when the first `n` accessories took theirs.
spec fn unclaimed<R>(masters: Masters, records: Map<Seq<char>, R>, n: int) -> Map<Seq<char>, R> {
    records.remove_keys(used_ids(masters, n))
}

/// Taking a record away leaves those that no accessory took so far.
proof fn lemma_unclaimed<R>(masters: Masters, records: Map<Seq<char>, R>, n: int)
    requires
        0 <= n < masters.len(),
    ensures
        unclaimed(masters, records, n).remove(masters[n].1.stable_identifier) == unclaimed(
            masters,
            records,
            n + 1,
        ),
        unclaimed(masters, records, n).contains_key(masters[n].1.stable_identifier) <==> claimed(
            masters,
            records,
            n,
        ) is Some,
        claimed(masters, records, n) is Some ==> unclaimed(
            masters,
            records,
            n,
        )[masters[n].1.stable_identifier] == claimed(masters, records, n)->0,
{
    let stable_id = masters[n].1.stable_identifier;
    assert(used_ids(masters, n + 1) =~= used_ids(masters, n).insert(stable_id));
    assert(unclaimed(masters, records, n).remove(stable_id) =~= unclaimed(masters, records, n + 1));
    assert(comes_first(masters, n) <==> !used_ids(masters, n).contains(stable_id));
}

/// Makes an accessory of each master record, in the order given. An accessory
/// takes the naming and alignment records under its stable identifier away, so
/// that a later one with the same identifier does not get them.
///
/// There is no result where one of the accessories has no naming record, and
/// its identifier no short form to name it by.
pub fn assemble_accessories(
    masters: Vec<(String, MasterBeaconRecord)>,
    namings: StringTable<(String, BeaconNamingRecord)>,
    alignments: StringTable<(String, KeyAlignmentRecord)>,
) -> (out: Option<Vec<(String, BeaconAccessory)>>)
    ensures
        assembles_to(out, pairs_of(masters@), namings@, alignments@),
        match out {
            Some(list) => {
                &&& list@.len() == masters@.len()
                &&& forall|i: int|
                    0 <= i < list@.len() ==> {
                        &&& (#[trigger] list@[i]).0 == masters@[i].0
                        &&& list@[i].1.master_record == masters@[i].1
                        &&& assembled(pairs_of(masters@), namings@, alignments@, i) == Some(
                            list@[i].1@,
                        )
                    }
            },
            None => exists|i: int|
                0 <= i < masters@.len() && (#[trigger] assembled(
                    pairs_of(masters@),
                    namings@,
                    alignments@,
                    i,
                )) is None,
        },
{
    let ghost all = pairs_of(masters@);
    let ghost all_namings = namings@;
    let ghost all_alignments = alignments@;
    let mut free_namings = namings;
    let mut free_alignments = alignments;
    let mut list: Vec<(String, BeaconAccessory)> = Vec::new();
    proof {
        assert(free_namings@ =~= unclaimed(all, all_namings, 0));
        assert(free_alignments@ =~= unclaimed(all, all_alignments, 0));
    }
    for pair in it: masters
        invariant
            it.seq() == masters@,
            all == pairs_of(masters@),
            all_namings == namings@,
            all_alignments == alignments@,
            free_namings@ == unclaimed(all, all_namings, it.index() as int),
            free_alignments@ == unclaimed(all, all_alignments, it.index() as int),
            list@.len() == it.index(),
            is_assembly(pairs_of(list@), all, all_namings, all_alignments),
            forall|i: int|
                0 <= i < list@.len() ==> {
                    &&& (#[trigger] list@[i]).0 == masters@[i].0
                    &&& list@[i].1.master_record == masters@[i].1
                    &&& assembled(all, all_namings, all_alignments, i) == Some(list@[i].1@)
                },
    {
        let ghost n = it.index() as int;
        let ghost before = pairs_of(list@);
        let (id, master) = pair;
        proof {
            assert(all[n] == (id@, master@));
            lemma_unclaimed(all, all_namings, n);
            lemma_unclaimed(all, all_alignments, n);
        }
        let naming = free_namings.remove(master.stable_identifier.as_str());
        let alignment = free_alignments.remove(master.stable_identifier.as_str());
        proof {
            assert(naming_view(naming) == claimed(all, all_namings, n));
            assert(alignment_view(alignment) == claimed(all, all_alignments, n));
        }
        match make_accessory(master, naming, alignment) {
            Some(acc) => {
                list.push((id, acc));
                proof {
                    assert(pairs_of(list@) =~= before.push((id@, acc@)));
                }
            },
            None => {
                assert(assembled(all, all_namings, all_alignments, n) is None);
                return None;
            },
        }
    }
    Some(list)
}

impl RecordBook {
    /// Makes the accessories of the book: the master records are taken each
    /// once, in some order.
    pub fn assemble(self) -> (out: Option<Vec<(String, BeaconAccessory)>>)
        ensures
            exists|masters: Masters|
                {
                    &&& keys_distinct(masters)
                    &&& as_map(masters) == self@.masters
                    &&& #[trigger] assembles_to(
                        out,
                        masters,
                        self@.namings,
                        self@.alignments,
                    )
                    &&& out matches Some(list) ==> {
                        &&& list@.len() == masters.len()
                        &&& forall|i: int|
                            0 <= i < list@.len() ==> {
                                &&& (#[trigger] list@[i]).0@ == masters[i].0
                                &&& assembled(masters, self@.namings, self@.alignments, i)
                                    == Some(list@[i].1@)
                            }
                    }
                    &&& out is None ==> exists|i: int|
                        0 <= i < masters.len() && (#[trigger] assembled(
                            masters,
                            self@.namings,
                            self@.alignments,
                            i,
                        )) is None
                },
    {
        let masters = self.masters.into_entries();
        let ghost order = pairs_of(masters@);
        let out = assemble_accessories(masters, self.namings, self.alignments);
        proof {
            assert(keys_distinct(order));
            assert(as_map(order) == self@.masters);
            assert(assembles_to(out, order, self@.namings, self@.alignments));
        }
        out
    }
}

/// Whether no two master records have the same stable identifier.
pub open spec fn stable_ids_distinct(masters: Masters) -> bool {
    forall|i: int, j: int|
        0 <= i < j < masters.len() ==> (#[trigger] masters[i]).1.stable_identifier != (
        #[trigger] masters[j]).1.stable_identifier
}

/// The record under a key, where there is one.
pub open spec fn record_for<R>(records: Map<Seq<char>, R>, key: Seq<char>) -> Option<R> {
    if records.contains_key(key) {
        Some(records[key])
    } else {
        None
    }
}

/// Where no two master records have the same stable identifier, every accessory
/// gets the records under its own.
pub proof fn law_accessories_get_their_records(
    masters: Masters,
    namings: Namings,
    alignments: Alignments,
    i: int,
)
    requires
        stable_ids_distinct(masters),
        0 <= i < masters.len(),
    ensures
        assembled(masters, namings, alignments, i) == accessory_of(
            masters[i].1,
            record_for(namings, masters[i].1.stable_identifier),
            record_for(alignments, masters[i].1.stable_identifier),
        ),
{
    assert(comes_first(masters, i));
}

/// Where no two master records have the same stable identifier, the order in
/// which they are taken does not matter: the accessory under an identifier is
/// the same in any order.
pub proof fn law_order_does_not_matter(
    a: Masters,
    b: Masters,
    namings: Namings,
    alignments: Alignments,
    i: int,
    j: int,
)
    requires
        keys_distinct(a),
        keys_distinct(b),
        as_map(a) == as_map(b),
        stable_ids_distinct(a),
        0 <= i < a.len(),
        0 <= j < b.len(),
        a[i].0 == b[j].0,
    ensures
        assembled(a, namings, alignments, i) == assembled(b, namings, alignments, j),
{
    lemma_same_entry(a, b, i, j);
    assert(comes_first(a, i));
    assert forall|k: int| 0 <= k < j implies (#[trigger] b[k]).1.stable_identifier
        != b[j].1.stable_identifier by {
        lemma_lookup_entry(b, k);
        assert(as_map(b).contains_key(b[k].0));
        assert(as_map(a).contains_key(b[k].0));
        let m = key_index(a, b[k].0);
        assert(a[m].0 == b[k].0);
        lemma_same_entry(a, b, m, k);
        assert(b[k].0 != b[j].0);
        if m < i {
            assert(a[m].1.stable_identifier != a[i].1.stable_identifier);
        } else {
            assert(a[i].1.stable_identifier != a[m].1.stable_identifier);
        }
    }
    assert(comes_first(b, j));
}

/// Lists that stand for the same map have the same values under the same keys.
proof fn lemma_same_entry(a: Masters, b: Masters, i: int, j: int)
    requires
        keys_distinct(a),
        keys_distinct(b),
        as_map(a) == as_map(b),
        0 <= i < a.len(),
        0 <= j < b.len(),
        a[i].0 == b[j].0,
    ensures
        a[i].1 == b[j].1,
{
    lemma_lookup_entry(a, i);
    lemma_lookup_entry(b, j);
    assert(as_map(a)[a[i].0] == a[i].1);
    assert(as_map(b)[b[j].0] == b[j].1);
}

/// No record is given to two accessories: of those with the same stable
/// identifier only the first gets one.
pub proof fn law_records_are_given_once<R>(
    masters: Masters,
    records: Map<Seq<char>, R>,
    i: int,
    j: int,
)
    requires
        0 <= i < j < masters.len(),
        masters[i].1.stable_identifier == masters[j].1.stable_identifier,
    ensures
        claimed(masters, records, j) is None,
{
    assert(!comes_first(masters, j));
}

/// There is an accessory for every master record, under the same identifier,
/// and no other; its master record is kept as it was.
pub proof fn law_one_accessory_per_master(
    list: Seq<(Seq<char>, BeaconAccessoryModel)>,
    masters: Masters,
    namings: Namings,
    alignments: Alignments,
)
    requires
        keys_distinct(masters),
        list.len() == masters.len(),
        is_assembly(list, masters, namings, alignments),
    ensures
        keys_distinct(list),
        as_map(list).dom() == as_map(masters).dom(),
        forall|id: Seq<char>|
            as_map(masters).contains_key(id) ==> (#[trigger] as_map(list)[id]).master_record
                == as_map(masters)[id],
{
    assert forall|i: int, j: int| 0 <= i < j < list.len() implies (#[trigger] list[i]).0 != (
    #[trigger] list[j]).0 by {
        assert(masters[i].0 != masters[j].0);
    }
    assert forall|id: Seq<char>| #[trigger] has_key(list, id) == has_key(masters, id) by {
        if has_key(list, id) {
            let i = key_index(list, id);
            assert(masters[i].0 == id);
        }
        if has_key(masters, id) {
            let i = key_index(masters, id);
            assert(list[i].0 == id);
        }
    }
    assert(as_map(list).dom() =~= as_map(masters).dom());
    assert forall|id: Seq<char>| as_map(masters).contains_key(id) implies (
    #[trigger] as_map(list)[id]).master_record == as_map(masters)[id] by {
        let i = key_index(masters, id);
        assert(list[i].0 == id);
        lemma_lookup_entry(masters, i);
        lemma_lookup_entry(list, i);
    }
}

/// An accessory keeps the records that it is made of: its master record, and,
/// where it has them, its naming and alignment records with their identifiers,
/// all field by field. `acc` is an accessory that [`make_accessory`] gives for
/// these records.
pub proof fn law_accessory_keeps_its_records(
    master: MasterBeaconRecord,
    naming: Option<(String, BeaconNamingRecord)>,
    alignment: Option<(String, KeyAlignmentRecord)>,
    acc: BeaconAccessory,
)
    requires
        accessory_of(master@, naming_view(naming), alignment_view(alignment)) == Some(acc@),
    ensures
        acc@.master_record == master@,
        naming matches Some(n) ==> {
            &&& acc.naming_id@ == n.0@
            &&& acc.naming.emoji@ == n.1.emoji@
            &&& acc.naming.name@ == n.1.name@
            &&& acc.naming.associated_beacon@ == n.1.associated_beacon@
            &&& acc.naming.role_id == n.1.role_id
        },
        alignment matches Some(a) ==> {
            &&& acc.alignment_id@ == a.0@
            &&& acc.alignment.beacon_identifier@ == a.1.beacon_identifier@
            &&& acc.alignment.last_index_observed == a.1.last_index_observed
            &&& acc.alignment.last_index_observation_date == a.1.last_index_observation_date
            &&& acc.local_alignment.beacon_identifier@ == a.1.beacon_identifier@
            &&& acc.local_alignment.last_index_observed == a.1.last_index_observed
            &&& acc.local_alignment.last_index_observation_date
                == a.1.last_index_observation_date
        },
{
}

/// What the accessory made of the `i`-th master record holds. It has the naming
/// and the alignment record kept under its stable identifier, field by field
/// and with their identifiers, where no accessory before it has the same stable
/// identifier. Else its name is `Unknown-` and the start of its identifier, and
/// its alignment that of an accessory never observed.
pub proof fn law_assembled_fields(
    masters: Masters,
    namings: Namings,
    alignments: Alignments,
    i: int,
    acc: BeaconAccessoryModel,
)
    requires
        0 <= i < masters.len(),
        assembled(masters, namings, alignments, i) == Some(acc),
    ensures
        ({
            let id = masters[i].1.stable_identifier;
            let first = forall|j: int|
                0 <= j < i ==> (#[trigger] masters[j]).1.stable_identifier != id;
            let size = encode_utf8(id).len();
            &&& acc.master_record == masters[i].1
            &&& if first && namings.contains_key(id) {
                acc.naming_id == namings[id].0 && acc.naming == namings[id].1
            } else {
                &&& acc.naming_id.len() == 0
                &&& acc.naming.emoji.len() == 0
                &&& acc.naming.name.len() >= 8
                &&& acc.naming.name.take(8) == "Unknown-"@
                &&& acc.naming.name.skip(8).is_prefix_of(id)
                &&& encode_utf8(acc.naming.name.skip(8)).len() == if size < 8 {
                    size
                } else {
                    8
                }
                &&& acc.naming.associated_beacon == id
                &&& acc.naming.role_id == 0
            }
            &&& if first && alignments.contains_key(id) {
                acc.alignment_id == alignments[id].0 && acc.alignment == alignments[id].1
            } else {
                &&& acc.alignment_id.len() == 0
                &&& acc.alignment.beacon_identifier.len() == 0
                &&& acc.alignment.last_index_observed == 0
                &&& acc.alignment.last_index_observation_date is None
            }
            &&& acc.local_alignment == acc.alignment
        }),
{
    reveal_strlit("Unknown-");
    let id = masters[i].1.stable_identifier;
    assert(comes_first(masters, i) == (forall|j: int|
        0 <= j < i ==> (#[trigger] masters[j]).1.stable_identifier != id));
    if claimed(masters, namings, i) is None {
        law_short_id_is_start(id);
        assert(acc.naming.name == "Unknown-"@ + short_id(id)->0);
        assert(acc.naming.name.take(8) =~= "Unknown-"@);
        assert(acc.naming.name.skip(8) =~= short_id(id)->0);
    }
}

/// When there is an accessory: always, but where it gets no naming record and
/// the first eight bytes of its stable identifier end within a character.
pub proof fn law_when_assembled(
    masters: Masters,
    namings: Namings,
    alignments: Alignments,
    i: int,
)
    requires
        0 <= i < masters.len(),
    ensures
        ({
            let id = masters[i].1.stable_identifier;
            let first = forall|j: int|
                0 <= j < i ==> (#[trigger] masters[j]).1.stable_identifier != id;
            assembled(masters, namings, alignments, i) is None <==> {
                &&& !(first && namings.contains_key(id))
                &&& encode_utf8(id).len() > 8
                &&& !is_char_boundary(encode_utf8(id), 8)
            }
        }),
{
    let id = masters[i].1.stable_identifier;
    assert(comes_first(masters, i) == (forall|j: int|
        0 <= j < i ==> (#[trigger] masters[j]).1.stable_identifier != id));
    vstd::utf8::encode_utf8_valid_utf8(id);
    vstd::utf8::is_char_boundary_start_end_of_seq(encode_utf8(id));
}

} // verus!
