//! Sorting the fetched records into tables.

use crate::records::{
    BeaconNamingModel, BeaconNamingRecord, KeyAlignmentModel, KeyAlignmentRecord,
    MasterBeaconModel, MasterBeaconRecord,
};
use crate::string_table::StringTable;
use crate::text::same_text;
use vstd::prelude::*;

verus! {

/// The kinds of records, told apart by the name of a record's type.
#[derive(Clone, Copy, Debug, PartialEq, Eq, Structural)]
pub enum RecordKind {
    Master,
    Naming,
    Alignment,
    Other,
}

/// The names of the record types that are exported.
pub struct RecordTypes {
    pub master: String,
    pub naming: String,
    pub alignment: String,
}

impl RecordTypes {
    /// The kind of the records whose type is named `record_type`.
    pub open spec fn kind_of(self, record_type: Seq<char>) -> RecordKind {
        if record_type == self.master@ {
            RecordKind::Master
        } else if record_type == self.naming@ {
            RecordKind::Naming
        } else if record_type == self.alignment@ {
            RecordKind::Alignment
        } else {
            RecordKind::Other
        }
    }

    /// The kind of the records whose type is named `record_type`.
    pub fn classify(&self, record_type: &str) -> (kind: RecordKind)
        ensures
            kind == self.kind_of(record_type@),
    {
        if same_text(record_type, self.master.as_str()) {
            RecordKind::Master
        } else if same_text(record_type, self.naming.as_str()) {
            RecordKind::Naming
        } else if same_text(record_type, self.alignment.as_str()) {
            RecordKind::Alignment
        } else {
            RecordKind::Other
        }
    }
}

/// A record with its fields decrypted, or one of a type that is not exported.
pub enum DecodedRecord {
    Master(MasterBeaconRecord),
    Naming(BeaconNamingRecord),
    Alignment(KeyAlignmentRecord),
    Other,
}

/// The view of a [`DecodedRecord`].
pub enum DecodedModel {
    Master(MasterBeaconModel),
    Naming(BeaconNamingModel),
    Alignment(KeyAlignmentModel),
    Other,
}

impl View for DecodedRecord {
    type V = DecodedModel;

    open spec fn view(&self) -> DecodedModel {
        match *self {
            DecodedRecord::Master(r) => DecodedModel::Master(r@),
            DecodedRecord::Naming(r) => DecodedModel::Naming(r@),
            DecodedRecord::Alignment(r) => DecodedModel::Alignment(r@),
            DecodedRecord::Other => DecodedModel::Other,
        }
    }
}

/// A change that was fetched: a record under its identifier, or only the
/// identifier where the record is gone.
pub struct RecordChange {
    pub identifier: String,
    pub record: Option<DecodedRecord>,
}

/// The view of a [`RecordChange`].
pub struct ChangeModel {
    pub identifier: Seq<char>,
    pub record: Option<DecodedModel>,
}

impl View for RecordChange {
    type V = ChangeModel;

    open spec fn view(&self) -> ChangeModel {
        ChangeModel {
            identifier: self.identifier@,
            record: match self.record {
                Some(r) => Some(r@),
                None => None,
            },
        }
    }
}

/// The records of each kind: master records by their identifiers, and naming
/// and alignment records, with their identifiers, by the accessory that they
/// belong to.
pub struct RecordBook {
    pub masters: StringTable<MasterBeaconRecord>,
    pub namings: StringTable<(String, BeaconNamingRecord)>,
    pub alignments: StringTable<(String, KeyAlignmentRecord)>,
}

/// The naming records by accessory.
pub type Namings = Map<Seq<char>, (Seq<char>, BeaconNamingModel)>;

/// The alignment records by accessory.
pub type Alignments = Map<Seq<char>, (Seq<char>, KeyAlignmentModel)>;

/// The view of a [`RecordBook`].
pub struct BookModel {
    pub masters: Map<Seq<char>, MasterBeaconModel>,
    pub namings: Namings,
    pub alignments: Alignments,
}

impl View for RecordBook {
    type V = BookModel;

    open spec fn view(&self) -> BookModel {
        BookModel {
            masters: self.masters@,
            namings: self.namings@,
            alignments: self.alignments@,
        }
    }
}

/// The book without records.
pub open spec fn empty_book() -> BookModel {
    BookModel { masters: Map::empty(), namings: Map::empty(), alignments: Map::empty() }
}

/// The book after a change: the record comes in the place of an earlier one of
/// its kind under the same key. A change without a record, or with a record
/// that is not exported, changes nothing.
pub open spec fn with_change(book: BookModel, change: ChangeModel) -> BookModel {
    match change.record {
        Some(DecodedModel::Master(r)) => BookModel {
            masters: book.masters.insert(change.identifier, r),
            ..book
        },
        Some(DecodedModel::Naming(r)) => BookModel {
            namings: book.namings.insert(r.associated_beacon, (change.identifier, r)),
            ..book
        },
        Some(DecodedModel::Alignment(r)) => BookModel {
            alignments: book.alignments.insert(r.beacon_identifier, (change.identifier, r)),
            ..book
        },
        _ => book,
    }
}

/// The book of all the changes, one after the other.
pub open spec fn book_of(changes: Seq<ChangeModel>) -> BookModel
    decreases changes.len(),
{
    if changes.len() == 0 {
        empty_book()
    } else {
        with_change(book_of(changes.drop_last()), changes.last())
    }
}

/// The views of a list of changes.
pub open spec fn changes_of(changes: Seq<RecordChange>) -> Seq<ChangeModel> {
    Seq::new(changes.len(), |i: int| changes[i]@)
}

impl RecordBook {
    /// A book without records.
    pub fn new() -> (book: Self)
        ensures
            book@ == empty_book(),
    {
        RecordBook {
            masters: StringTable::new(),
            namings: StringTable::new(),
            alignments: StringTable::new(),
        }
    }

    /// Enters a change into the book.
    pub fn apply(&mut self, change: RecordChange)
        ensures
            final(self)@ == with_change(old(self)@, change@),
    {
        let identifier = change.identifier;
        match change.record {
            Some(DecodedRecord::Master(item)) => {
                self.masters.insert(identifier, item);
            },
            Some(DecodedRecord::Naming(item)) => {
                let beacon = item.associated_beacon.clone();
                self.namings.insert(beacon, (identifier, item));
            },
            Some(DecodedRecord::Alignment(item)) => {
                let beacon = item.beacon_identifier.clone();
                self.alignments.insert(beacon, (identifier, item));
            },
            _ => {},
        }
    }
}

/// Enters all the changes into a book, in their order.
pub fn collect_records(changes: Vec<RecordChange>) -> (book: RecordBook)
    ensures
        book@ == book_of(changes_of(changes@)),
{
    let mut book = RecordBook::new();
    let ghost all = changes_of(changes@);
    for change in it: changes
        invariant
            it.seq() == changes@,
            all == changes_of(changes@),
            book@ == book_of(all.take(it.index() as int)),
    {
        proof {
            let next = all.take(it.index() + 1);
            assert(next.drop_last() =~= all.take(it.index() as int));
            assert(next.last() == change@);
        }
        book.apply(change);
    }
    proof {
        assert(all.take(all.len() as int) =~= all);
    }
    book
}

/// Whether a change brings the master record of the identifier `key`.
pub open spec fn brings_master(change: ChangeModel, key: Seq<char>) -> bool {
    change.record is Some && change.record->0 is Master && change.identifier == key
}

/// Whether a change brings the naming record of the accessory `key`.
pub open spec fn brings_naming(change: ChangeModel, key: Seq<char>) -> bool {
    match change.record {
        Some(DecodedModel::Naming(r)) => r.associated_beacon == key,
        _ => false,
    }
}

/// Whether a change brings the alignment record of the accessory `key`.
pub open spec fn brings_alignment(change: ChangeModel, key: Seq<char>) -> bool {
    match change.record {
        Some(DecodedModel::Alignment(r)) => r.beacon_identifier == key,
        _ => false,
    }
}

/// The master record under an identifier is the one of the last change that
/// brings one.
pub proof fn law_last_master_wins(changes: Seq<ChangeModel>, key: Seq<char>, i: int)
    requires
        0 <= i < changes.len(),
        brings_master(changes[i], key),
        forall|j: int| i < j < changes.len() ==> !brings_master(#[trigger] changes[j], key),
    ensures
        book_of(changes).masters.contains_key(key),
        changes[i].record == Some(DecodedModel::Master(book_of(changes).masters[key])),
    decreases changes.len(),
{
    let rest = changes.drop_last();
    if i < rest.len() {
        assert forall|j: int| i < j < rest.len() implies !brings_master(#[trigger] rest[j], key) by {
            assert(rest[j] == changes[j]);
        }
        law_last_master_wins(rest, key, i);
        assert(!brings_master(changes.last(), key));
    }
}

/// The naming record of an accessory is the one of the last change that brings
/// one, kept with the identifier of that change.
pub proof fn law_last_naming_wins(changes: Seq<ChangeModel>, key: Seq<char>, i: int)
    requires
        0 <= i < changes.len(),
        brings_naming(changes[i], key),
        forall|j: int| i < j < changes.len() ==> !brings_naming(#[trigger] changes[j], key),
    ensures
        book_of(changes).namings.contains_key(key),
        book_of(changes).namings[key].0 == changes[i].identifier,
        changes[i].record == Some(DecodedModel::Naming(book_of(changes).namings[key].1)),
    decreases changes.len(),
{
    let rest = changes.drop_last();
    if i < rest.len() {
        assert forall|j: int| i < j < rest.len() implies !brings_naming(#[trigger] rest[j], key) by {
            assert(rest[j] == changes[j]);
        }
        law_last_naming_wins(rest, key, i);
        assert(!brings_naming(changes.last(), key));
    }
}

/// The alignment record of an accessory is the one of the last change that
/// brings one, kept with the identifier of that change.
pub proof fn law_last_alignment_wins(changes: Seq<ChangeModel>, key: Seq<char>, i: int)
    requires
        0 <= i < changes.len(),
        brings_alignment(changes[i], key),
        forall|j: int| i < j < changes.len() ==> !brings_alignment(#[trigger] changes[j], key),
    ensures
        book_of(changes).alignments.contains_key(key),
        book_of(changes).alignments[key].0 == changes[i].identifier,
        changes[i].record == Some(DecodedModel::Alignment(book_of(changes).alignments[key].1)),
    decreases changes.len(),
{
    let rest = changes.drop_last();
    if i < rest.len() {
        assert forall|j: int| i < j < rest.len() implies !brings_alignment(
            #[trigger] rest[j],
            key,
        ) by {
            assert(rest[j] == changes[j]);
        }
        law_last_alignment_wins(rest, key, i);
        assert(!brings_alignment(changes.last(), key));
    }
}

/// The book holds nothing under a key that no change brings a record for.
pub proof fn law_book_holds_only_fetched(changes: Seq<ChangeModel>, key: Seq<char>)
    ensures
        (forall|i: int| 0 <= i < changes.len() ==> !brings_master(#[trigger] changes[i], key))
            ==> !book_of(changes).masters.contains_key(key),
        (forall|i: int| 0 <= i < changes.len() ==> !brings_naming(#[trigger] changes[i], key))
            ==> !book_of(changes).namings.contains_key(key),
        (forall|i: int| 0 <= i < changes.len() ==> !brings_alignment(#[trigger] changes[i], key))
            ==> !book_of(changes).alignments.contains_key(key),
    decreases changes.len(),
{
    if changes.len() > 0 {
        let rest = changes.drop_last();
        law_book_holds_only_fetched(rest, key);
        assert(forall|i: int| 0 <= i < rest.len() ==> #[trigger] rest[i] == changes[i]);
        assert(changes[changes.len() - 1] == changes.last());
    }
}

/// What a change does to the book: a record comes under its key in the table of
/// its kind, and the other tables stay; a change without a record, or with one
/// that is not exported, leaves the book as it is.
pub proof fn law_change_enters_one_record(book: BookModel, change: RecordChange)
    ensures
        match change.record {
            Some(DecodedRecord::Master(r)) => {
                &&& with_change(book, change@).masters == book.masters.insert(
                    change.identifier@,
                    r@,
                )
                &&& with_change(book, change@).namings == book.namings
                &&& with_change(book, change@).alignments == book.alignments
            },
            Some(DecodedRecord::Naming(r)) => {
                &&& with_change(book, change@).masters == book.masters
                &&& with_change(book, change@).namings == book.namings.insert(
                    r.associated_beacon@,
                    (change.identifier@, r@),
                )
                &&& with_change(book, change@).alignments == book.alignments
            },
            Some(DecodedRecord::Alignment(r)) => {
                &&& with_change(book, change@).masters == book.masters
                &&& with_change(book, change@).namings == book.namings
                &&& with_change(book, change@).alignments == book.alignments.insert(
                    r.beacon_identifier@,
                    (change.identifier@, r@),
                )
            },
            Some(DecodedRecord::Other) => with_change(book, change@) == book,
            None => with_change(book, change@) == book,
        },
{
}

/// The book of no changes is empty, and a further change is entered into the
/// book of those before it.
pub proof fn law_changes_are_entered_in_turn(changes: Seq<RecordChange>, change: RecordChange)
    ensures
        book_of(changes_of(Seq::empty())).masters == Map::<Seq<char>, MasterBeaconModel>::empty(),
        book_of(changes_of(Seq::empty())).namings.dom() == Set::<Seq<char>>::empty(),
        book_of(changes_of(Seq::empty())).alignments.dom() == Set::<Seq<char>>::empty(),
        book_of(changes_of(changes.push(change))) == with_change(
            book_of(changes_of(changes)),
            change@,
        ),
{
    assert(changes_of(changes.push(change)).drop_last() =~= changes_of(changes));
    assert(changes_of(changes.push(change)).last() == change@);
}

/// The record under a key is, field by field, the one of the last change that
/// brings a record of its kind under that key.
pub proof fn law_last_record_is_kept(changes: Seq<RecordChange>, i: int)
    requires
        0 <= i < changes.len(),
    ensures
        ({
            let book = book_of(changes_of(changes));
            let id = changes[i].identifier@;
            match changes[i].record {
                Some(DecodedRecord::Master(r)) => (forall|j: int|
                    i < j < changes.len() ==> ((#[trigger] changes[j]).record matches Some(
                        DecodedRecord::Master(_),
                    ) ==> changes[j].identifier@ != id)) ==> {
                    &&& book.masters.contains_key(id)
                    &&& book.masters[id] == r@
                },
                Some(DecodedRecord::Naming(r)) => (forall|j: int|
                    i < j < changes.len() ==> ((#[trigger] changes[j]).record matches Some(
                        DecodedRecord::Naming(s),
                    ) ==> s.associated_beacon@ != r.associated_beacon@)) ==> {
                    &&& book.namings.contains_key(r.associated_beacon@)
                    &&& book.namings[r.associated_beacon@] == (id, r@)
                },
                Some(DecodedRecord::Alignment(r)) => (forall|j: int|
                    i < j < changes.len() ==> ((#[trigger] changes[j]).record matches Some(
                        DecodedRecord::Alignment(s),
                    ) ==> s.beacon_identifier@ != r.beacon_identifier@)) ==> {
                    &&& book.alignments.contains_key(r.beacon_identifier@)
                    &&& book.alignments[r.beacon_identifier@] == (id, r@)
                },
                _ => true,
            }
        }),
{
    let all = changes_of(changes);
    let id = changes[i].identifier@;
    assert(forall|j: int| 0 <= j < changes.len() ==> all[j] == (#[trigger] changes[j])@);
    match changes[i].record {
        Some(DecodedRecord::Master(r)) => {
            if forall|j: int|
                i < j < changes.len() ==> ((#[trigger] changes[j]).record matches Some(
                        DecodedRecord::Master(_),
                    ) ==> changes[j].identifier@ != id) {
                assert forall|j: int| i < j < all.len() implies !brings_master(
                    #[trigger] all[j],
                    id,
                ) by {
                    assert(all[j] == changes[j]@);
                }
                law_last_master_wins(all, id, i);
            }
        },
        Some(DecodedRecord::Naming(r)) => {
            let key = r.associated_beacon@;
            if forall|j: int|
                i < j < changes.len() ==> ((#[trigger] changes[j]).record matches Some(
                    DecodedRecord::Naming(s),
                ) ==> s.associated_beacon@ != key) {
                assert forall|j: int| i < j < all.len() implies !brings_naming(
                    #[trigger] all[j],
                    key,
                ) by {
                    assert(all[j] == changes[j]@);
                }
                law_last_naming_wins(all, key, i);
            }
        },
        Some(DecodedRecord::Alignment(r)) => {
            let key = r.beacon_identifier@;
            if forall|j: int|
                i < j < changes.len() ==> ((#[trigger] changes[j]).record matches Some(
                    DecodedRecord::Alignment(s),
                ) ==> s.beacon_identifier@ != key) {
                assert forall|j: int| i < j < all.len() implies !brings_alignment(
                    #[trigger] all[j],
                    key,
                ) by {
                    assert(all[j] == changes[j]@);
                }
                law_last_alignment_wins(all, key, i);
            }
        },
        _ => {},
    }
}

/// A type of records is of the first kind whose name it has as a whole, and of
/// no kind where it has none of the three names.
pub proof fn law_kinds(types: RecordTypes, record_type: Seq<char>)
    ensures
        types.kind_of(record_type) == RecordKind::Master <==> record_type == types.master@,
        types.kind_of(record_type) == RecordKind::Naming <==> record_type == types.naming@
            && record_type != types.master@,
        types.kind_of(record_type) == RecordKind::Alignment <==> record_type == types.alignment@
            && record_type != types.master@ && record_type != types.naming@,
        types.kind_of(record_type) == RecordKind::Other <==> record_type != types.master@
            && record_type != types.naming@ && record_type != types.alignment@,
{
}

/// The view of a book has the views of its tables.
pub proof fn law_book_view(book: RecordBook)
    ensures
        book@.masters == book.masters@,
        book@.namings == book.namings@,
        book@.alignments == book.alignments@,
{
}

} // verus!
