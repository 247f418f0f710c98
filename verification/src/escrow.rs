//! Escrow bottles: which one to use, and which to clean up.

use crate::device::{FakeIOSConfig, FAKE_SERIAL};
use crate::digits::{
    decimal, decimal_string, is_digit, law_decimal_read_back, lemma_decimal_digits, parse_line,
    read_decimal,
};
use crate::text::{
    is_white_space, law_line_end_is_dropped, law_trimmed_stays, same_text, trim, trimmed,
};
use vstd::prelude::*;

verus! {

/// An escrow bottle: the label by which it is deleted, and the serial number of
/// the device that left it.
pub struct EscrowBottle {
    pub label: String,
    pub serial: String,
}

/// Whether the tool itself left the bottle.
pub open spec fn is_fake(bottle: EscrowBottle) -> bool {
    bottle.serial@ == FAKE_SERIAL@
}

/// The places, in order, of the bottles that the tool left.
pub open spec fn fake_places(bottles: Seq<EscrowBottle>) -> Seq<usize>
    decreases bottles.len(),
{
    if bottles.len() == 0 {
        Seq::empty()
    } else {
        let before = fake_places(bottles.drop_last());
        if is_fake(bottles.last()) {
            before.push((bottles.len() - 1) as usize)
        } else {
            before
        }
    }
}

/// The places, in order, of the bottles that the tool left.
pub fn fake_bottles(bottles: &Vec<EscrowBottle>) -> (places: Vec<usize>)
    ensures
        places@ == fake_places(bottles@),
        forall|i: int|
            0 <= i < bottles@.len() ==> (places@.contains(i as usize)
                <==> #[trigger] bottles@[i].serial@ == FAKE_SERIAL@),
        forall|k: int|
            0 <= k < places@.len() ==> #[trigger] places@[k] < bottles@.len()
                && bottles@[places@[k] as int].serial@ == FAKE_SERIAL@,
        forall|j: int, k: int|
            0 <= j < k < places@.len() ==> #[trigger] places@[j] < #[trigger] places@[k],
{
    let mut places: Vec<usize> = Vec::new();
    let mut i: usize = 0;
    while i < bottles.len()
        invariant
            i <= bottles@.len(),
            places@ == fake_places(bottles@.take(i as int)),
        decreases bottles@.len() - i,
    {
        if same_text(bottles[i].serial.as_str(), FAKE_SERIAL) {
            places.push(i);
        }
        i = i + 1;
        proof {
            assert(bottles@.take(i as int).drop_last() =~= bottles@.take(i - 1));
            assert(bottles@.take(i as int).last() == bottles@[i - 1]);
        }
    }
    proof {
        assert(bottles@.take(i as int) =~= bottles@);
        law_found_by_serial(bottles@);
        law_only_fake_bottles_are_found(bottles@);
    }
    places
}

/// The bottles that the tool left are found, each once, and no others.
pub proof fn law_only_fake_bottles_are_found(bottles: Seq<EscrowBottle>)
    requires
        bottles.len() <= usize::MAX,
    ensures
        forall|k: int|
            0 <= k < fake_places(bottles).len() ==> (#[trigger] fake_places(bottles)[k])
                < bottles.len() && is_fake(bottles[fake_places(bottles)[k] as int]),
        forall|i: int|
            0 <= i < bottles.len() && is_fake(#[trigger] bottles[i]) ==> fake_places(
                bottles,
            ).contains(i as usize),
        forall|j: int, k: int|
            0 <= j < k < fake_places(bottles).len() ==> (#[trigger] fake_places(bottles)[j]) < (
            #[trigger] fake_places(bottles)[k]),
    decreases bottles.len(),
{
    if bottles.len() > 0 {
        let rest = bottles.drop_last();
        let before = fake_places(rest);
        let places = fake_places(bottles);
        law_only_fake_bottles_are_found(rest);
        assert forall|k: int| 0 <= k < places.len() implies (#[trigger] places[k]) < bottles.len()
            && is_fake(bottles[places[k] as int]) by {
            if k < before.len() {
                assert(before[k] < rest.len());
                assert(rest[before[k] as int] == bottles[before[k] as int]);
            }
        }
        assert forall|i: int|
            0 <= i < bottles.len() && is_fake(#[trigger] bottles[i]) implies places.contains(
            i as usize,
        ) by {
            if i < rest.len() {
                assert(rest[i] == bottles[i]);
                assert(before.contains(i as usize));
                let k = choose|k: int| 0 <= k < before.len() && before[k] == i as usize;
                assert(places[k] == i as usize);
            } else {
                assert(places[places.len() - 1] == i as usize);
            }
        }
        assert forall|j: int, k: int| 0 <= j < k < places.len() implies (#[trigger] places[j]) < (
        #[trigger] places[k]) by {
            assert(places[j] == before[j]);
            if k < before.len() {
                assert(before[j] < before[k]);
            } else {
                assert(before[j] < rest.len());
            }
        }
    }
}

/// A bottle with the serial number of a device that the tool presented itself
/// as counts as left by the tool.
pub proof fn law_own_bottles_are_fake(
    config: FakeIOSConfig,
    uuid: u128,
    udid: u128,
    bottle: EscrowBottle,
)
    requires
        config.has_identifiers(uuid, udid),
        bottle.serial@ == config.serial@,
    ensures
        is_fake(bottle),
{
}

/// Whether the line that the user typed confirms the clean-up.
pub fn confirm_cleanup(input: &str) -> (confirmed: bool)
    ensures
        confirmed == (trimmed(input@) == "DELETE"@),
{
    let line = trim(input);
    same_text(line.as_str(), "DELETE")
}

/// What comes next in the clean-up.
pub enum CleanupStep {
    /// There is nothing to clean up.
    NothingFound,
    /// The user is asked whether to delete the bottles at these places.
    Ask(Vec<usize>),
    /// The bottles at these places are deleted, in this order.
    Delete(Vec<usize>),
    /// The user does not want it.
    Cancelled,
}

/// The places of the bottles that a step deletes.
pub open spec fn deleted(step: CleanupStep) -> Seq<usize> {
    match step {
        CleanupStep::Delete(places) => places@,
        _ => Seq::empty(),
    }
}

/// The first step of the clean-up: where the tool left bottles, they are
/// deleted, after the user was asked unless `assume_yes`.
pub fn plan_cleanup(bottles: &Vec<EscrowBottle>, assume_yes: bool) -> (step: CleanupStep)
    ensures
        match step {
            CleanupStep::NothingFound => fake_places(bottles@).len() == 0,
            CleanupStep::Ask(places) => {
                &&& places@ == fake_places(bottles@)
                &&& places@.len() > 0
                &&& !assume_yes
            },
            CleanupStep::Delete(places) => {
                &&& places@ == fake_places(bottles@)
                &&& places@.len() > 0
                &&& assume_yes
            },
            CleanupStep::Cancelled => false,
        },
        step is NothingFound <==> (forall|i: int|
            0 <= i < bottles@.len() ==> #[trigger] bottles@[i].serial@ != FAKE_SERIAL@),
        step matches CleanupStep::Ask(places) ==> (forall|i: int|
            0 <= i < bottles@.len() ==> (places@.contains(i as usize)
                <==> #[trigger] bottles@[i].serial@ == FAKE_SERIAL@)),
        step matches CleanupStep::Delete(places) ==> (forall|i: int|
            0 <= i < bottles@.len() ==> (places@.contains(i as usize)
                <==> #[trigger] bottles@[i].serial@ == FAKE_SERIAL@)),
        step matches CleanupStep::Delete(places) ==> (forall|k: int|
            0 <= k < places@.len() ==> #[trigger] places@[k] < bottles@.len()
                && bottles@[places@[k] as int].serial@ == FAKE_SERIAL@),
{
    let places = fake_bottles(bottles);
    proof {
        if places@.len() > 0 {
            assert(bottles@[places@[0] as int].serial@ == FAKE_SERIAL@);
        }
    }
    if places.len() == 0 {
        CleanupStep::NothingFound
    } else if assume_yes {
        CleanupStep::Delete(places)
    } else {
        CleanupStep::Ask(places)
    }
}

/// Whether `step` comes after the user was asked whether to delete the bottles
/// at `places` and typed the line `input`.
pub open spec fn answered(places: Vec<usize>, input: Seq<char>, step: CleanupStep) -> bool {
    if trimmed(input) == "DELETE"@ {
        step == CleanupStep::Delete(places)
    } else {
        step == CleanupStep::Cancelled
    }
}

/// The step after the user was asked whether to delete the bottles at `places`
/// and typed the line `input`.
pub fn after_answer(places: Vec<usize>, input: &str) -> (step: CleanupStep)
    ensures
        answered(places, input@, step),
        trimmed(input@) == "DELETE"@ ==> step == CleanupStep::Delete(places),
        trimmed(input@) != "DELETE"@ ==> step == CleanupStep::Cancelled,
{
    if confirm_cleanup(input) {
        CleanupStep::Delete(places)
    } else {
        CleanupStep::Cancelled
    }
}

/// Whatever the user answers, nothing is deleted but the bottles that the tool
/// left, and those only where the answer is `DELETE`.
pub proof fn law_cleanup_deletes_only_fake_bottles(
    bottles: Seq<EscrowBottle>,
    asked: Vec<usize>,
    answer: Seq<char>,
    step: CleanupStep,
    k: int,
)
    requires
        bottles.len() <= usize::MAX,
        asked@ == fake_places(bottles),
        answered(asked, answer, step),
        0 <= k < deleted(step).len(),
    ensures
        deleted(step)[k] < bottles.len(),
        is_fake(bottles[deleted(step)[k] as int]),
        trimmed(answer) == "DELETE"@,
{
    law_only_fake_bottles_are_found(bottles);
}

/// Why no bottle can be used.
#[derive(Clone, Copy, Debug, PartialEq, Eq, Structural)]
pub enum BottleError {
    /// There is none.
    NoBottles,
    /// There is none at this place.
    InvalidIndex { index: usize, count: usize },
}

impl BottleError {
    /// What the user is told.
    pub open spec fn text(self) -> Seq<char> {
        match self {
            BottleError::NoBottles =>
                "No escrow bottles found. Make sure you have another trusted device."@,
            BottleError::InvalidIndex { index, count } => "Invalid bottle index "@ + decimal(
                index as nat,
            ) + ". Must be 0-"@ + decimal((count - 1) as nat) + "."@,
        }
    }

    /// What the user is told.
    pub fn message(&self) -> (out: String)
        requires
            self matches BottleError::InvalidIndex { index, count } ==> count > 0,
        ensures
            out@ == self.text(),
            *self is NoBottles ==> out@
                == "No escrow bottles found. Make sure you have another trusted device."@,
            *self matches BottleError::InvalidIndex { index, count } ==> out@
                == "Invalid bottle index "@ + decimal(index as nat) + ". Must be 0-"@ + decimal(
                (count - 1) as nat,
            ) + "."@,
    {
        match self {
            BottleError::NoBottles => {
                "No escrow bottles found. Make sure you have another trusted device.".to_owned()
            },
            BottleError::InvalidIndex { index, count } => {
                let mut out = "Invalid bottle index ".to_owned();
                let shown = decimal_string(*index as u64);
                out.append(shown.as_str());
                out.append(". Must be 0-");
                let last = decimal_string((*count - 1) as u64);
                out.append(last.as_str());
                out.append(".");
                out
            },
        }
    }
}

/// Whether the user is asked which of `count` bottles to use.
pub fn needs_choice(count: usize) -> (ask: bool)
    ensures
        ask == (count > 1),
{
    count > 1
}

/// The number on the line that the user typed; a line without one counts as
/// zero.
pub open spec fn typed_index(line: Seq<char>) -> nat {
    match read_decimal(trimmed(line), usize::MAX as nat) {
        Some(n) => n,
        None => 0,
    }
}

/// Which of `count` bottles is used: the only one, or the one whose number is
/// on the line that the user typed.
pub open spec fn chosen(count: usize, line: Seq<char>) -> Result<usize, BottleError> {
    if count == 0 {
        Err(BottleError::NoBottles)
    } else if count == 1 {
        Ok(0)
    } else if typed_index(line) < count {
        Ok(typed_index(line) as usize)
    } else {
        Err(BottleError::InvalidIndex { index: typed_index(line) as usize, count })
    }
}

/// Which of `count` bottles is used; where there are several, the line `input`
/// that the user typed tells.
pub fn choose_bottle(count: usize, input: &str) -> (choice: Result<usize, BottleError>)
    ensures
        choice == chosen(count, input@),
        choice matches Ok(i) ==> i < count,
        count == 0 ==> choice == Err::<usize, BottleError>(BottleError::NoBottles),
        count == 1 ==> choice == Ok::<usize, BottleError>(0),
        count > 1 ==> match read_decimal(trimmed(input@), usize::MAX as nat) {
            Some(n) => choice == (if n < count {
                Ok(n as usize)
            } else {
                Err(BottleError::InvalidIndex { index: n as usize, count })
            }),
            None => choice == Ok::<usize, BottleError>(0),
        },
{
    if count == 0 {
        return Err(BottleError::NoBottles);
    }
    if !needs_choice(count) {
        return Ok(0);
    }
    let index: usize = match parse_line(input) {
        Some(n) => n,
        None => 0,
    };
    if index >= count {
        return Err(BottleError::InvalidIndex { index, count });
    }
    Ok(index)
}

/// Typing a number chooses the bottle with that number where there is one, and
/// is refused, with that number, where there is none.
pub proof fn law_typed_number_chooses(count: usize, index: usize)
    requires
        count > 1,
    ensures
        chosen(count, decimal(index as nat)) == (if index < count {
            Ok(index)
        } else {
            Err(BottleError::InvalidIndex { index, count })
        }),
        chosen(count, decimal(index as nat).push('\n')) == chosen(count, decimal(index as nat)),
{
    let line = decimal(index as nat);
    lemma_decimal_digits(index as nat);
    assert(is_digit(line[0]));
    assert(is_digit(line[line.len() - 1]));
    lemma_digit_is_no_space(line.first());
    lemma_digit_is_no_space(line.last());
    law_trimmed_stays(line);
    law_line_end_is_dropped(line, '\n');
    law_decimal_read_back(index as nat, usize::MAX as nat);
}

/// A digit is no white space.
proof fn lemma_digit_is_no_space(c: char)
    requires
        is_digit(c),
    ensures
        !is_white_space(c),
{
}

/// A place is found exactly where the serial number of the bottle there is, as
/// a whole, the one that the tool presents itself with. The places are those of
/// bottles, each stands once, and they stand in order.
pub proof fn law_found_by_serial(bottles: Seq<EscrowBottle>)
    requires
        bottles.len() <= usize::MAX,
    ensures
        FAKE_SERIAL@ == "F2LZN0FAKE00"@,
        forall|i: int|
            0 <= i < bottles.len() ==> (fake_places(bottles).contains(i as usize)
                <==> #[trigger] bottles[i].serial@ == FAKE_SERIAL@),
        forall|k: int|
            0 <= k < fake_places(bottles).len() ==> #[trigger] fake_places(bottles)[k]
                < bottles.len(),
        forall|j: int, k: int|
            0 <= j < k < fake_places(bottles).len() ==> #[trigger] fake_places(bottles)[j]
                < #[trigger] fake_places(bottles)[k],
{
    law_only_fake_bottles_are_found(bottles);
    assert forall|i: int| 0 <= i < bottles.len() implies (fake_places(bottles).contains(i as usize)
        <==> #[trigger] bottles[i].serial@ == FAKE_SERIAL@) by {
        if is_fake(bottles[i]) {
            assert(fake_places(bottles).contains(i as usize));
        }
    }
}

/// Whether the user was asked or not, and whatever the answer, a bottle that is
/// deleted has, as a whole, the serial number that the tool presents itself
/// with. An answer other than `DELETE` deletes nothing.
pub proof fn law_other_bottles_are_never_deleted(
    bottles: Seq<EscrowBottle>,
    found: Vec<usize>,
    answer: Seq<char>,
    step: CleanupStep,
)
    requires
        bottles.len() <= usize::MAX,
        found@ == fake_places(bottles),
        step == CleanupStep::Delete(found) || answered(found, answer, step),
    ensures
        step matches CleanupStep::Delete(places) ==> (forall|i: int|
            0 <= i < bottles.len() ==> (places@.contains(i as usize)
                <==> #[trigger] bottles[i].serial@ == FAKE_SERIAL@)) && (forall|k: int|
            0 <= k < places@.len() ==> #[trigger] places@[k] < bottles.len()
                && bottles[places@[k] as int].serial@ == FAKE_SERIAL@),
        answered(found, answer, step) ==> (step is Delete <==> trimmed(answer) == "DELETE"@),
{
    law_found_by_serial(bottles);
    law_only_fake_bottles_are_found(bottles);
}

/// Which bottle is used. Of none, none is; a single one is used whatever was
/// typed. Of several, the number on the line, without the white space round it,
/// is the place of the bottle, and is refused where there is none at that place;
/// a line without a number stands for the first.
pub proof fn law_choice(count: usize, line: Seq<char>, n: usize)
    ensures
        count == 0 ==> chosen(count, line) == Err::<usize, BottleError>(BottleError::NoBottles),
        count == 1 ==> chosen(count, line) == Ok::<usize, BottleError>(0),
        count > 1 && read_decimal(trimmed(line), usize::MAX as nat) is None ==> chosen(count, line)
            == Ok::<usize, BottleError>(0),
        count > 1 && read_decimal(trimmed(line), usize::MAX as nat) == Some(n as nat) ==> chosen(
            count,
            line,
        ) == (if n < count {
            Ok(n)
        } else {
            Err(BottleError::InvalidIndex { index: n, count })
        }),
{
}

/// What the user is told of a number that was refused: the number itself, and
/// the largest one that there is a bottle for, both in decimal.
pub proof fn law_refused_number_is_named(index: usize, count: usize)
    requires
        count > 0,
    ensures
        (BottleError::InvalidIndex { index, count }).text() == "Invalid bottle index "@ + decimal(
            index as nat,
        ) + ". Must be 0-"@ + decimal((count - 1) as nat) + "."@,
        BottleError::NoBottles.text()
            == "No escrow bottles found. Make sure you have another trusted device."@,
{
}

} // verus!
