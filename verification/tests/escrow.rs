use export_findmy::device::FakeIOSConfig;
use export_findmy::escrow::{
    after_answer, choose_bottle, confirm_cleanup, fake_bottles, needs_choice, plan_cleanup,
    BottleError, CleanupStep, EscrowBottle,
};

fn bottle(label: &str, serial: &str) -> EscrowBottle {
    EscrowBottle { label: label.to_string(), serial: serial.to_string() }
}

fn bottles() -> Vec<EscrowBottle> {
    vec![
        bottle("a", "F2LZN0FAKE00"),
        bottle("b", "C02REAL"),
        bottle("c", &FakeIOSConfig::new().get_serial_number()),
        bottle("d", "F2LZN0FAKE001"),
    ]
}

#[test]
fn only_bottles_of_the_fake_device_are_found() {
    assert_eq!(fake_bottles(&bottles()), vec![0, 2]);
    assert_eq!(fake_bottles(&vec![bottle("b", "C02REAL")]), Vec::<usize>::new());
    assert_eq!(fake_bottles(&vec![]), Vec::<usize>::new());
}

#[test]
fn cleanup_ends_where_nothing_is_found() {
    assert!(matches!(plan_cleanup(&vec![], true), CleanupStep::NothingFound));
    let real = vec![bottle("b", "C02REAL")];
    assert!(matches!(plan_cleanup(&real, false), CleanupStep::NothingFound));
}

#[test]
fn cleanup_asks_unless_told_not_to() {
    match plan_cleanup(&bottles(), false) {
        CleanupStep::Ask(places) => assert_eq!(places, vec![0, 2]),
        _ => panic!("not asked"),
    }
    match plan_cleanup(&bottles(), true) {
        CleanupStep::Delete(places) => assert_eq!(places, vec![0, 2]),
        _ => panic!("not deleted"),
    }
}

#[test]
fn only_the_word_delete_confirms() {
    assert!(confirm_cleanup("DELETE"));
    assert!(confirm_cleanup("  DELETE\r\n"));
    for other in ["", "delete", "DELETE!", "yes", "DEL ETE"] {
        assert!(!confirm_cleanup(other));
    }
}

#[test]
fn the_answer_decides_over_deletion() {
    match after_answer(vec![0, 2], "DELETE\n") {
        CleanupStep::Delete(places) => assert_eq!(places, vec![0, 2]),
        _ => panic!("not deleted"),
    }
    assert!(matches!(after_answer(vec![0, 2], "\n"), CleanupStep::Cancelled));
}

#[test]
fn the_only_bottle_is_used() {
    assert!(!needs_choice(1));
    assert_eq!(choose_bottle(1, ""), Ok(0));
    assert_eq!(choose_bottle(1, "7"), Ok(0));
}

#[test]
fn a_typed_number_chooses() {
    assert!(needs_choice(2));
    assert_eq!(choose_bottle(3, "2\n"), Ok(2));
    assert_eq!(choose_bottle(3, " +1 "), Ok(1));
    for i in 0..12 {
        assert_eq!(choose_bottle(12, &format!("{}", i)), Ok(i));
    }
}

#[test]
fn an_unreadable_line_chooses_the_first() {
    for line in ["", "\n", "x", "-1", "1.0", "99999999999999999999999"] {
        assert_eq!(choose_bottle(3, line), Ok(0));
    }
}

#[test]
fn a_number_out_of_range_is_refused() {
    let error = choose_bottle(3, "3").unwrap_err();
    assert_eq!(error, BottleError::InvalidIndex { index: 3, count: 3 });
    assert_eq!(error.message(), "Invalid bottle index 3. Must be 0-2.");
}

#[test]
fn no_bottles_is_an_error() {
    assert!(!needs_choice(0));
    let error = choose_bottle(0, "0").unwrap_err();
    assert_eq!(error, BottleError::NoBottles);
    assert_eq!(
        error.message(),
        "No escrow bottles found. Make sure you have another trusted device."
    );
}
