use secrus8::pacing::remaining_frame_time;
use secrus8::Error;

#[test]
fn unknown_opcode_message_shows_hexadecimal() {
    assert_eq!(Error::UnknownOpcode(0x00E1).message(), "Unknown opcode: e1");
    assert_eq!(Error::UnknownOpcode(0xFFFF).message(), "Unknown opcode: ffff");
    assert_eq!(Error::UnknownOpcode(0x8AB8).message(), "Unknown opcode: 8ab8");
    assert_eq!(Error::UnknownOpcode(0x0100).message(), "Unknown opcode: 100");
    assert_eq!(Error::UnknownOpcode(0x000A).message(), "Unknown opcode: a");
    assert_eq!(Error::UnknownOpcode(0).message(), "Unknown opcode: 0");
}

#[test]
fn unknown_opcode_message_matches_std_formatting() {
    for code in 0..=0xFFFFu16 {
        assert_eq!(Error::UnknownOpcode(code).message(), format!("Unknown opcode: {:x}", code));
    }
}

#[test]
fn other_messages() {
    assert_eq!(Error::InsufficientData.message(), "Not enough data");
    assert_eq!(Error::EmptyStackReturn.message(), "Return with an empty call stack");
    assert_eq!(Error::UnsupportedInstruction.message(), "Unsupported instruction");
    assert_eq!(Error::AddressOutOfRange.message(), "Address out of range");
}

#[test]
fn errors_compare_by_value() {
    assert_eq!(Error::UnknownOpcode(7), Error::UnknownOpcode(7));
    assert_ne!(Error::UnknownOpcode(7), Error::UnknownOpcode(8));
    assert_ne!(Error::InsufficientData, Error::EmptyStackReturn);
}

#[test]
fn frame_that_finished_early_waits_for_the_rest() {
    assert_eq!(remaining_frame_time(16_666_668, 1_000_000), Some(15_666_668));
    assert_eq!(remaining_frame_time(16_666_668, 0), Some(16_666_668));
}

#[test]
fn frame_that_used_its_budget_exactly_waits_for_nothing() {
    assert_eq!(remaining_frame_time(16_666_668, 16_666_668), Some(0));
}

#[test]
fn frame_that_overran_does_not_wait() {
    assert_eq!(remaining_frame_time(16_666_668, 16_666_669), None);
    assert_eq!(remaining_frame_time(0, u64::MAX), None);
}
