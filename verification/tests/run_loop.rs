use secrus8::consts::{INSTRUCTIONS_PER_FRAME, TARGET_FPS, TARGET_IPS};
use secrus8::interpreter::Interpreter;
use secrus8::semantics::{Event, RunState, StepResult};
use secrus8::state::State;
use secrus8::Error;

fn loaded(rom: &[u8]) -> Interpreter {
    let mut interpreter = Interpreter::new();
    interpreter.load_rom(rom.to_vec());
    interpreter
}

#[test]
fn load_rom_copies_the_image_to_the_origin() {
    let interpreter = loaded(&[0x12, 0x34, 0x56]);
    let fresh = State::new();
    let state = interpreter.state();
    assert_eq!(state.ram[0x200..0x203], [0x12, 0x34, 0x56]);
    assert_eq!(state.ram[..0x200], fresh.ram[..0x200]);
    assert_eq!(state.ram[0x203..], fresh.ram[0x203..]);
    assert_eq!(state.pc, 0x200);
    assert_eq!(state.registers, [0; 16]);
}

#[test]
fn load_rom_accepts_an_image_that_fills_memory() {
    let rom = vec![0xABu8; 4096 - 0x200];
    let interpreter = loaded(&rom);
    assert_eq!(interpreter.state().ram[0x200..], rom[..]);
    assert_eq!(interpreter.state().ram[0x1FF], 0);
}

#[test]
fn load_rom_accepts_an_empty_image() {
    let interpreter = loaded(&[]);
    assert_eq!(interpreter.state().ram, State::new().ram);
}

#[test]
fn self_jump_program_halts_without_other_changes() {
    let mut interpreter = loaded(&[0x12, 0x00]);
    let ram = interpreter.state().ram;
    assert_eq!(interpreter.advance(), Event::Halted);
    assert_eq!(interpreter.run_state(), RunState::Halted);
    let state = interpreter.state();
    assert_eq!(state.ram, ram);
    assert_eq!(state.registers, [0; 16]);
    assert_eq!(state.index_register, 0);
    assert!(state.stack.is_empty());
    assert_eq!(state.delay_timer, 0);
    assert_eq!(state.sound_timer, 0);
    assert_eq!(state.pc, 0x202);
    for row in 0..32 {
        for col in 0..64 {
            assert!(!interpreter.display().pixel(row, col));
        }
    }
    // The run is over for good.
    assert_eq!(interpreter.advance(), Event::Halted);
    assert_eq!(interpreter.state().pc, 0x202);
}

#[test]
fn self_jump_later_in_the_program_halts() {
    // 0x200: V1 := 7; 0x202: I := 0x123; 0x204: jump 0x204
    let mut interpreter = loaded(&[0x61, 0x07, 0xA1, 0x23, 0x12, 0x04]);
    assert_eq!(interpreter.advance(), Event::Continue);
    assert_eq!(interpreter.advance(), Event::Continue);
    assert_eq!(interpreter.advance(), Event::Halted);
    assert_eq!(interpreter.state().registers[1], 7);
    assert_eq!(interpreter.state().index_register, 0x123);
}

#[test]
fn jump_goes_to_its_target() {
    // 0x200: jump 0x204; 0x202: V1 := 1; 0x204: V2 := 2; 0x206: jump 0x206
    let mut interpreter = loaded(&[0x12, 0x04, 0x61, 0x01, 0x62, 0x02, 0x12, 0x06]);
    assert_eq!(interpreter.step(), Ok(StepResult::Continue));
    assert_eq!(interpreter.state().pc, 0x204);
    assert_eq!(interpreter.step(), Ok(StepResult::Continue));
    assert_eq!(interpreter.step(), Ok(StepResult::Halt));
    assert_eq!(interpreter.state().registers[1], 0);
    assert_eq!(interpreter.state().registers[2], 2);
}

#[test]
fn unknown_opcode_faults_with_the_opcode_and_the_counter_advanced() {
    let mut interpreter = loaded(&[0x60, 0x01, 0x00, 0xE1]);
    assert_eq!(interpreter.advance(), Event::Continue);
    assert_eq!(interpreter.advance(), Event::Faulted(Error::UnknownOpcode(0x00E1)));
    assert_eq!(interpreter.run_state(), RunState::Faulted(Error::UnknownOpcode(0x00E1)));
    assert_eq!(interpreter.state().pc, 0x204);
    assert_eq!(interpreter.state().registers[0], 1);
    // The run is over for good.
    assert_eq!(interpreter.advance(), Event::Faulted(Error::UnknownOpcode(0x00E1)));
    assert_eq!(interpreter.state().pc, 0x204);
}

#[test]
fn zeroed_memory_is_an_unknown_opcode() {
    let mut interpreter = Interpreter::new();
    assert_eq!(interpreter.step(), Err(Error::UnknownOpcode(0x0000)));
    assert_eq!(interpreter.state().pc, 0x202);
}

#[test]
fn return_without_call_faults() {
    let mut interpreter = loaded(&[0x00, 0xEE]);
    assert_eq!(interpreter.advance(), Event::Faulted(Error::EmptyStackReturn));
    assert_eq!(interpreter.run_state(), RunState::Faulted(Error::EmptyStackReturn));
    assert_eq!(interpreter.state().pc, 0x202);
}

#[test]
fn key_test_faults() {
    let mut interpreter = loaded(&[0xE0, 0x9E]);
    assert_eq!(interpreter.advance(), Event::Faulted(Error::UnsupportedInstruction));
    let mut interpreter = loaded(&[0xE0, 0xA1]);
    assert_eq!(interpreter.advance(), Event::Faulted(Error::UnsupportedInstruction));
}

#[test]
fn running_off_the_end_of_memory_faults() {
    // 0x200: V0 := 0xFF; 0x202: jump to V0 + 0xF00 = 0xFFF
    let mut interpreter = loaded(&[0x60, 0xFF, 0xBF, 0x00]);
    assert_eq!(interpreter.step(), Ok(StepResult::Continue));
    assert_eq!(interpreter.step(), Ok(StepResult::Continue));
    assert_eq!(interpreter.state().pc, 0xFFF);
    assert_eq!(interpreter.step(), Err(Error::InsufficientData));
    assert_eq!(interpreter.state().pc, 0xFFF);
    assert_eq!(interpreter.advance(), Event::Faulted(Error::InsufficientData));
}

#[test]
fn last_instruction_slot_can_be_fetched() {
    let mut rom = vec![0u8; 4096 - 0x200];
    // 0x200: jump 0xFFE; 0xFFE: V3 := 0x21
    rom[0] = 0x1F;
    rom[1] = 0xFE;
    rom[0xFFE - 0x200] = 0x63;
    rom[0xFFF - 0x200] = 0x21;
    let mut interpreter = loaded(&rom);
    assert_eq!(interpreter.step(), Ok(StepResult::Continue));
    assert_eq!(interpreter.step(), Ok(StepResult::Continue));
    assert_eq!(interpreter.state().registers[3], 0x21);
    assert_eq!(interpreter.state().pc, 0x1000);
    assert_eq!(interpreter.step(), Err(Error::InsufficientData));
}

#[test]
fn step_with_uses_the_given_random_byte() {
    let mut interpreter = loaded(&[0xC5, 0x3C]);
    assert_eq!(interpreter.step_with(0xF5), Ok(StepResult::Continue));
    assert_eq!(interpreter.state().registers[5], 0x34);
    assert_eq!(interpreter.state().pc, 0x202);
}

#[test]
fn advance_with_uses_the_given_random_byte() {
    let mut interpreter = loaded(&[0xC5, 0xF0]);
    assert_eq!(interpreter.advance_with(0xAB), Event::Continue);
    assert_eq!(interpreter.state().registers[5], 0xA0);
}

#[test]
fn random_instruction_stays_under_its_mask() {
    let mut seen = [false; 16];
    for _ in 0..2000 {
        let mut interpreter = loaded(&[0xC1, 0x0F]);
        assert_eq!(interpreter.step(), Ok(StepResult::Continue));
        let value = interpreter.state().registers[1];
        assert_eq!(value & 0xF0, 0);
        seen[value as usize] = true;
    }
    // Drawn afresh each time: with 2000 draws from sixteen values, more than
    // one value has come up.
    assert!(seen.iter().filter(|s| **s).count() > 1);
}

#[test]
fn draw_asks_for_the_display_to_be_presented() {
    // 0x200: I := 0x50; 0x202: draw 5 rows at (V0, V0); 0x204: jump 0x204
    let mut interpreter = loaded(&[0xA0, 0x50, 0xD0, 0x05, 0x12, 0x04]);
    assert_eq!(interpreter.advance(), Event::Continue);
    assert_eq!(interpreter.advance(), Event::Present);
    assert!(interpreter.display().pixel(0, 0));
    assert_eq!(interpreter.advance(), Event::Halted);
}

#[test]
fn instructions_per_frame_is_the_truncated_quotient() {
    assert_eq!(TARGET_IPS, 700);
    assert_eq!(TARGET_FPS, 60);
    assert_eq!(INSTRUCTIONS_PER_FRAME, 11);
}

#[test]
fn timers_are_updated_once_per_frame_of_instructions() {
    // 0x200: V0 := 3; 0x202: delay := V0; 0x204: sound := V0; then V1 += 1 forever
    let mut rom = vec![0x60, 0x03, 0xF0, 0x15, 0xF0, 0x18];
    for _ in 0..64 {
        rom.extend_from_slice(&[0x71, 0x01]);
    }
    let mut interpreter = loaded(&rom);
    let mut beeps = Vec::new();
    for frame in 0..5 {
        for _ in 0..INSTRUCTIONS_PER_FRAME {
            assert_eq!(interpreter.advance(), Event::Continue);
        }
        let expected_before: u8 = 3u8.saturating_sub(frame);
        assert_eq!(interpreter.state().delay_timer, expected_before);
        assert_eq!(interpreter.state().sound_timer, expected_before);
        match interpreter.advance() {
            Event::FrameDone { beep } => beeps.push(beep),
            other => panic!("expected the end of a frame, got {:?}", other),
        }
        assert_eq!(interpreter.state().delay_timer, expected_before.saturating_sub(1));
        assert_eq!(interpreter.state().sound_timer, expected_before.saturating_sub(1));
    }
    assert_eq!(beeps, vec![false, false, true, false, false]);
    // Eleven instructions per frame: three to set up, the rest increments.
    assert_eq!(interpreter.state().registers[1], 5 * 11 - 3);
}

#[test]
fn timer_decay_from_every_start_value() {
    for n in 0..=255u8 {
        let mut interpreter = Interpreter::new();
        assert_eq!(
            interpreter.execute(secrus8::parser::Instruction::SetRegisterToValue(0, n), 0),
            Ok(StepResult::Continue)
        );
        assert_eq!(
            interpreter.execute(secrus8::parser::Instruction::SetDelayTimerToRegisterValue(0), 0),
            Ok(StepResult::Continue)
        );
        assert_eq!(
            interpreter.execute(secrus8::parser::Instruction::SetSoundTimerToRegisterValue(0), 0),
            Ok(StepResult::Continue)
        );
        let mut beeps: u32 = 0;
        for update in 1..=(n as u32 + 3) {
            let beep = interpreter.update_timers();
            if beep {
                beeps += 1;
                assert_eq!(update, n as u32);
                assert_eq!(interpreter.state().sound_timer, 0);
            }
            let expected = (n as u32).saturating_sub(update) as u8;
            assert_eq!(interpreter.state().delay_timer, expected);
            assert_eq!(interpreter.state().sound_timer, expected);
        }
        assert_eq!(beeps, if n == 0 { 0 } else { 1 });
        assert_eq!(interpreter.state().delay_timer, 0);
        assert_eq!(interpreter.state().sound_timer, 0);
    }
}

#[test]
fn frame_progress_counts_instructions_and_restarts_with_each_frame() {
    let mut rom = Vec::new();
    for _ in 0..40 {
        rom.extend_from_slice(&[0x71, 0x01]);
    }
    let mut interpreter = loaded(&rom);
    for frame in 0..3 {
        for executed in 0..INSTRUCTIONS_PER_FRAME {
            assert_eq!(interpreter.frame_progress(), executed);
            assert_eq!(interpreter.advance(), Event::Continue);
        }
        assert_eq!(interpreter.frame_progress(), INSTRUCTIONS_PER_FRAME);
        assert_eq!(interpreter.advance(), Event::FrameDone { beep: false });
        assert_eq!(interpreter.frame_progress(), 0);
        assert_eq!(interpreter.state().registers[1] as u32, (frame + 1) * INSTRUCTIONS_PER_FRAME);
    }
}

#[test]
fn halting_does_not_update_timers() {
    // 0x200: V0 := 9; 0x202: delay := V0; 0x204: jump 0x204
    let mut interpreter = loaded(&[0x60, 0x09, 0xF0, 0x15, 0x12, 0x04]);
    assert_eq!(interpreter.advance(), Event::Continue);
    assert_eq!(interpreter.advance(), Event::Continue);
    for _ in 0..20 {
        assert_eq!(interpreter.advance(), Event::Halted);
    }
    assert_eq!(interpreter.state().delay_timer, 9);
}

#[test]
fn default_interpreter_is_a_new_one() {
    let interpreter = Interpreter::default();
    assert_eq!(interpreter.run_state(), RunState::Running);
    assert_eq!(interpreter.state().pc, 0x200);
    assert_eq!(interpreter.state().ram, State::default().ram);
}

#[test]
fn subroutine_program() {
    // 0x200: call 0x206; 0x202: jump 0x202; 0x204: (unused)
    // 0x206: V4 := 0x44; 0x208: return
    let mut interpreter =
        loaded(&[0x22, 0x06, 0x12, 0x02, 0x00, 0x00, 0x64, 0x44, 0x00, 0xEE]);
    assert_eq!(interpreter.advance(), Event::Continue);
    assert_eq!(interpreter.state().stack, vec![0x202]);
    assert_eq!(interpreter.advance(), Event::Continue);
    assert_eq!(interpreter.advance(), Event::Continue);
    assert_eq!(interpreter.state().pc, 0x202);
    assert_eq!(interpreter.advance(), Event::Halted);
    assert_eq!(interpreter.state().registers[4], 0x44);
}
