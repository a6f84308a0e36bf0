//! The registers, memory, call stack and timers of the machine.

use vstd::prelude::*;
use crate::consts::{FONT_BASE, FONT_DATA, FONT_SIZE, INITIAL_PC, REGISTER_COUNT, TOTAL_RAM_SIZE};

verus! {

/// The machine state as plain mathematical values.
#[verifier::ext_equal]
pub struct Machine {
    /// The contents of memory, one byte per address.
    pub ram: Seq<u8>,
    /// The return addresses of the calls in progress, oldest first.
    pub stack: Seq<u16>,
    /// The address of the next instruction.
    pub pc: u16,
    /// The general-purpose registers `V0` to `VF`.
    pub registers: Seq<u8>,
    /// The index register `I`.
    pub index_register: u16,
    /// The delay timer.
    pub delay_timer: u8,
    /// The sound timer.
    pub sound_timer: u8,
}

impl Machine {
    /// Whether memory and the register file have their fixed sizes.
    pub open spec fn wf(self) -> bool {
        self.ram.len() == TOTAL_RAM_SIZE && self.registers.len() == REGISTER_COUNT
    }

    /// The state of a machine that has just been switched on: memory is
    /// zero except for the font table at `FONT_BASE`, the stack is empty,
    /// the program counter is at `INITIAL_PC`, and the registers and timers
    /// are zero.
    pub open spec fn initial() -> Machine {
        Machine {
            ram: Seq::new(
                TOTAL_RAM_SIZE as nat,
                |a: int|
                    if FONT_BASE <= a < FONT_BASE + FONT_SIZE {
                        FONT_DATA[a - FONT_BASE]
                    } else {
                        0u8
                    },
            ),
            stack: Seq::empty(),
            pc: INITIAL_PC,
            registers: Seq::new(REGISTER_COUNT as nat, |i: int| 0u8),
            index_register: 0,
            delay_timer: 0,
            sound_timer: 0,
        }
    }
}

/// The mutable state of the machine.
pub struct State {
    /// Memory, one byte per address.
    pub ram: [u8; TOTAL_RAM_SIZE],
    /// The return addresses of the calls in progress, oldest first.
    pub stack: Vec<u16>,
    /// The address of the next instruction.
    pub pc: u16,
    /// The general-purpose registers `V0` to `VF`.
    pub registers: [u8; REGISTER_COUNT],
    /// The index register `I`.
    pub index_register: u16,
    /// The delay timer.
    pub delay_timer: u8,
    /// The sound timer.
    pub sound_timer: u8,
}

impl View for State {
    type V = Machine;

    open spec fn view(&self) -> Machine {
        Machine {
            ram: self.ram@,
            stack: self.stack@,
            pc: self.pc,
            registers: self.registers@,
            index_register: self.index_register,
            delay_timer: self.delay_timer,
            sound_timer: self.sound_timer,
        }
    }
}

impl State {
    /// The state of a machine that has just been switched on.
    pub fn new() -> (state: State)
        ensures
            state@ == Machine::initial(),
    {
        let mut ram: [u8; TOTAL_RAM_SIZE] = [0u8; TOTAL_RAM_SIZE];
        let mut i: usize = 0;
        while i < FONT_SIZE
            invariant
                i <= FONT_SIZE,
                forall|a: int|
                    0 <= a < TOTAL_RAM_SIZE ==> #[trigger] ram[a] == (if FONT_BASE <= a < FONT_BASE
                        + i {
                        FONT_DATA[a - FONT_BASE]
                    } else {
                        0u8
                    }),
            decreases FONT_SIZE - i,
        {
            ram[FONT_BASE as usize + i] = FONT_DATA[i];
            i += 1;
        }
        let state = State {
            ram,
            stack: Vec::new(),
            pc: INITIAL_PC,
            registers: [0u8; REGISTER_COUNT],
            index_register: 0,
            delay_timer: 0,
            sound_timer: 0,
        };
        assert(state@ =~~= Machine::initial());
        state
    }
}

impl Default for State {
    fn default() -> (state: State)
        ensures
            state@ == Machine::initial(),
    {
        State::new()
    }
}

/// The view of a state always has memory and registers of the fixed sizes.
pub proof fn lemma_state_view_wf(state: State)
    ensures
        state@.wf(),
{
}

} // verus!
