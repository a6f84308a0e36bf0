//! The executable interpreter.
//!
//! [`Interpreter`] owns the machine state and the pixel plane. Its view is
//! an [`Engine`], and each operation is proved to take that view to the
//! value that the functions of [`crate::semantics`] give.
//!
//! The interpreter performs no input or output. [`Interpreter::advance`]
//! makes one move of the run loop and returns an [`Event`] that tells the
//! caller what to do before the next move: present the display, sound the
//! tone and wait out the frame, or stop.

use vstd::prelude::*;
use vstd::slice::slice_subrange;
use rand::Rng;
use crate::Error;
use crate::consts::{
    FLAG_REGISTER,
    FONT_BASE,
    GLYPH_SIZE,
    INITIAL_PC,
    INSTRUCTIONS_PER_FRAME,
    REGISTER_COUNT,
    TOTAL_RAM_SIZE,
};
use crate::display::{lemma_view_wf, CLIDisplay};
use crate::parser::{decode, Instruction};
use crate::semantics::{
    advance_spec,
    decimal_digits,
    execute_spec,
    settled,
    step_spec,
    wrapping_difference,
    wrapping_sum,
    Engine,
    Event,
    RunState,
    StepResult,
};
use crate::state::State;

verus! {

/// The fetch-decode-execute engine.
pub struct Interpreter {
    state: State,
    display: CLIDisplay,
    run_state: RunState,
    executed: u32,
}

impl View for Interpreter {
    type V = Engine;

    closed spec fn view(&self) -> Engine {
        Engine {
            machine: self.state@,
            display: self.display@,
            run_state: self.run_state,
            executed: self.executed as nat,
        }
    }
}

/// Draws a byte from the thread-local generator of the `rand` crate, by
/// `rand::rng()` and `Rng::random_range` over the full range of a byte.
///
/// Nothing is claimed about the byte that comes back: any byte may. The
/// range is never empty, so `random_range` does not panic on it. `rand`
/// itself panics if the operating system fails to supply a seed, be it when
/// a thread first uses the generator or when the generator reseeds itself
/// later on.
#[verifier::external_body]
fn random_byte() -> (byte: u8) {
    let mut rng = rand::rng();
    rng.random_range(0..=255)
}

/// Copies the registers `V0` up to and including `x` into memory at `start`.
fn dump_registers(
    ram: &mut [u8; TOTAL_RAM_SIZE],
    registers: &[u8; REGISTER_COUNT],
    start: usize,
    x: usize,
)
    requires
        x < REGISTER_COUNT,
        start + x < TOTAL_RAM_SIZE,
    ensures
        forall|a: int|
            0 <= a < TOTAL_RAM_SIZE ==> #[trigger] final(ram)[a] == (if start <= a <= start + x {
                registers[a - start]
            } else {
                old(ram)[a]
            }),
{
    let mut ri: usize = 0;
    while ri <= x
        invariant
            ri <= x + 1,
            x < REGISTER_COUNT,
            start + x < TOTAL_RAM_SIZE,
            forall|a: int|
                0 <= a < TOTAL_RAM_SIZE ==> #[trigger] ram[a] == (if start <= a < start + ri {
                    registers[a - start]
                } else {
                    old(ram)[a]
                }),
        decreases x + 1 - ri,
    {
        ram[start + ri] = registers[ri];
        ri += 1;
    }
}

/// Copies memory at `start` into the registers `V0` up to and including `x`.
fn load_registers(
    registers: &mut [u8; REGISTER_COUNT],
    ram: &[u8; TOTAL_RAM_SIZE],
    start: usize,
    x: usize,
)
    requires
        x < REGISTER_COUNT,
        start + x < TOTAL_RAM_SIZE,
    ensures
        forall|k: int|
            0 <= k < REGISTER_COUNT ==> #[trigger] final(registers)[k] == (if k <= x {
                ram[start + k]
            } else {
                old(registers)[k]
            }),
{
    let mut ri: usize = 0;
    while ri <= x
        invariant
            ri <= x + 1,
            x < REGISTER_COUNT,
            start + x < TOTAL_RAM_SIZE,
            forall|k: int|
                0 <= k < REGISTER_COUNT ==> #[trigger] registers[k] == (if k < ri {
                    ram[start + k]
                } else {
                    old(registers)[k]
                }),
        decreases x + 1 - ri,
    {
        registers[ri] = ram[start + ri];
        ri += 1;
    }
}

/// The sum of two bytes modulo 256.
fn add_bytes(a: u8, b: u8) -> (sum: u8)
    ensures
        sum == wrapping_sum(a, b),
{
    ((a as u16 + b as u16) % 0x100) as u8
}

/// The difference of two bytes modulo 256.
fn subtract_bytes(a: u8, b: u8) -> (difference: u8)
    ensures
        difference == wrapping_difference(a, b),
{
    ((0x100 + a as u16 - b as u16) % 0x100) as u8
}

impl Interpreter {
    /// An interpreter that has just been switched on.
    pub fn new() -> (interpreter: Interpreter)
        ensures
            interpreter@ == Engine::initial(),
    {
        Interpreter {
            state: State::new(),
            display: CLIDisplay::new(),
            run_state: RunState::Running,
            executed: 0,
        }
    }

    /// The machine state.
    pub fn state(&self) -> (state: &State)
        ensures
            state@ == self@.machine,
    {
        &self.state
    }

    /// The pixel plane.
    pub fn display(&self) -> (display: &CLIDisplay)
        ensures
            display@ == self@.display,
    {
        &self.display
    }

    /// Where the run stands.
    pub fn run_state(&self) -> (run_state: RunState)
        ensures
            run_state == self@.run_state,
    {
        self.run_state
    }

    /// How many instructions of the current frame have been executed.
    pub fn frame_progress(&self) -> (executed: u32)
        ensures
            executed == self@.executed,
    {
        self.executed
    }

    /// Copies a program image into memory, starting at `INITIAL_PC`.
    ///
    /// The image must fit between `INITIAL_PC` and the end of memory.
    pub fn load_rom(&mut self, rom: Vec<u8>)
        requires
            rom.len() <= TOTAL_RAM_SIZE - INITIAL_PC,
        ensures
            final(self)@ == old(self)@.with_machine(old(self)@.machine.with_program(rom@)),
    {
        let start: usize = INITIAL_PC as usize;
        let mut i: usize = 0;
        while i < rom.len()
            invariant
                i <= rom.len(),
                start == INITIAL_PC,
                rom.len() <= TOTAL_RAM_SIZE - INITIAL_PC,
                self@ == old(self)@.with_machine(
                    old(self)@.machine.with_program(rom@.subrange(0, i as int)),
                ),
            decreases rom.len() - i,
        {
            self.state.ram[start + i] = rom[i];
            i += 1;
            assert(self@ =~~= old(self)@.with_machine(
                old(self)@.machine.with_program(rom@.subrange(0, i as int)),
            ));
        }
        assert(rom@.subrange(0, i as int) =~= rom@);
    }

    /// Executes one decoded instruction. The program counter must already
    /// point past it.
    ///
    /// `random` is the byte that the random-number instruction combines
    /// with its mask.
    pub fn execute(&mut self, instruction: Instruction, random: u8) -> (result: Result<
        StepResult,
        Error,
    >)
        requires
            instruction.wf(),
        ensures
            final(self)@ == execute_spec(old(self)@, instruction, random).0,
            result == execute_spec(old(self)@, instruction, random).1,
    {
        match instruction {
            Instruction::ClearScreen => {
                self.display.clear();
                Ok(StepResult::Continue)
            },
            Instruction::ReturnFromSubroutine => self.return_from_subroutine(),
            Instruction::Jump(address) => {
                if address as u32 + 2 == self.state.pc as u32 {
                    Ok(StepResult::Halt)
                } else {
                    self.state.pc = address;
                    Ok(StepResult::Continue)
                }
            },
            Instruction::Call(address) => {
                self.state.stack.push(self.state.pc);
                self.state.pc = address;
                Ok(StepResult::Continue)
            },
            Instruction::SkipIfEqualByte(register, value) => {
                self.skip_if(self.state.registers[register] == value);
                Ok(StepResult::Continue)
            },
            Instruction::SkipIfNotEqualByte(register, value) => {
                self.skip_if(self.state.registers[register] != value);
                Ok(StepResult::Continue)
            },
            Instruction::SkipIfRegistersEqual(register_x, register_y) => {
                self.skip_if(self.state.registers[register_x] == self.state.registers[register_y]);
                Ok(StepResult::Continue)
            },
            Instruction::SetRegisterToValue(register, value) => {
                self.state.registers[register] = value;
                Ok(StepResult::Continue)
            },
            Instruction::AddToRegister(register, value) => {
                self.state.registers[register] = add_bytes(self.state.registers[register], value);
                Ok(StepResult::Continue)
            },
            Instruction::SetRegisterToRegisterValue(register_x, register_y) => {
                self.state.registers[register_x] = self.state.registers[register_y];
                Ok(StepResult::Continue)
            },
            Instruction::RegistersBitwiseOr(register_x, register_y) => {
                let value: u8 = self.state.registers[register_x] | self.state.registers[register_y];
                self.state.registers[register_x] = value;
                Ok(StepResult::Continue)
            },
            Instruction::RegistersBitwiseAnd(register_x, register_y) => {
                let value: u8 = self.state.registers[register_x] & self.state.registers[register_y];
                self.state.registers[register_x] = value;
                Ok(StepResult::Continue)
            },
            Instruction::RegistersBitwiseXor(register_x, register_y) => {
                let value: u8 = self.state.registers[register_x] ^ self.state.registers[register_y];
                self.state.registers[register_x] = value;
                Ok(StepResult::Continue)
            },
            Instruction::RegistersSumWithOverflow(register_x, register_y) => {
                let vx: u8 = self.state.registers[register_x];
                let vy: u8 = self.state.registers[register_y];
                self.set_register_and_flag(register_x, add_bytes(vx, vy), vx as u16 + vy as u16 > 0xFF);
                Ok(StepResult::Continue)
            },
            Instruction::SubtractRegisterFromRegisterValue(register_x, register_y) => {
                let vx: u8 = self.state.registers[register_x];
                let vy: u8 = self.state.registers[register_y];
                self.set_register_and_flag(register_x, subtract_bytes(vx, vy), vx >= vy);
                Ok(StepResult::Continue)
            },
            Instruction::ShiftRegisterBitsRight(register) => {
                let vx: u8 = self.state.registers[register];
                self.set_register_and_flag(register, vx / 2, vx % 2 == 1);
                Ok(StepResult::Continue)
            },
            Instruction::SubtractRegisterValueFromRegister(register_x, register_y) => {
                let vx: u8 = self.state.registers[register_x];
                let vy: u8 = self.state.registers[register_y];
                self.set_register_and_flag(register_x, subtract_bytes(vy, vx), vy >= vx);
                Ok(StepResult::Continue)
            },
            Instruction::ShiftRegisterBitsLeft(register) => {
                let vx: u8 = self.state.registers[register];
                self.set_register_and_flag(register, ((vx as u16 * 2) % 0x100) as u8, vx >= 0x80);
                Ok(StepResult::Continue)
            },
            Instruction::SkipIfRegistersNotEqual(register_x, register_y) => {
                self.skip_if(self.state.registers[register_x] != self.state.registers[register_y]);
                Ok(StepResult::Continue)
            },
            Instruction::SetIndexRegisterToValue(value) => {
                self.state.index_register = value;
                Ok(StepResult::Continue)
            },
            Instruction::JumpByValue(value) => {
                self.state.pc = self.state.registers[0] as u16 + value;
                Ok(StepResult::Continue)
            },
            Instruction::SetRegisterToRandAndValue(register, value) => {
                self.state.registers[register] = random & value;
                Ok(StepResult::Continue)
            },
            Instruction::DrawSprite(register_x, register_y, height) => self.draw_sprite(
                register_x,
                register_y,
                height,
            ),
            Instruction::SkipIfKeyEqualsRegister(_) | Instruction::SkipIfKeyNotEqualsRegister(_) => {
                Err(Error::UnsupportedInstruction)
            },
            Instruction::SetRegisterToDelayTimerValue(register) => {
                self.state.registers[register] = self.state.delay_timer;
                Ok(StepResult::Continue)
            },
            Instruction::SetDelayTimerToRegisterValue(register) => {
                self.state.delay_timer = self.state.registers[register];
                Ok(StepResult::Continue)
            },
            Instruction::SetSoundTimerToRegisterValue(register) => {
                self.state.sound_timer = self.state.registers[register];
                Ok(StepResult::Continue)
            },
            Instruction::SetIndexRegisterToSpriteForRegister(register) => {
                let character: u8 = self.state.registers[register];
                self.state.index_register = FONT_BASE + GLYPH_SIZE * character as u16;
                Ok(StepResult::Continue)
            },
            Instruction::StoreBinaryCodedDecimalAtIndexRegisterValue(register) => {
                self.store_decimal_digits(register)
            },
            Instruction::AddRegisterToIndexRegister(register) => {
                let sum: u32 = self.state.index_register as u32
                    + self.state.registers[register] as u32;
                self.state.index_register = (sum % 0x1_0000) as u16;
                Ok(StepResult::Continue)
            },
            Instruction::DumpRegistersToMemoryAtIndexRegister(register) => self.dump(register),
            Instruction::LoadMemoryToRegistersAtIndexRegister(register) => self.load(register),
        }
    }

    /// Pops the return address of the innermost call into the program
    /// counter; fails if no call is in progress.
    fn return_from_subroutine(&mut self) -> (result: Result<StepResult, Error>)
        ensures
            final(self)@ == execute_spec(old(self)@, Instruction::ReturnFromSubroutine, 0).0,
            result == execute_spec(old(self)@, Instruction::ReturnFromSubroutine, 0).1,
    {
        match self.state.stack.pop() {
            Some(address) => {
                self.state.pc = address;
                Ok(StepResult::Continue)
            },
            None => Err(Error::EmptyStackReturn),
        }
    }

    /// Moves the program counter past one more instruction if `condition`
    /// holds.
    fn skip_if(&mut self, condition: bool)
        ensures
            final(self)@ == old(self)@.with_machine(old(self)@.machine.skip_if(condition)),
    {
        if condition {
            self.state.pc = ((self.state.pc as u32 + 2) % 0x1_0000) as u16;
        }
    }

    /// Writes `value` to register `x` and then `flag` to the flag register.
    fn set_register_and_flag(&mut self, x: usize, value: u8, flag: bool)
        requires
            x < REGISTER_COUNT,
        ensures
            final(self)@ == old(self)@.with_machine(
                old(self)@.machine.set_v_and_flag(x, value, flag),
            ),
    {
        self.state.registers[x] = value;
        self.state.registers[FLAG_REGISTER] = if flag {
            1
        } else {
            0
        };
    }

    /// Draws the sprite of `height` rows at the index register at the
    /// position held in the registers `register_x` and `register_y`, and
    /// records a collision in the flag register.
    fn draw_sprite(&mut self, register_x: usize, register_y: usize, height: u8) -> (result: Result<
        StepResult,
        Error,
    >)
        requires
            register_x < REGISTER_COUNT,
            register_y < REGISTER_COUNT,
        ensures
            final(self)@ == execute_spec(
                old(self)@,
                Instruction::DrawSprite(register_x, register_y, height),
                0,
            ).0,
            result == execute_spec(
                old(self)@,
                Instruction::DrawSprite(register_x, register_y, height),
                0,
            ).1,
    {
        let x: u8 = self.state.registers[register_x];
        let y: u8 = self.state.registers[register_y];
        let start: usize = self.state.index_register as usize;
        let end: usize = start + height as usize;
        if end > TOTAL_RAM_SIZE {
            return Err(Error::AddressOutOfRange);
        }
        let sprite: &[u8] = slice_subrange(self.state.ram.as_slice(), start, end);
        let collided: bool = self.display.draw(x, y, sprite);
        self.state.registers[FLAG_REGISTER] = if collided {
            1
        } else {
            0
        };
        Ok(StepResult::Present)
    }

    /// Stores the three decimal digits of register `x` at the index
    /// register.
    fn store_decimal_digits(&mut self, x: usize) -> (result: Result<StepResult, Error>)
        requires
            x < REGISTER_COUNT,
        ensures
            final(self)@ == execute_spec(
                old(self)@,
                Instruction::StoreBinaryCodedDecimalAtIndexRegisterValue(x),
                0,
            ).0,
            result == execute_spec(
                old(self)@,
                Instruction::StoreBinaryCodedDecimalAtIndexRegisterValue(x),
                0,
            ).1,
    {
        let num: u8 = self.state.registers[x];
        let i: usize = self.state.index_register as usize;
        if i + 3 > TOTAL_RAM_SIZE {
            return Err(Error::AddressOutOfRange);
        }
        self.state.ram[i] = num / 100;
        self.state.ram[i + 1] = (num / 10) % 10;
        self.state.ram[i + 2] = num % 10;
        assert(self@.machine =~= old(self)@.machine.store(decimal_digits(num)));
        Ok(StepResult::Continue)
    }

    /// Copies the registers `V0` up to and including `x` to memory at the
    /// index register.
    fn dump(&mut self, x: usize) -> (result: Result<StepResult, Error>)
        requires
            x < REGISTER_COUNT,
        ensures
            final(self)@ == execute_spec(
                old(self)@,
                Instruction::DumpRegistersToMemoryAtIndexRegister(x),
                0,
            ).0,
            result == execute_spec(
                old(self)@,
                Instruction::DumpRegistersToMemoryAtIndexRegister(x),
                0,
            ).1,
    {
        let start: usize = self.state.index_register as usize;
        if start + x + 1 > TOTAL_RAM_SIZE {
            return Err(Error::AddressOutOfRange);
        }
        dump_registers(&mut self.state.ram, &self.state.registers, start, x);
        assert(self@.machine =~= old(self)@.machine.store(
            old(self)@.machine.registers.subrange(0, x + 1),
        ));
        Ok(StepResult::Continue)
    }

    /// Copies memory at the index register to the registers `V0` up to and
    /// including `x`.
    fn load(&mut self, x: usize) -> (result: Result<StepResult, Error>)
        requires
            x < REGISTER_COUNT,
        ensures
            final(self)@ == execute_spec(
                old(self)@,
                Instruction::LoadMemoryToRegistersAtIndexRegister(x),
                0,
            ).0,
            result == execute_spec(
                old(self)@,
                Instruction::LoadMemoryToRegistersAtIndexRegister(x),
                0,
            ).1,
    {
        let start: usize = self.state.index_register as usize;
        if start + x + 1 > TOTAL_RAM_SIZE {
            return Err(Error::AddressOutOfRange);
        }
        load_registers(&mut self.state.registers, &self.state.ram, start, x);
        assert(self@.machine =~= old(self)@.machine.load(x));
        Ok(StepResult::Continue)
    }

    /// Reads the opcode at the program counter, moves the counter past it
    /// and decodes it.
    fn fetch(&mut self) -> (result: Result<Instruction, Error>)
        ensures
            old(self)@.machine.fetch() is None ==> final(self)@ == old(self)@ && result == Err::<
                Instruction,
                Error,
            >(Error::InsufficientData),
            old(self)@.machine.fetch() matches Some(opcode) ==> final(self)@ == old(
                self,
            )@.with_machine(old(self)@.machine.set_pc((old(self)@.machine.pc + 2) as u16))
                && result == decode(opcode),
            result matches Ok(instruction) ==> instruction.wf(),
    {
        let pc: usize = self.state.pc as usize;
        if pc + 1 >= TOTAL_RAM_SIZE {
            return Err(Error::InsufficientData);
        }
        let b1: u8 = self.state.ram[pc];
        let b2: u8 = self.state.ram[pc + 1];
        self.state.pc = self.state.pc + 2;
        let opcode: u16 = (b1 as u16) << 8 | (b2 as u16);
        assert(opcode == b1 * 0x100 + b2) by (bit_vector)
            requires
                opcode == (b1 as u16) << 8 | (b2 as u16),
        ;
        Instruction::from_opcode(opcode)
    }

    /// Fetches, decodes and executes the instruction at the program
    /// counter. The random-number instruction uses the byte `given`, or
    /// draws a fresh random byte if none is given.
    fn step_from(&mut self, given: Option<u8>) -> (result: Result<StepResult, Error>)
        ensures
            exists|random: u8|
                {
                    &&& given matches Some(byte) ==> random == byte
                    &&& final(self)@ == (#[trigger] step_spec(old(self)@, random)).0
                    &&& result == step_spec(old(self)@, random).1
                },
    {
        match self.fetch() {
            Ok(instruction) => {
                let random: u8 = match (given, instruction) {
                    (Some(byte), _) => byte,
                    (None, Instruction::SetRegisterToRandAndValue(_, _)) => random_byte(),
                    (None, _) => 0,
                };
                let result = self.execute(instruction, random);
                assert(self@ == step_spec(old(self)@, random).0);
                result
            },
            Err(error) => {
                let ghost random: u8 = match given {
                    Some(byte) => byte,
                    None => 0,
                };
                assert(self@ == step_spec(old(self)@, random).0);
                Err(error)
            },
        }
    }

    /// Fetches, decodes and executes the instruction at the program
    /// counter, with `random` as the byte for the random-number instruction.
    pub fn step_with(&mut self, random: u8) -> (result: Result<StepResult, Error>)
        ensures
            final(self)@ == step_spec(old(self)@, random).0,
            result == step_spec(old(self)@, random).1,
    {
        self.step_from(Some(random))
    }

    /// Fetches, decodes and executes the instruction at the program
    /// counter. The random-number instruction draws a fresh random byte.
    pub fn step(&mut self) -> (result: Result<StepResult, Error>)
        ensures
            exists|random: u8|
                final(self)@ == (#[trigger] step_spec(old(self)@, random)).0 && result == step_spec(
                    old(self)@,
                    random,
                ).1,
    {
        self.step_from(None)
    }

    /// Updates the timers: each one that is not zero goes down by one.
    /// Returns whether the tone is to be sounded, which is the case when
    /// the sound timer went from one to zero.
    pub fn update_timers(&mut self) -> (beep: bool)
        ensures
            final(self)@ == old(self)@.with_machine(old(self)@.machine.ticked()),
            beep == old(self)@.machine.beeps(),
    {
        if self.state.delay_timer > 0 {
            self.state.delay_timer -= 1;
        }
        let mut beep: bool = false;
        if self.state.sound_timer > 0 {
            beep = self.state.sound_timer == 1;
            self.state.sound_timer -= 1;
        }
        beep
    }

    /// Records how a step ended and says what the caller has to do.
    fn settle(&mut self, result: Result<StepResult, Error>) -> (event: Event)
        requires
            old(self).executed < INSTRUCTIONS_PER_FRAME,
        ensures
            final(self)@ == settled(old(self)@, result).0,
            event == settled(old(self)@, result).1,
    {
        match result {
            Err(error) => {
                self.run_state = RunState::Faulted(error);
                Event::Faulted(error)
            },
            Ok(StepResult::Halt) => {
                self.run_state = RunState::Halted;
                Event::Halted
            },
            Ok(StepResult::Present) => {
                self.executed += 1;
                Event::Present
            },
            Ok(StepResult::Continue) => {
                self.executed += 1;
                Event::Continue
            },
        }
    }

    /// Makes one move of the run loop. The random-number instruction uses
    /// the byte `given`, or draws a fresh random byte if none is given.
    fn advance_from(&mut self, given: Option<u8>) -> (event: Event)
        ensures
            exists|random: u8|
                {
                    &&& given matches Some(byte) ==> random == byte
                    &&& final(self)@ == (#[trigger] advance_spec(old(self)@, random)).0
                    &&& event == advance_spec(old(self)@, random).1
                },
    {
        let ghost unused: u8 = match given {
            Some(byte) => byte,
            None => 0,
        };
        match self.run_state {
            RunState::Halted => {
                assert(self@ == advance_spec(old(self)@, unused).0);
                Event::Halted
            },
            RunState::Faulted(error) => {
                assert(self@ == advance_spec(old(self)@, unused).0);
                Event::Faulted(error)
            },
            RunState::Running => {
                if self.executed >= INSTRUCTIONS_PER_FRAME {
                    let beep: bool = self.update_timers();
                    self.executed = 0;
                    assert(self@ == advance_spec(old(self)@, unused).0);
                    Event::FrameDone { beep }
                } else {
                    let result = self.step_from(given);
                    let ghost random: u8 = choose|random: u8|
                        {
                            &&& given matches Some(byte) ==> random == byte
                            &&& self@ == (#[trigger] step_spec(old(self)@, random)).0
                            &&& result == step_spec(old(self)@, random).1
                        };
                    let event = self.settle(result);
                    assert(self@ == advance_spec(old(self)@, random).0);
                    event
                }
            },
        }
    }

    /// Makes one move of the run loop, with `random` as the byte for the
    /// random-number instruction.
    ///
    /// A run that is over stays as it is and reports its end again. A
    /// running one executes one instruction, or, after every
    /// `INSTRUCTIONS_PER_FRAME` instructions, updates the timers instead.
    pub fn advance_with(&mut self, random: u8) -> (event: Event)
        ensures
            final(self)@ == advance_spec(old(self)@, random).0,
            event == advance_spec(old(self)@, random).1,
    {
        self.advance_from(Some(random))
    }

    /// Makes one move of the run loop. The random-number instruction draws
    /// a fresh random byte.
    pub fn advance(&mut self) -> (event: Event)
        ensures
            exists|random: u8|
                final(self)@ == (#[trigger] advance_spec(old(self)@, random)).0 && event
                    == advance_spec(old(self)@, random).1,
    {
        self.advance_from(None)
    }
}

/// The view of an interpreter always has memory, registers and display of
/// the fixed sizes.
pub proof fn lemma_interpreter_view_wf(interpreter: Interpreter)
    ensures
        interpreter@.wf(),
{
    lemma_view_wf(interpreter.display);
}

impl Default for Interpreter {
    fn default() -> (interpreter: Interpreter)
        ensures
            interpreter@ == Engine::initial(),
    {
        Interpreter::new()
    }
}

} // verus!
