//! What the machine does, stated over mathematical values.
//!
//! [`execute_spec`] gives the effect of one decoded instruction,
//! [`step_spec`] the effect of fetching, decoding and executing the
//! instruction at the program counter, and [`advance_spec`] one move of the
//! run loop, which paces instructions against timer updates. The executable
//! interpreter is proved to compute exactly these functions; the laws at the
//! end of the file are consequences that hold for every state.

use vstd::prelude::*;
use crate::Error;
use crate::consts::{
    FLAG_REGISTER,
    FONT_BASE,
    GLYPH_SIZE,
    INITIAL_PC,
    INSTRUCTIONS_PER_FRAME,
    REGISTER_COUNT,
    TOTAL_RAM_SIZE,
};
use crate::display::{blank, collides, drawn, grid_wf};
use crate::parser::{
    decode,
    lemma_decode_inverts_encoding,
    lemma_encoding_inverts_decode,
    Instruction,
};
use crate::state::Machine;

verus! {

/// How a single step ended.
#[derive(Debug, Clone, Copy, PartialEq, Eq, Structural)]
pub enum StepResult {
    /// The instruction was executed; the run goes on.
    Continue,
    /// A sprite was drawn; the display should be presented before the run
    /// goes on.
    Present,
    /// The instruction was a jump to itself; the program is finished.
    Halt,
}

/// Where a run stands.
#[derive(Debug, Clone, Copy, PartialEq, Eq, Structural)]
pub enum RunState {
    /// Instructions are being executed.
    Running,
    /// The program finished by jumping to itself. Final.
    Halted,
    /// The run was stopped by the given error. Final.
    Faulted(Error),
}

/// What the caller of the run loop has to do after one move of it.
#[derive(Debug, Clone, Copy, PartialEq, Eq, Structural)]
pub enum Event {
    /// An instruction was executed; nothing to do.
    Continue,
    /// A sprite was drawn; present the display.
    Present,
    /// A frame's worth of instructions has been executed and the timers
    /// have been updated; sound the tone if `beep` is set, then wait for the
    /// rest of the frame.
    FrameDone { beep: bool },
    /// The run is over: the program finished.
    Halted,
    /// The run is over: it was stopped by the given error.
    Faulted(Error),
}

/// The interpreter as plain mathematical values.
#[verifier::ext_equal]
pub struct Engine {
    /// Registers, memory, stack and timers.
    pub machine: Machine,
    /// The pixel plane, row by row.
    pub display: Seq<Seq<bool>>,
    /// Where the run stands.
    pub run_state: RunState,
    /// How many instructions of the current frame have been executed.
    pub executed: nat,
}

/// The sum of two bytes modulo 256.
pub open spec fn wrapping_sum(a: u8, b: u8) -> u8 {
    ((a + b) % 0x100) as u8
}

/// The difference of two bytes modulo 256.
pub open spec fn wrapping_difference(a: u8, b: u8) -> u8 {
    ((a - b) % 0x100) as u8
}

/// A flag as the byte that is stored in the flag register.
pub open spec fn flag_byte(flag: bool) -> u8 {
    if flag {
        1
    } else {
        0
    }
}

/// The hundreds, tens and ones digit of a byte.
pub open spec fn decimal_digits(v: u8) -> Seq<u8> {
    seq![v / 100, (v / 10) % 10, v % 10]
}

impl Machine {
    /// The value of register `x`.
    pub open spec fn v(self, x: usize) -> u8 {
        self.registers[x as int]
    }

    /// The machine with register `x` set to `value`.
    pub open spec fn set_v(self, x: usize, value: u8) -> Machine {
        Machine { registers: self.registers.update(x as int, value), ..self }
    }

    /// The machine with register `x` set to `value` and then the flag
    /// register set to `flag`. The flag is written last, so it wins when `x`
    /// is the flag register itself.
    pub open spec fn set_v_and_flag(self, x: usize, value: u8, flag: bool) -> Machine {
        self.set_v(x, value).set_v(FLAG_REGISTER, flag_byte(flag))
    }

    /// The machine with the program counter set to `pc`.
    pub open spec fn set_pc(self, pc: u16) -> Machine {
        Machine { pc, ..self }
    }

    /// The machine with the program counter moved past one more instruction
    /// if `condition` holds. The counter is 16 bits wide and wraps.
    pub open spec fn skip_if(self, condition: bool) -> Machine {
        if condition {
            self.set_pc(((self.pc + 2) % 0x1_0000) as u16)
        } else {
            self
        }
    }

    /// Whether the `len` bytes that start at the index register lie inside
    /// memory.
    pub open spec fn addressable(self, len: int) -> bool {
        self.index_register + len <= TOTAL_RAM_SIZE
    }

    /// The `len` bytes of memory that start at the index register.
    pub open spec fn operand(self, len: int) -> Seq<u8> {
        self.ram.subrange(self.index_register as int, self.index_register + len)
    }

    /// The machine with the bytes `bytes` stored at the index register.
    pub open spec fn store(self, bytes: Seq<u8>) -> Machine {
        Machine {
            ram: Seq::new(
                self.ram.len(),
                |a: int|
                    if self.index_register <= a < self.index_register + bytes.len() {
                        bytes[a - self.index_register]
                    } else {
                        self.ram[a]
                    },
            ),
            ..self
        }
    }

    /// The machine with the registers `V0` up to and including `x` loaded
    /// from the bytes at the index register.
    pub open spec fn load(self, x: usize) -> Machine {
        Machine {
            registers: Seq::new(
                self.registers.len(),
                |k: int|
                    if k <= x {
                        self.ram[self.index_register + k]
                    } else {
                        self.registers[k]
                    },
            ),
            ..self
        }
    }

    /// The machine with the program image `program` copied into memory at
    /// `INITIAL_PC`.
    pub open spec fn with_program(self, program: Seq<u8>) -> Machine {
        Machine {
            ram: Seq::new(
                self.ram.len(),
                |a: int|
                    if INITIAL_PC <= a < INITIAL_PC + program.len() {
                        program[a - INITIAL_PC]
                    } else {
                        self.ram[a]
                    },
            ),
            ..self
        }
    }

    /// The machine after one timer update: each timer that is not zero has
    /// gone down by one.
    pub open spec fn ticked(self) -> Machine {
        Machine {
            delay_timer: if self.delay_timer > 0 {
                (self.delay_timer - 1) as u8
            } else {
                0
            },
            sound_timer: if self.sound_timer > 0 {
                (self.sound_timer - 1) as u8
            } else {
                0
            },
            ..self
        }
    }

    /// Whether a timer update of this machine sounds the tone: the sound
    /// timer is about to go from one to zero.
    pub open spec fn beeps(self) -> bool {
        self.sound_timer == 1
    }

    /// The machine after `n` timer updates.
    pub open spec fn ticked_times(self, n: nat) -> Machine
        decreases n,
    {
        if n == 0 {
            self
        } else {
            self.ticked_times((n - 1) as nat).ticked()
        }
    }

    /// The opcode at the program counter, high byte first, if both of its
    /// bytes lie inside memory.
    pub open spec fn fetch(self) -> Option<u16> {
        if self.pc + 1 < TOTAL_RAM_SIZE {
            Some((self.ram[self.pc as int] * 0x100 + self.ram[self.pc + 1]) as u16)
        } else {
            None
        }
    }
}

impl Engine {
    /// Whether memory, the register file and the display have their fixed
    /// sizes.
    pub open spec fn wf(self) -> bool {
        self.machine.wf() && grid_wf(self.display)
    }

    /// The engine of a machine that has just been switched on.
    pub open spec fn initial() -> Engine {
        Engine {
            machine: Machine::initial(),
            display: blank(),
            run_state: RunState::Running,
            executed: 0,
        }
    }

    /// The engine with its machine replaced.
    pub open spec fn with_machine(self, machine: Machine) -> Engine {
        Engine { machine, ..self }
    }

    /// The outcome of an instruction that ran to completion and left the
    /// machine as `machine`.
    pub open spec fn proceed(self, machine: Machine) -> (Engine, Result<StepResult, Error>) {
        (self.with_machine(machine), Ok(StepResult::Continue))
    }

    /// The outcome of an instruction that was refused: nothing changes.
    pub open spec fn fault(self, error: Error) -> (Engine, Result<StepResult, Error>) {
        (self, Err(error))
    }
}

/// The effect of one instruction on an engine whose program counter already
/// points past that instruction.
///
/// `random` is the byte that the random-number instruction combines with its
/// mask; no other instruction looks at it.
///
/// Three kinds of instruction can be refused, and then nothing changes:
/// a return while no call is in progress; an instruction whose memory
/// operand, which starts at the index register, reaches past the end of
/// memory; and the two key tests. There is no keypad, and the key tests are
/// always refused rather than answered as if a key were up or down.
///
/// A jump to the address of the jump itself halts. The arithmetic
/// instructions that report a carry, a borrow or a lost bit write it to the
/// flag register after the result, so the flag stands when both are the
/// same register.
pub open spec fn execute_spec(e: Engine, instruction: Instruction, random: u8) -> (
    Engine,
    Result<StepResult, Error>,
) {
    let m = e.machine;
    match instruction {
        Instruction::ClearScreen => (Engine { display: blank(), ..e }, Ok(StepResult::Continue)),
        Instruction::ReturnFromSubroutine => if m.stack.len() == 0 {
            e.fault(Error::EmptyStackReturn)
        } else {
            e.proceed(Machine { pc: m.stack.last(), stack: m.stack.drop_last(), ..m })
        },
        Instruction::Jump(nnn) => if nnn + 2 == m.pc {
            (e, Ok(StepResult::Halt))
        } else {
            e.proceed(m.set_pc(nnn))
        },
        Instruction::Call(nnn) => e.proceed(Machine { pc: nnn, stack: m.stack.push(m.pc), ..m }),
        Instruction::SkipIfEqualByte(x, kk) => e.proceed(m.skip_if(m.v(x) == kk)),
        Instruction::SkipIfNotEqualByte(x, kk) => e.proceed(m.skip_if(m.v(x) != kk)),
        Instruction::SkipIfRegistersEqual(x, y) => e.proceed(m.skip_if(m.v(x) == m.v(y))),
        Instruction::SetRegisterToValue(x, kk) => e.proceed(m.set_v(x, kk)),
        Instruction::AddToRegister(x, kk) => e.proceed(m.set_v(x, wrapping_sum(m.v(x), kk))),
        Instruction::SetRegisterToRegisterValue(x, y) => e.proceed(m.set_v(x, m.v(y))),
        Instruction::RegistersBitwiseOr(x, y) => e.proceed(m.set_v(x, m.v(x) | m.v(y))),
        Instruction::RegistersBitwiseAnd(x, y) => e.proceed(m.set_v(x, m.v(x) & m.v(y))),
        Instruction::RegistersBitwiseXor(x, y) => e.proceed(m.set_v(x, m.v(x) ^ m.v(y))),
        Instruction::RegistersSumWithOverflow(x, y) => e.proceed(
            m.set_v_and_flag(x, wrapping_sum(m.v(x), m.v(y)), m.v(x) + m.v(y) > 0xFF),
        ),
        Instruction::SubtractRegisterFromRegisterValue(x, y) => e.proceed(
            m.set_v_and_flag(x, wrapping_difference(m.v(x), m.v(y)), m.v(x) >= m.v(y)),
        ),
        Instruction::ShiftRegisterBitsRight(x) => e.proceed(
            m.set_v_and_flag(x, m.v(x) / 2, m.v(x) % 2 == 1),
        ),
        Instruction::SubtractRegisterValueFromRegister(x, y) => e.proceed(
            m.set_v_and_flag(x, wrapping_difference(m.v(y), m.v(x)), m.v(y) >= m.v(x)),
        ),
        Instruction::ShiftRegisterBitsLeft(x) => e.proceed(
            m.set_v_and_flag(x, ((m.v(x) * 2) % 0x100) as u8, m.v(x) >= 0x80),
        ),
        Instruction::SkipIfRegistersNotEqual(x, y) => e.proceed(m.skip_if(m.v(x) != m.v(y))),
        Instruction::SetIndexRegisterToValue(nnn) => e.proceed(
            Machine { index_register: nnn, ..m },
        ),
        Instruction::JumpByValue(nnn) => e.proceed(m.set_pc((m.v(0) + nnn) as u16)),
        Instruction::SetRegisterToRandAndValue(x, kk) => e.proceed(m.set_v(x, random & kk)),
        Instruction::DrawSprite(x, y, n) => if m.addressable(n as int) {
            let sprite = m.operand(n as int);
            (
                Engine {
                    machine: m.set_v(
                        FLAG_REGISTER,
                        flag_byte(collides(e.display, m.v(x), m.v(y), sprite)),
                    ),
                    display: drawn(e.display, m.v(x), m.v(y), sprite),
                    ..e
                },
                Ok(StepResult::Present),
            )
        } else {
            e.fault(Error::AddressOutOfRange)
        },
        Instruction::SkipIfKeyEqualsRegister(_) | Instruction::SkipIfKeyNotEqualsRegister(_) => {
            e.fault(Error::UnsupportedInstruction)
        },
        Instruction::SetRegisterToDelayTimerValue(x) => e.proceed(m.set_v(x, m.delay_timer)),
        Instruction::SetDelayTimerToRegisterValue(x) => e.proceed(
            Machine { delay_timer: m.v(x), ..m },
        ),
        Instruction::SetSoundTimerToRegisterValue(x) => e.proceed(
            Machine { sound_timer: m.v(x), ..m },
        ),
        Instruction::SetIndexRegisterToSpriteForRegister(x) => e.proceed(
            Machine { index_register: (FONT_BASE + GLYPH_SIZE * m.v(x)) as u16, ..m },
        ),
        Instruction::StoreBinaryCodedDecimalAtIndexRegisterValue(x) => if m.addressable(3) {
            e.proceed(m.store(decimal_digits(m.v(x))))
        } else {
            e.fault(Error::AddressOutOfRange)
        },
        Instruction::AddRegisterToIndexRegister(x) => e.proceed(
            Machine { index_register: ((m.index_register + m.v(x)) % 0x1_0000) as u16, ..m },
        ),
        Instruction::DumpRegistersToMemoryAtIndexRegister(x) => if m.addressable(x + 1) {
            e.proceed(m.store(m.registers.subrange(0, x + 1)))
        } else {
            e.fault(Error::AddressOutOfRange)
        },
        Instruction::LoadMemoryToRegistersAtIndexRegister(x) => if m.addressable(x + 1) {
            e.proceed(m.load(x))
        } else {
            e.fault(Error::AddressOutOfRange)
        },
    }
}

/// The effect of one step: fetch the opcode at the program counter, move the
/// counter past it, decode it and execute the instruction.
///
/// If the opcode does not lie inside memory, nothing changes and the step
/// fails. If it is not recognized, or the instruction is refused, the
/// counter has moved and nothing else has changed.
pub open spec fn step_spec(e: Engine, random: u8) -> (Engine, Result<StepResult, Error>) {
    match e.machine.fetch() {
        None => e.fault(Error::InsufficientData),
        Some(opcode) => {
            let fetched = e.with_machine(e.machine.set_pc((e.machine.pc + 2) as u16));
            match decode(opcode) {
                Err(error) => fetched.fault(error),
                Ok(instruction) => execute_spec(fetched, instruction, random),
            }
        },
    }
}

/// The engine and the event after a step that left the engine as `stepped`
/// and ended with `result`: an error or a halt ends the run, anything else
/// counts towards the frame.
pub open spec fn settled(stepped: Engine, result: Result<StepResult, Error>) -> (Engine, Event) {
    match result {
        Err(error) => (
            Engine { run_state: RunState::Faulted(error), ..stepped },
            Event::Faulted(error),
        ),
        Ok(StepResult::Halt) => (Engine { run_state: RunState::Halted, ..stepped }, Event::Halted),
        Ok(StepResult::Present) => (
            Engine { executed: stepped.executed + 1, ..stepped },
            Event::Present,
        ),
        Ok(StepResult::Continue) => (
            Engine { executed: stepped.executed + 1, ..stepped },
            Event::Continue,
        ),
    }
}

/// One move of the run loop.
///
/// A run that is over stays as it is. Otherwise, once a frame's worth of
/// instructions has been executed, the move is a timer update; before that,
/// it is one step, which counts towards the frame unless it ends the run.
pub open spec fn advance_spec(e: Engine, random: u8) -> (Engine, Event) {
    match e.run_state {
        RunState::Halted => (e, Event::Halted),
        RunState::Faulted(error) => (e, Event::Faulted(error)),
        RunState::Running => if e.executed >= INSTRUCTIONS_PER_FRAME {
            (
                Engine { machine: e.machine.ticked(), executed: 0, ..e },
                Event::FrameDone { beep: e.machine.beeps() },
            )
        } else {
            let (stepped, result) = step_spec(e, random);
            settled(stepped, result)
        },
    }
}

/// The value of the flag register after `instruction` has been executed.
pub open spec fn flag_after(e: Engine, instruction: Instruction, random: u8) -> u8 {
    execute_spec(e, instruction, random).0.machine.v(FLAG_REGISTER)
}

/// The value of register `x` after `instruction` has been executed.
pub open spec fn v_after(e: Engine, instruction: Instruction, random: u8, x: usize) -> u8 {
    execute_spec(e, instruction, random).0.machine.v(x)
}

/// The flag register after an arithmetic instruction on the registers `x`
/// and `y`, which hold `a` and `b`: addition sets it exactly when `a + b`
/// exceeds 255, each subtraction exactly when the minuend is at least the
/// subtrahend, and each shift sets it to the bit that is shifted out. This
/// holds also when `x` is the flag register itself.
pub proof fn lemma_arithmetic_flags(e: Engine, x: usize, y: usize, random: u8)
    requires
        e.machine.wf(),
        x < REGISTER_COUNT,
        y < REGISTER_COUNT,
    ensures
        ({
            let a = e.machine.v(x);
            let b = e.machine.v(y);
            &&& flag_after(e, Instruction::RegistersSumWithOverflow(x, y), random) == flag_byte(
                a + b > 255,
            )
            &&& flag_after(e, Instruction::SubtractRegisterFromRegisterValue(x, y), random)
                == flag_byte(a >= b)
            &&& flag_after(e, Instruction::SubtractRegisterValueFromRegister(x, y), random)
                == flag_byte(b >= a)
            &&& flag_after(e, Instruction::ShiftRegisterBitsRight(x), random) == a & 1
            &&& flag_after(e, Instruction::ShiftRegisterBitsLeft(x), random) == a >> 7
        }),
{
    let a = e.machine.v(x);
    assert(a & 1 == flag_byte(a % 2 == 1)) by (bit_vector)
        requires
            flag_byte(a % 2 == 1) == (if a % 2 == 1 {
                1u8
            } else {
                0u8
            }),
    ;
    assert(a >> 7 == flag_byte(a >= 0x80)) by (bit_vector)
        requires
            flag_byte(a >= 0x80) == (if a >= 0x80 {
                1u8
            } else {
                0u8
            }),
    ;
}

/// The value left in register `x`, when it is not the flag register, by an
/// arithmetic instruction on the registers `x` and `y`, which hold `a` and
/// `b`: the sum or the difference modulo 256, or `a` shifted by one bit.
pub proof fn lemma_arithmetic_results(e: Engine, x: usize, y: usize, random: u8)
    requires
        e.machine.wf(),
        x < FLAG_REGISTER,
        y < REGISTER_COUNT,
    ensures
        ({
            let a = e.machine.v(x);
            let b = e.machine.v(y);
            &&& v_after(e, Instruction::RegistersSumWithOverflow(x, y), random, x) == (a + b) % 256
            &&& v_after(e, Instruction::SubtractRegisterFromRegisterValue(x, y), random, x) == (a
                - b) % 256
            &&& v_after(e, Instruction::SubtractRegisterValueFromRegister(x, y), random, x) == (b
                - a) % 256
            &&& v_after(e, Instruction::ShiftRegisterBitsRight(x), random, x) == a >> 1
            &&& v_after(e, Instruction::ShiftRegisterBitsLeft(x), random, x) == a << 1
            &&& v_after(e, Instruction::AddToRegister(x, b), random, x) == (a + b) % 256
            &&& flag_after(e, Instruction::AddToRegister(x, b), random) == e.machine.v(
                FLAG_REGISTER,
            )
        }),
{
    let a = e.machine.v(x);
    assert(a >> 1 == a / 2) by (bit_vector);
    assert(a << 1 == ((a * 2) % 0x100) as u8) by (bit_vector);
}

/// Storing the decimal digits of register `x` leaves three digits between
/// 0 and 9 at the index register that read, as hundreds, tens and ones, the
/// value of the register.
pub proof fn lemma_decimal_digits_stored(e: Engine, x: usize, random: u8)
    requires
        e.machine.wf(),
        x < REGISTER_COUNT,
        e.machine.addressable(3),
    ensures
        ({
            let i = e.machine.index_register as int;
            let after = execute_spec(
                e,
                Instruction::StoreBinaryCodedDecimalAtIndexRegisterValue(x),
                random,
            ).0.machine;
            &&& after.ram[i] <= 9
            &&& after.ram[i + 1] <= 9
            &&& after.ram[i + 2] <= 9
            &&& after.ram[i] * 100 + after.ram[i + 1] * 10 + after.ram[i + 2] == e.machine.v(x)
        }),
{
}

/// A step on a jump to its own address halts, and changes nothing but the
/// program counter, which has moved past the jump.
pub proof fn lemma_self_jump_halts(e: Engine, random: u8)
    requires
        e.machine.wf(),
        e.machine.pc < 0x1000,
        e.machine.fetch() == Some((0x1000 + e.machine.pc) as u16),
    ensures
        step_spec(e, random).1 == Ok::<StepResult, Error>(StepResult::Halt),
        step_spec(e, random).0 == e.with_machine(e.machine.set_pc((e.machine.pc + 2) as u16)),
{
    lemma_decode_inverts_encoding(Instruction::Jump(e.machine.pc));
}

/// A two-byte program that jumps to its own address, loaded into a machine
/// that has just been switched on, ends the run on the first move of the run
/// loop: the run is halted, and memory, registers, stack, timers and display
/// are as they were after loading.
pub proof fn lemma_self_jump_program_halts(random: u8)
    ensures
        ({
            let loaded = Engine::initial().with_machine(
                Machine::initial().with_program(seq![0x12u8, 0x00u8]),
            );
            let (ended, event) = advance_spec(loaded, random);
            &&& event == Event::Halted
            &&& ended == Engine {
                run_state: RunState::Halted,
                machine: loaded.machine.set_pc((INITIAL_PC + 2) as u16),
                ..loaded
            }
            &&& advance_spec(ended, random) == (ended, Event::Halted)
        }),
{
    let loaded = Engine::initial().with_machine(
        Machine::initial().with_program(seq![0x12u8, 0x00u8]),
    );
    assert(loaded.machine.ram[INITIAL_PC as int] == 0x12);
    assert(loaded.machine.ram[INITIAL_PC + 1] == 0x00);
    lemma_self_jump_halts(loaded, random);
}

/// Dumping the registers `V0` to `Vx` to memory, overwriting the register
/// file with anything at all, and loading `V0` to `Vx` back restores their
/// values; the index register is the same throughout.
pub proof fn lemma_dump_load_round_trip(e: Engine, x: usize, scratch: Seq<u8>, random: u8)
    requires
        e.machine.wf(),
        x < REGISTER_COUNT,
        e.machine.addressable(x + 1),
        scratch.len() == REGISTER_COUNT,
    ensures
        ({
            let (dumped, dump_result) = execute_spec(
                e,
                Instruction::DumpRegistersToMemoryAtIndexRegister(x),
                random,
            );
            let wiped = dumped.with_machine(Machine { registers: scratch, ..dumped.machine });
            let (loaded, load_result) = execute_spec(
                wiped,
                Instruction::LoadMemoryToRegistersAtIndexRegister(x),
                random,
            );
            &&& dump_result == Ok::<StepResult, Error>(StepResult::Continue)
            &&& load_result == Ok::<StepResult, Error>(StepResult::Continue)
            &&& dumped.machine.index_register == e.machine.index_register
            &&& loaded.machine.index_register == e.machine.index_register
            &&& dumped.machine.registers == e.machine.registers
            &&& forall|k: int| 0 <= k <= x ==> loaded.machine.registers[k] == e.machine.registers[k]
            &&& forall|k: int| x < k < REGISTER_COUNT ==> loaded.machine.registers[k] == scratch[k]
        }),
{
}

/// After `n` timer updates each timer has gone down by `n`, or to zero if it
/// started below `n`, and nothing else has changed. So a timer that starts
/// at `n` is zero after `n` updates and stays zero.
pub proof fn lemma_timer_decay(m: Machine, n: nat)
    ensures
        m.ticked_times(n) == (Machine {
            delay_timer: if m.delay_timer >= n {
                (m.delay_timer - n) as u8
            } else {
                0
            },
            sound_timer: if m.sound_timer >= n {
                (m.sound_timer - n) as u8
            } else {
                0
            },
            ..m
        }),
        n >= m.delay_timer ==> m.ticked_times(n).delay_timer == 0,
        n >= m.sound_timer ==> m.ticked_times(n).sound_timer == 0,
    decreases n,
{
    if n > 0 {
        lemma_timer_decay(m, (n - 1) as nat);
    }
}

/// In a row of timer updates, the update that follows `n` earlier ones
/// sounds the tone exactly when the sound timer started at `n + 1`; so the
/// tone sounds once if the timer started above zero, at the update that
/// takes it from one to zero, and never otherwise.
pub proof fn lemma_tone_sounds_once(m: Machine, n: nat)
    ensures
        m.ticked_times(n).beeps() <==> m.sound_timer == n + 1,
        m.ticked_times(n).beeps() ==> m.ticked_times(n + 1).sound_timer == 0,
{
    lemma_timer_decay(m, n);
    lemma_timer_decay(m, n + 1);
}

/// An instruction that is refused leaves the engine exactly as it was.
pub proof fn lemma_fault_changes_nothing(e: Engine, instruction: Instruction, random: u8)
    ensures
        execute_spec(e, instruction, random).1 is Err ==> execute_spec(e, instruction, random).0
            == e,
{
}

/// A step that fails has changed nothing but the program counter, which has
/// moved past the opcode if there was one to fetch.
pub proof fn lemma_failed_step(e: Engine, random: u8)
    ensures
        step_spec(e, random).1 is Err ==> step_spec(e, random).0 == (if e.machine.fetch() is Some {
            e.with_machine(e.machine.set_pc((e.machine.pc + 2) as u16))
        } else {
            e
        }),
{
}

/// Executing an instruction keeps memory, the register file and the display
/// at their fixed sizes.
pub proof fn lemma_execute_preserves_wf(e: Engine, instruction: Instruction, random: u8)
    requires
        e.wf(),
        instruction.wf(),
    ensures
        execute_spec(e, instruction, random).0.wf(),
{
}

/// A step keeps memory, the register file and the display at their fixed
/// sizes, and so does a move of the run loop.
pub proof fn lemma_advance_preserves_wf(e: Engine, random: u8)
    requires
        e.wf(),
    ensures
        step_spec(e, random).0.wf(),
        advance_spec(e, random).0.wf(),
{
    if let Some(opcode) = e.machine.fetch() {
        let fetched = e.with_machine(e.machine.set_pc((e.machine.pc + 2) as u16));
        if let Ok(instruction) = decode(opcode) {
            lemma_encoding_inverts_decode(opcode);
            lemma_execute_preserves_wf(fetched, instruction, random);
        }
    }
}

/// A call followed by a return comes back to the instruction after the
/// call, with the stack as it was before.
pub proof fn lemma_call_then_return(e: Engine, nnn: u16, random: u8)
    ensures
        ({
            let (called, call_result) = execute_spec(e, Instruction::Call(nnn), random);
            let (returned, return_result) = execute_spec(
                called,
                Instruction::ReturnFromSubroutine,
                random,
            );
            &&& call_result == Ok::<StepResult, Error>(StepResult::Continue)
            &&& called.machine.pc == nnn
            &&& return_result == Ok::<StepResult, Error>(StepResult::Continue)
            &&& returned == e
        }),
{
    let called = execute_spec(e, Instruction::Call(nnn), random).0;
    assert(called.machine.stack.drop_last() =~= e.machine.stack);
}

/// A run that is over stays over: a move of the run loop reports the same
/// end again and changes nothing. A move of a running engine ends the run
/// exactly when it reports a halt or a fault.
pub proof fn lemma_run_ends_for_good(e: Engine, random: u8)
    ensures
        e.run_state is Halted ==> advance_spec(e, random) == (e, Event::Halted),
        e.run_state matches RunState::Faulted(error) ==> advance_spec(e, random) == (
            e,
            Event::Faulted(error),
        ),
        advance_spec(e, random).0.run_state is Halted <==> advance_spec(e, random).1 is Halted,
        advance_spec(e, random).0.run_state is Faulted <==> advance_spec(e, random).1 is Faulted,
        advance_spec(e, random).1 matches Event::Faulted(error) ==> advance_spec(
            e,
            random,
        ).0.run_state == RunState::Faulted(error),
{
}

/// A running engine executes `INSTRUCTIONS_PER_FRAME` instructions between
/// two timer updates: a move is a timer update exactly when that many
/// instructions have been counted, and it resets the count; any other move
/// that does not end the run counts one instruction more; and the count
/// never exceeds that number afterwards.
pub proof fn lemma_frame_pacing(e: Engine, random: u8)
    requires
        e.run_state is Running,
    ensures
        advance_spec(e, random).0.executed <= INSTRUCTIONS_PER_FRAME,
        advance_spec(e, random).1 is FrameDone <==> e.executed >= INSTRUCTIONS_PER_FRAME,
        advance_spec(e, random).1 is FrameDone ==> advance_spec(e, random).0 == (Engine {
            machine: e.machine.ticked(),
            executed: 0,
            ..e
        }),
        advance_spec(e, random).1 is Continue || advance_spec(e, random).1 is Present
            ==> advance_spec(e, random).0.executed == e.executed + 1,
{
}

/// The engine after as many moves of the run loop as `randoms` has bytes,
/// each move with its byte for the random-number instruction.
pub open spec fn advanced(e: Engine, randoms: Seq<u8>) -> Engine
    decreases randoms.len(),
{
    if randoms.len() == 0 {
        e
    } else {
        advance_spec(advanced(e, randoms.drop_last()), randoms.last()).0
    }
}

/// A run that is still going after some moves was going after each of them.
pub proof fn lemma_running_throughout(e: Engine, randoms: Seq<u8>, k: int)
    requires
        advanced(e, randoms).run_state is Running,
        0 <= k <= randoms.len(),
    ensures
        advanced(e, randoms.subrange(0, k)).run_state is Running,
    decreases randoms.len(),
{
    if k == randoms.len() {
        assert(randoms.subrange(0, k) =~= randoms);
    } else {
        let earlier = randoms.drop_last();
        lemma_run_ends_for_good(advanced(e, earlier), randoms.last());
        lemma_running_throughout(e, earlier, k);
        assert(earlier.subrange(0, k) =~= randoms.subrange(0, k));
    }
}

/// A frame is `INSTRUCTIONS_PER_FRAME` instructions followed by one timer
/// update: from the start of a frame, in a run that is still going one move
/// after that many, the first moves each executed one instruction, and the
/// last one updated the timers and started the next frame.
pub proof fn lemma_frame_length(e: Engine, randoms: Seq<u8>)
    requires
        e.run_state is Running,
        e.executed == 0,
        randoms.len() == INSTRUCTIONS_PER_FRAME + 1,
        advanced(e, randoms).run_state is Running,
    ensures
        forall|k: int|
            0 <= k <= INSTRUCTIONS_PER_FRAME ==> (#[trigger] advanced(
                e,
                randoms.subrange(0, k),
            )).executed == k,
        advanced(e, randoms).executed == 0,
        advanced(e, randoms).machine == advanced(e, randoms.drop_last()).machine.ticked(),
        advance_spec(advanced(e, randoms.drop_last()), randoms.last()).1 is FrameDone,
{
    assert forall|k: int| 0 <= k <= INSTRUCTIONS_PER_FRAME implies (#[trigger] advanced(
        e,
        randoms.subrange(0, k),
    )).executed == k by {
        lemma_steps_counted(e, randoms, k);
    }
    assert(randoms.subrange(0, INSTRUCTIONS_PER_FRAME as int) =~= randoms.drop_last());
}

/// From the start of a frame, in a run that is still going at the end, each
/// of the first `INSTRUCTIONS_PER_FRAME` moves counts one instruction.
proof fn lemma_steps_counted(e: Engine, randoms: Seq<u8>, k: int)
    requires
        e.run_state is Running,
        e.executed == 0,
        advanced(e, randoms).run_state is Running,
        0 <= k <= INSTRUCTIONS_PER_FRAME,
        k <= randoms.len(),
    ensures
        advanced(e, randoms.subrange(0, k)).executed == k,
        advanced(e, randoms.subrange(0, k)).run_state is Running,
    decreases k,
{
    lemma_running_throughout(e, randoms, k);
    if k > 0 {
        lemma_steps_counted(e, randoms, k - 1);
        let now = randoms.subrange(0, k);
        assert(now.drop_last() =~= randoms.subrange(0, k - 1));
        lemma_frame_pacing(advanced(e, now.drop_last()), now.last());
        lemma_run_ends_for_good(advanced(e, now.drop_last()), now.last());
    }
}

} // verus!
