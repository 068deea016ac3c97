//! The execution engine: registers, a program counter and the
//! fetch-decode-execute loop.

use crate::opcode::{decode, Instruction, OpcodeTable};
pub use crate::status::{Flag, Status};
use vstd::prelude::*;
use vstd::slice::slice_subrange;

verus! {

/// Why a run stopped without reaching BRK.
#[derive(Debug, Clone, Copy, PartialEq, Eq, Structural)]
pub enum CpuError {
    /// The byte `opcode`, fetched at index `position` of the program, names
    /// no instruction.
    UnimplementedOpcode { opcode: u8, position: usize },
    /// The program counter had to reach index `position`, to fetch an opcode
    /// or an operand or to rest behind an instruction, and could not: the
    /// program ends before that index, or the counter is too narrow to hold
    /// it.
    ProgramCounterOutOfBounds { position: usize },
}

/// What the engine does after an instruction.
#[derive(Debug, Clone, Copy, PartialEq, Eq, Structural)]
pub enum Control {
    /// Fetch the next instruction.
    Continue,
    /// Stop: the instruction was BRK.
    Halt,
}

/// The processor: accumulator, index register, status flags and program
/// counter.
///
/// Its view is a [`CpuState`].
pub struct CPU {
    /// accumulator
    pub reg_a: u8,
    /// index register X
    pub reg_x: u8,
    pub status: Status,
    /// Program counter: the index of the next byte to fetch. It is 8 bits
    /// wide and never wraps, so an instruction can complete only if the
    /// byte after it has an index of at most 255.
    pub pc: u8,
}

/// The processor as a mathematical value: its registers, the set of raised
/// flags and the program counter.
pub struct CpuState {
    pub reg_a: u8,
    pub reg_x: u8,
    pub flags: Set<Flag>,
    pub pc: u8,
}

impl View for CPU {
    type V = CpuState;

    open spec fn view(&self) -> CpuState {
        CpuState { reg_a: self.reg_a, reg_x: self.reg_x, flags: self.status@, pc: self.pc }
    }
}

/// The zero/negative policy: Z is raised exactly when `result` is zero, N
/// exactly when bit 7 of `result` is set, and no other flag changes.
pub open spec fn zero_negative(flags: Set<Flag>, result: u8) -> Set<Flag> {
    let zero = if result == 0 {
        flags.insert(Flag::Z)
    } else {
        flags.remove(Flag::Z)
    };
    if result & 0x80 != 0 {
        zero.insert(Flag::N)
    } else {
        zero.remove(Flag::N)
    }
}

/// One more than `value`, wrapping from 255 to 0.
pub open spec fn increment(value: u8) -> u8 {
    if value == u8::MAX {
        0
    } else {
        (value + 1) as u8
    }
}

impl CpuState {
    /// The state of a new processor: everything zero, no flag raised.
    pub open spec fn initial() -> CpuState {
        CpuState { reg_a: 0, reg_x: 0, flags: Set::empty(), pc: 0 }
    }

    /// This state with its flags put through the zero/negative policy for
    /// `result`.
    pub open spec fn with_zero_negative(self, result: u8) -> CpuState {
        CpuState { flags: zero_negative(self.flags, result), ..self }
    }

    /// The effect of one instruction on the registers and flags, given its
    /// operand bytes. The program counter is not its business.
    pub open spec fn execute(self, instruction: Instruction, operands: Seq<u8>) -> (
        CpuState,
        Control,
    ) {
        match instruction {
            Instruction::Brk => (self, Control::Halt),
            Instruction::LdaImmediate => (
                CpuState { reg_a: operands[0], ..self }.with_zero_negative(operands[0]),
                Control::Continue,
            ),
            Instruction::Tax => (
                CpuState { reg_x: self.reg_a, ..self }.with_zero_negative(self.reg_a),
                Control::Continue,
            ),
            Instruction::Inx => (
                CpuState { reg_x: increment(self.reg_x), ..self }.with_zero_negative(
                    increment(self.reg_x),
                ),
                Control::Continue,
            ),
        }
    }

    /// One fetch-decode-execute cycle on `program`.
    ///
    /// The instruction at the counter completes when its opcode names an
    /// instruction, all its operand bytes are in the program, and the counter
    /// can hold the index of the byte after it. Then the counter moves past
    /// the instruction and the instruction takes effect. Otherwise nothing
    /// changes and the cycle reports why.
    pub open spec fn step(self, program: Seq<u8>) -> Result<(CpuState, Control), CpuError> {
        let at = self.pc as int;
        if at >= program.len() {
            Err(CpuError::ProgramCounterOutOfBounds { position: at as usize })
        } else {
            match decode(program[at]) {
                None => Err(
                    CpuError::UnimplementedOpcode { opcode: program[at], position: at as usize },
                ),
                Some(instruction) => {
                    let next = at + 1 + instruction.operand_count();
                    if next > program.len() {
                        Err(
                            CpuError::ProgramCounterOutOfBounds {
                                position: program.len() as usize,
                            },
                        )
                    } else if next > u8::MAX {
                        Err(CpuError::ProgramCounterOutOfBounds { position: next as usize })
                    } else {
                        Ok(
                            CpuState { pc: next as u8, ..self }.execute(
                                instruction,
                                program.subrange(at + 1, next),
                            ),
                        )
                    }
                },
            }
        }
    }

    /// A whole run on `program`: cycles until BRK halts the processor or a
    /// cycle fails. Gives the state in which the run ended, and the failure
    /// if there was one. After a failure that is the state that the last
    /// completed instruction left.
    pub open spec fn run(self, program: Seq<u8>) -> (CpuState, Result<(), CpuError>)
        decreases u8::MAX - self.pc,
    {
        match self.step(program) {
            Err(error) => (self, Err(error)),
            Ok((next, Control::Halt)) => (next, Ok(())),
            Ok((next, Control::Continue)) => next.run(program),
        }
    }
}

impl CPU {
    /// A processor with all registers and flags zero and the program
    /// counter at 0.
    pub fn new() -> (cpu: CPU)
        ensures
            cpu@ == CpuState::initial(),
    {
        CPU { reg_a: 0, reg_x: 0, status: Status::new(), pc: 0 }
    }

    /// The status register.
    pub fn status(&self) -> (status: &Status)
        ensures
            *status == self.status,
    {
        &self.status
    }

    /// The status register, to be changed in place.
    pub fn status_mut(&mut self) -> (status: &mut Status)
        ensures
            *status == old(self).status,
            *final(self) == (CPU { status: *final(status), ..*old(self) }),
    {
        &mut self.status
    }

    /// Applies the zero/negative policy for `result` to the status flags.
    pub fn update_nf_flags(&mut self, result: u8)
        ensures
            final(self)@ == old(self)@.with_zero_negative(result),
            final(self)@.flags.contains(Flag::Z) <==> result == 0,
            final(self)@.flags.contains(Flag::N) <==> result & 0x80 != 0,
            forall|f: Flag|
                f != Flag::Z && f != Flag::N ==> (final(self)@.flags.contains(f) <==> old(
                    self,
                )@.flags.contains(f)),
    {
        let status = self.status_mut();

        if result == 0 {
            status.set_bit(Flag::Z);
        } else {
            status.unset_bit(Flag::Z);
        }
        if result & 0b1000_0000 != 0 {
            status.set_bit(Flag::N)
        } else {
            status.unset_bit(Flag::N);
        }
    }

    /// Carries out `instruction` on the registers and flags, and says
    /// whether the run goes on. The program counter stays as it is.
    pub fn execute(&mut self, instruction: Instruction, operands: &[u8]) -> (control: Control)
        requires
            operands@.len() == instruction.operand_count(),
        ensures
            (final(self)@, control) == old(self)@.execute(instruction, operands@),
    {
        match instruction {
            // BRK
            Instruction::Brk => Control::Halt,
            // LDA - LoaD Accumulator
            Instruction::LdaImmediate => {
                self.reg_a = operands[0];
                self.update_nf_flags(self.reg_a);
                Control::Continue
            },
            // TAX - Transfer Accumulator to X
            Instruction::Tax => {
                self.reg_x = self.reg_a;
                self.update_nf_flags(self.reg_x);
                Control::Continue
            },
            // INX - INcrement X register
            Instruction::Inx => {
                self.reg_x = self.reg_x.wrapping_add(1);  // wrapping is the defined behaviour
                self.update_nf_flags(self.reg_x);
                Control::Continue
            },
        }
    }

    /// One fetch-decode-execute cycle: fetches the instruction at the
    /// program counter, moves the counter past it and carries it out. Where
    /// the instruction cannot complete, the processor is left untouched.
    pub fn step(&mut self, table: &OpcodeTable, program: &[u8]) -> (result: Result<
        Control,
        CpuError,
    >)
        ensures
            match old(self)@.step(program@) {
                Ok((next, control)) => result == Ok::<Control, CpuError>(control) && final(self)@
                    == next,
                Err(error) => result == Err::<Control, CpuError>(error) && *final(self) == *old(
                    self,
                ),
            },
    {
        let at = self.pc as usize;
        if at >= program.len() {
            return Err(CpuError::ProgramCounterOutOfBounds { position: at });
        }
        let opcode = program[at];
        match table.lookup(opcode) {
            None => Err(CpuError::UnimplementedOpcode { opcode, position: at }),
            Some(instruction) => {
                let next = at + 1 + instruction.operand_len() as usize;
                if next > program.len() {
                    return Err(CpuError::ProgramCounterOutOfBounds { position: program.len() });
                }
                if next > u8::MAX as usize {
                    return Err(CpuError::ProgramCounterOutOfBounds { position: next });
                }
                self.pc = next as u8;
                Ok(self.execute(instruction, slice_subrange(program, at + 1, next)))
            },
        }
    }

    /// Runs `program` from the current program counter until BRK halts the
    /// processor. Fails, leaving the state that the last completed
    /// instruction produced, when a byte names no instruction or the
    /// program counter would leave the program.
    pub fn interpret(&mut self, program: Vec<u8>) -> (result: Result<(), CpuError>)
        ensures
            (final(self)@, result) == old(self)@.run(program@),
    {
        let table = OpcodeTable::new();
        loop
            invariant
                self@.run(program@) == old(self)@.run(program@),
            decreases u8::MAX - self.pc,
        {
            match self.step(&table, program.as_slice()) {
                Err(error) => {
                    return Err(error);
                },
                Ok(Control::Halt) => {
                    return Ok(());
                },
                Ok(Control::Continue) => {},
            }
        }
    }
}

impl Default for CPU {
    fn default() -> (cpu: CPU)
        ensures
            cpu@ == CpuState::initial(),
    {
        CPU::new()
    }
}

/// The zero/negative policy raises Z exactly when the result is zero and N
/// exactly when bit 7 of the result is set, and leaves C, V, D, I and B as
/// they were.
pub proof fn lemma_zero_negative(flags: Set<Flag>, result: u8)
    ensures
        zero_negative(flags, result).contains(Flag::Z) <==> result == 0,
        zero_negative(flags, result).contains(Flag::N) <==> result & 0x80 != 0,
        forall|f: Flag|
            f != Flag::Z && f != Flag::N ==> (zero_negative(flags, result).contains(f)
                <==> flags.contains(f)),
{
}

/// TAX copies exactly: whatever the accumulator holds, after TAX the index
/// register holds the same value, the accumulator still holds it, and Z and
/// N reflect that value rather than what the index register held before.
pub proof fn lemma_tax_copies_accumulator(state: CpuState, operands: Seq<u8>)
    ensures
        ({
            let (after, control) = state.execute(Instruction::Tax, operands);
            &&& after.reg_x == state.reg_a
            &&& after.reg_a == state.reg_a
            &&& after.pc == state.pc
            &&& after.flags == zero_negative(state.flags, state.reg_a)
            &&& after.flags.contains(Flag::Z) <==> state.reg_a == 0
            &&& after.flags.contains(Flag::N) <==> state.reg_a & 0x80 != 0
            &&& control == Control::Continue
        }),
{
}

/// BRK is terminal at once: a run that starts on a BRK ends there, with
/// the counter just past it and every register and flag as it was.
pub proof fn lemma_brk_halts(state: CpuState, program: Seq<u8>)
    requires
        state.pc < program.len(),
        state.pc < u8::MAX,
        program[state.pc as int] == 0x00,
    ensures
        state.run(program) == (
            CpuState { pc: (state.pc + 1) as u8, ..state },
            Ok::<(), CpuError>(()),
        ),
{
}

/// A byte that names no instruction stops the run where it stands: nothing
/// changes, the counter stays on the byte, and the failure names the byte
/// and its position.
pub proof fn lemma_unimplemented_opcode_fails(state: CpuState, program: Seq<u8>)
    requires
        state.pc < program.len(),
        decode(program[state.pc as int]) is None,
    ensures
        state.run(program) == (
            state,
            Err::<(), CpuError>(
                CpuError::UnimplementedOpcode {
                    opcode: program[state.pc as int],
                    position: state.pc as usize,
                },
            ),
        ),
{
}

/// A run never moves the counter backwards.
pub proof fn lemma_run_moves_forward(state: CpuState, program: Seq<u8>)
    ensures
        state.run(program).0.pc >= state.pc,
    decreases u8::MAX - state.pc,
{
    match state.step(program) {
        Ok((next, Control::Continue)) => {
            lemma_run_moves_forward(next, program);
        },
        _ => {},
    }
}

/// A run touches no flag but Z and N: C, V, D, I and B end as they began.
pub proof fn lemma_run_keeps_other_flags(state: CpuState, program: Seq<u8>)
    ensures
        forall|f: Flag|
            f != Flag::Z && f != Flag::N ==> (state.run(program).0.flags.contains(f)
                <==> state.flags.contains(f)),
    decreases u8::MAX - state.pc,
{
    match state.step(program) {
        Ok((next, control)) => {
            assert forall|f: Flag| f != Flag::Z && f != Flag::N implies (next.flags.contains(f)
                <==> state.flags.contains(f)) by {}
            if control == Control::Continue {
                lemma_run_keeps_other_flags(next, program);
            }
        },
        Err(_) => {},
    }
}

/// How a run ends. A run that succeeds has just passed a BRK. A run that
/// fails ends in the state that the last completed instruction left: the
/// failure is the one that the next cycle meets in that very state.
pub proof fn lemma_run_end(state: CpuState, program: Seq<u8>)
    ensures
        match state.run(program).1 {
            Ok(_) => {
                let end = state.run(program).0.pc as int;
                0 < end <= program.len() && program[end - 1] == 0x00
            },
            Err(error) => state.run(program).0.step(program) == Err::<
                (CpuState, Control),
                CpuError,
            >(error),
        },
    decreases u8::MAX - state.pc,
{
    match state.step(program) {
        Ok((next, Control::Continue)) => {
            lemma_run_end(next, program);
        },
        _ => {},
    }
}

/// Failure is repeatable: a run that failed, started again from the state
/// it left, fails in the same way and changes nothing.
pub proof fn lemma_failure_repeats(state: CpuState, program: Seq<u8>)
    requires
        state.run(program).1 is Err,
    ensures
        state.run(program).0.run(program) == state.run(program),
{
    lemma_run_end(state, program);
}

} // verus!
