//! The instruction set: which opcode byte names which instruction, and how
//! many operand bytes each instruction brings along.

use vstd::prelude::*;

verus! {

/// An instruction that the processor can execute.
#[derive(Debug, Clone, Copy, PartialEq, Eq, Structural)]
pub enum Instruction {
    /// BRK: stop the run.
    Brk,
    /// LDA with an immediate operand: load the operand into the accumulator.
    LdaImmediate,
    /// TAX: copy the accumulator into the index register.
    Tax,
    /// INX: add one to the index register, wrapping at 256.
    Inx,
}

impl Instruction {
    /// How many operand bytes follow the opcode.
    pub open spec fn operand_count(self) -> nat {
        match self {
            Instruction::Brk => 0,
            Instruction::LdaImmediate => 1,
            Instruction::Tax => 0,
            Instruction::Inx => 0,
        }
    }

    /// How many operand bytes follow the opcode.
    pub fn operand_len(self) -> (len: u8)
        ensures
            len == self.operand_count(),
    {
        match self {
            Instruction::Brk => 0,
            Instruction::LdaImmediate => 1,
            Instruction::Tax => 0,
            Instruction::Inx => 0,
        }
    }
}

/// The instruction set, keyed by opcode. A byte that is no key here names no
/// instruction.
pub open spec fn instruction_set() -> Map<u8, Instruction> {
    map![
        0x00u8 => Instruction::Brk,
        0xA9u8 => Instruction::LdaImmediate,
        0xAAu8 => Instruction::Tax,
        0xE8u8 => Instruction::Inx,
    ]
}

/// The instruction that an opcode names, if it names one.
pub open spec fn decode(opcode: u8) -> Option<Instruction> {
    if instruction_set().contains_key(opcode) {
        Some(instruction_set()[opcode])
    } else {
        None
    }
}

/// The instruction set laid out for lookup: one entry for each of the 256
/// byte values, empty where the byte names no instruction.
///
/// Its view is the map from the opcodes that have an entry to their
/// instructions.
#[derive(Debug)]
pub struct OpcodeTable {
    entries: [Option<Instruction>; 256],
}

impl View for OpcodeTable {
    type V = Map<u8, Instruction>;

    closed spec fn view(&self) -> Map<u8, Instruction> {
        filled(self.entries@)
    }
}

/// The map from each index that holds an entry to that entry.
spec fn filled(entries: Seq<Option<Instruction>>) -> Map<u8, Instruction> {
    Map::new(|opcode: u8| entries[opcode as int] is Some, |opcode: u8| entries[opcode as int]->0)
}

impl OpcodeTable {
    /// Every table holds the instruction set and nothing else.
    #[verifier::type_invariant]
    closed spec fn wf(&self) -> bool {
        self@ == instruction_set()
    }

    /// The table of the instruction set.
    pub fn new() -> (table: OpcodeTable)
        ensures
            table@ == instruction_set(),
    {
        let mut entries: [Option<Instruction>; 256] = [None; 256];
        entries[0x00] = Some(Instruction::Brk);
        entries[0xA9] = Some(Instruction::LdaImmediate);
        entries[0xAA] = Some(Instruction::Tax);
        entries[0xE8] = Some(Instruction::Inx);
        assert(filled(entries@) =~= instruction_set());
        OpcodeTable { entries }
    }

    /// The entry for `opcode`: its instruction, or nothing where the byte
    /// names none.
    pub fn lookup(&self, opcode: u8) -> (entry: Option<Instruction>)
        ensures
            entry == decode(opcode),
    {
        proof {
            use_type_invariant(self);
        }
        self.entries[opcode as usize]
    }
}

} // verus!
