//! Decoding a word into an instruction.
use vstd::prelude::*;

verus! {

use crate::bitpack::{field_value, getu};
use vstd::arithmetic::power2::lemma2_to64;

/// One decoded instruction. For the three-register forms the operands are
/// the register numbers `(a, b, c)`; `LoadVal` carries its own register
/// number and a 25-bit immediate.
#[derive(Debug, Clone, Copy, PartialEq, Eq, Structural)]
pub enum Instruction {
    CondMove(u32, u32, u32),
    SegLoad(u32, u32, u32),
    SegStore(u32, u32, u32),
    Add(u32, u32, u32),
    Multiply(u32, u32, u32),
    Divide(u32, u32, u32),
    Nand(u32, u32, u32),
    Halt,
    MapSeg(u32, u32, u32),
    UnmapSeg(u32, u32, u32),
    Output(u32, u32, u32),
    Input(u32, u32, u32),
    LoadProg(u32, u32, u32),
    LoadVal(u32, u32),
    /// An opcode that the machine does not define.
    Invalid(u32),
}

/// The opcode of `word`: its top four bits.
pub open spec fn opcode_of(word: u32) -> nat {
    field_value(word as nat, 4, 28)
}

/// The instruction that `word` encodes.
pub open spec fn decoded(word: u32) -> Instruction {
    let w = word as nat;
    let a = field_value(w, 3, 6) as u32;
    let b = field_value(w, 3, 3) as u32;
    let c = field_value(w, 3, 0) as u32;
    let op = opcode_of(word);
    if op == 0 {
        Instruction::CondMove(a, b, c)
    } else if op == 1 {
        Instruction::SegLoad(a, b, c)
    } else if op == 2 {
        Instruction::SegStore(a, b, c)
    } else if op == 3 {
        Instruction::Add(a, b, c)
    } else if op == 4 {
        Instruction::Multiply(a, b, c)
    } else if op == 5 {
        Instruction::Divide(a, b, c)
    } else if op == 6 {
        Instruction::Nand(a, b, c)
    } else if op == 7 {
        Instruction::Halt
    } else if op == 8 {
        Instruction::MapSeg(a, b, c)
    } else if op == 9 {
        Instruction::UnmapSeg(a, b, c)
    } else if op == 10 {
        Instruction::Output(a, b, c)
    } else if op == 11 {
        Instruction::Input(a, b, c)
    } else if op == 12 {
        Instruction::LoadProg(a, b, c)
    } else if op == 13 {
        Instruction::LoadVal(field_value(w, 3, 25) as u32, field_value(w, 25, 0) as u32)
    } else {
        Instruction::Invalid(op as u32)
    }
}

impl Instruction {
    /// Every register number the instruction names is below 8.
    pub open spec fn registers_valid(self) -> bool {
        match self {
            Instruction::CondMove(a, b, c) | Instruction::SegLoad(a, b, c) | Instruction::SegStore(
                a,
                b,
                c,
            ) | Instruction::Add(a, b, c) | Instruction::Multiply(a, b, c) | Instruction::Divide(
                a,
                b,
                c,
            ) | Instruction::Nand(a, b, c) | Instruction::MapSeg(a, b, c) | Instruction::UnmapSeg(
                a,
                b,
                c,
            ) | Instruction::Output(a, b, c) | Instruction::Input(a, b, c) | Instruction::LoadProg(
                a,
                b,
                c,
            ) => a < 8 && b < 8 && c < 8,
            Instruction::LoadVal(a, _) => a < 8,
            _ => true,
        }
    }
}

/// Decodes `word`: the opcode from bits 31 to 28, the registers `a`, `b`, `c`
/// from bits 8 to 6, 5 to 3 and 2 to 0; for `LoadVal` the register from bits 27
/// to 25 and the immediate from bits 24 to 0.
pub fn decode(word: u32) -> (r: Instruction)
    ensures
        r == decoded(word),
        r.registers_valid(),
{
    proof {
        lemma2_to64();
    }
    let w = word as u64;
    let op = getu(w, 4, 28) as u32;
    let a = getu(w, 3, 6) as u32;
    let b = getu(w, 3, 3) as u32;
    let c = getu(w, 3, 0) as u32;
    match op {
        0 => Instruction::CondMove(a, b, c),
        1 => Instruction::SegLoad(a, b, c),
        2 => Instruction::SegStore(a, b, c),
        3 => Instruction::Add(a, b, c),
        4 => Instruction::Multiply(a, b, c),
        5 => Instruction::Divide(a, b, c),
        6 => Instruction::Nand(a, b, c),
        7 => Instruction::Halt,
        8 => Instruction::MapSeg(a, b, c),
        9 => Instruction::UnmapSeg(a, b, c),
        10 => Instruction::Output(a, b, c),
        11 => Instruction::Input(a, b, c),
        12 => Instruction::LoadProg(a, b, c),
        13 => Instruction::LoadVal(getu(w, 3, 25) as u32, getu(w, 25, 0) as u32),
        _ => Instruction::Invalid(op),
    }
}

} // verus!
