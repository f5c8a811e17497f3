//! The instruction-execution engine that consumes assembled code.
//!
//! It fetches one little-endian 32-bit word at the program counter,
//! advances the counter by four, and executes the word.

use vstd::prelude::*;

verus! {

pub struct Cpu {
    /// Program counter
    pub pc: u32,
    /// Registers
    pub regs: [u32; 32],
    /// Program code
    pub dram: Vec<u8>,
}

/// The destination register field of an instruction word.
pub open spec fn field_rd(word: u32) -> int {
    ((word >> 7) & 0x1f) as int
}

/// The first source register field of an instruction word.
pub open spec fn field_rs1(word: u32) -> int {
    ((word >> 15) & 0x1f) as int
}

/// The second source register field of an instruction word.
pub open spec fn field_rs2(word: u32) -> int {
    ((word >> 20) & 0x1f) as int
}

/// The 12-bit immediate of an I-type word, sign-extended to 32 bits.
pub open spec fn immediate_i(word: u32) -> u32 {
    ((word as i32) >> 20) as u32
}

/// The value that `word` writes to its destination register when the
/// registers hold `regs`, or `None` where `word` is no instruction that
/// the engine executes.
pub open spec fn result_of(regs: Seq<u32>, word: u32) -> Option<u32> {
    let opcode = word & 0x7f;
    let funct3 = (word >> 12) & 0x7;
    let funct7 = (word >> 25) & 0x7f;
    let a = regs[field_rs1(word)];
    let b = regs[field_rs2(word)];
    if opcode == 0b0110111 {
        Some(word & 0xFFFFF000)
    } else if opcode == 0b0010011 {
        Some(((a as int + immediate_i(word) as int) % 0x1_0000_0000) as u32)
    } else if opcode == 0b0110011 {
        if funct3 == 0 && funct7 == 0x20 {
            Some(((a as int - b as int) % 0x1_0000_0000) as u32)
        } else if funct3 == 0 && funct7 == 0 {
            Some(((a as int + b as int) % 0x1_0000_0000) as u32)
        } else if funct3 == 4 {
            Some(a ^ b)
        } else if funct3 == 6 {
            Some(a | b)
        } else if funct3 == 7 {
            Some(a & b)
        } else {
            None
        }
    } else {
        None
    }
}

/// The registers after `word` has executed on `regs`.
pub open spec fn execute_spec(regs: Seq<u32>, word: u32) -> Seq<u32> {
    match result_of(regs, word) {
        Some(value) => regs.update(field_rd(word), value),
        None => regs,
    }
}

/// The little-endian word that `memory` holds at `at`.
pub open spec fn word_at(memory: Seq<u8>, at: int) -> u32 {
    (memory[at] as u32) | (memory[at + 1] as u32) << 8 | (memory[at + 2] as u32) << 16 | (memory[at
        + 3] as u32) << 24
}

impl Cpu {
    /// Whether an instruction can be fetched at the program counter.
    pub open spec fn can_step(&self) -> bool {
        self.pc as int + 4 <= self.dram@.len() && self.pc as int + 4 <= u32::MAX
    }

    /// A processor at address 0 with cleared registers and `instructions`
    /// as its memory.
    pub fn new_with_instructions(instructions: Vec<u8>) -> (cpu: Self)
        ensures
            cpu.pc == 0,
            cpu.dram == instructions,
            cpu.regs@ == Seq::new(32, |i: int| 0u32),
    {
        let cpu = Self { pc: 0, regs: [0;32], dram: instructions };
        proof {
            assert(cpu.regs@ =~= Seq::new(32, |i: int| 0u32));
        }
        cpu
    }

    /// Fetches the word at the program counter, advances the counter by
    /// four, clears register 0 and executes the word.
    pub fn step(&mut self)
        requires
            old(self).can_step(),
        ensures
            final(self).pc == old(self).pc + 4,
            final(self).dram == old(self).dram,
            final(self).regs@ == execute_spec(
                old(self).regs@.update(0, 0u32),
                word_at(old(self).dram@, old(self).pc as int),
            ),
    {
        let instruction = self.fetch();
        self.pc += 4;
        self.regs[0] = 0;
        self.execute(instruction);
    }

    /// The little-endian word at the program counter.
    pub fn fetch(&self) -> (word: u32)
        requires
            self.pc as int + 4 <= self.dram@.len(),
        ensures
            word == word_at(self.dram@, self.pc as int),
    {
        let index = self.pc as usize;
        assert(index + 4 <= self.dram.len());
        self.dram[index] as u32 | (self.dram[index + 1] as u32) << 8 | (self.dram[index
            + 2] as u32) << 16 | (self.dram[index + 3] as u32) << 24
    }

    /// Decodes and executes one instruction word: `LUI`, `ADDI`, `ADD`,
    /// `SUB`, `XOR`, `OR` or `AND`. Any other word changes nothing.
    pub fn execute(&mut self, instruction: u32)
        ensures
            final(self).pc == old(self).pc,
            final(self).dram == old(self).dram,
            final(self).regs@ == execute_spec(old(self).regs@, instruction),
    {
        let opcode = instruction & 0x7f;
        let rd = ((instruction >> 7) & 0x1f) as usize;
        let funct3 = (instruction >> 12) & 0x7;
        let rs1 = ((instruction >> 15) & 0x1f) as usize;
        let rs2 = ((instruction >> 20) & 0x1f) as usize;
        let funct7 = (instruction >> 25) & 0x7f;
        proof {
            assert(((instruction >> 7) & 0x1f) < 32) by (bit_vector);
            assert(((instruction >> 15) & 0x1f) < 32) by (bit_vector);
            assert(((instruction >> 20) & 0x1f) < 32) by (bit_vector);
        }
        let a = self.regs[rs1];
        let b = self.regs[rs2];
        if opcode == 0b0110111 {
            self.regs[rd] = instruction & 0xFFFFF000;
        } else if opcode == 0b0010011 {
            self.regs[rd] = a.wrapping_add(((instruction as i32) >> 20) as u32);
        } else if opcode == 0b0110011 {
            if funct3 == 0 && funct7 == 0x20 {
                self.regs[rd] = a.wrapping_sub(b);
            } else if funct3 == 0 && funct7 == 0 {
                self.regs[rd] = a.wrapping_add(b);
            } else if funct3 == 4 {
                self.regs[rd] = a ^ b;
            } else if funct3 == 6 {
                self.regs[rd] = a | b;
            } else if funct3 == 7 {
                self.regs[rd] = a & b;
            }
        }
    }
}

} // verus!
