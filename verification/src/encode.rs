//! The bit layout of the native instructions.

use vstd::prelude::*;

verus! {

/// The native instructions.
#[derive(Debug, Clone, Copy, PartialEq, Eq, Structural)]
pub enum Opcode {
    Lui,
    Addi,
    Add,
    Sub,
}

pub const OPCODE_LUI: u32 = 0b0110111;

pub const OPCODE_IMMEDIATE: u32 = 0b0010011;

pub const OPCODE_REGISTER: u32 = 0b0110011;

pub const FUNCT7_ADD: u32 = 0x00;

pub const FUNCT7_SUB: u32 = 0x20;

/// U-type: `imm[31:12] | rd[11:7] | opcode`.
pub open spec fn encode_u_spec(rd: u8, imm: u32) -> u32 {
    (imm << 12) | ((rd as u32) << 7) | OPCODE_LUI
}

/// I-type: `imm[31:20] | rs1[19:15] | funct3(000) | rd[11:7] | opcode`.
pub open spec fn encode_i_spec(rd: u8, rs1: u8, imm: i32) -> u32 {
    ((imm as u32) << 20) | ((rs1 as u32) << 15) | ((rd as u32) << 7) | OPCODE_IMMEDIATE
}

/// R-type: `funct7[31:25] | rs2[24:20] | rs1[19:15] | funct3(000) | rd[11:7] | opcode`.
pub open spec fn encode_r_spec(funct7: u32, rd: u8, rs1: u8, rs2: u8) -> u32 {
    (funct7 << 25) | ((rs2 as u32) << 20) | ((rs1 as u32) << 15) | ((rd as u32) << 7)
        | OPCODE_REGISTER
}

/// Encodes `LUI rd, imm`.
pub fn encode_u(rd: u8, imm: u32) -> (word: u32)
    requires
        rd < 32,
        imm <= 0xFFFFF,
    ensures
        word == encode_u_spec(rd, imm),
        word & 0x7f == OPCODE_LUI,
        (word >> 7) & 0x1f == rd as u32,
        word >> 12 == imm,
{
    let r = rd as u32;
    let word = (imm << 12) | (r << 7) | OPCODE_LUI;
    proof {
        assert(r < 32 && imm <= 0xFFFFF ==> {
            let w = (imm << 12) | (r << 7) | 0b0110111u32;
            w & 0x7f == 0b0110111u32 && (w >> 7) & 0x1f == r && w >> 12 == imm
        }) by (bit_vector);
    }
    word
}

/// Encodes `ADDI rd, rs1, imm`.
pub fn encode_i(rd: u8, rs1: u8, imm: i32) -> (word: u32)
    requires
        rd < 32,
        rs1 < 32,
        -0x800 <= imm <= 0x7FF,
    ensures
        word == encode_i_spec(rd, rs1, imm),
        word & 0x7f == OPCODE_IMMEDIATE,
        (word >> 7) & 0x1f == rd as u32,
        (word >> 12) & 0x7 == 0,
        (word >> 15) & 0x1f == rs1 as u32,
        ((word as i32) >> 20) == imm,
{
    let d = rd as u32;
    let s = rs1 as u32;
    let word = ((imm as u32) << 20) | (s << 15) | (d << 7) | OPCODE_IMMEDIATE;
    proof {
        assert(d < 32 && s < 32 && -0x800 <= imm && imm <= 0x7FF ==> {
            let w = ((imm as u32) << 20) | (s << 15) | (d << 7) | 0b0010011u32;
            w & 0x7f == 0b0010011u32 && (w >> 7) & 0x1f == d && (w >> 12) & 0x7 == 0 && (w >> 15)
                & 0x1f == s && ((w as i32) >> 20) == imm
        }) by (bit_vector);
    }
    word
}

/// Encodes `ADD` (`funct7` 0) or `SUB` (`funct7` 0x20) of `rd, rs1, rs2`.
pub fn encode_r(funct7: u32, rd: u8, rs1: u8, rs2: u8) -> (word: u32)
    requires
        rd < 32,
        rs1 < 32,
        rs2 < 32,
        funct7 <= 0x7f,
    ensures
        word == encode_r_spec(funct7, rd, rs1, rs2),
        word & 0x7f == OPCODE_REGISTER,
        (word >> 7) & 0x1f == rd as u32,
        (word >> 12) & 0x7 == 0,
        (word >> 15) & 0x1f == rs1 as u32,
        (word >> 20) & 0x1f == rs2 as u32,
        (word >> 25) & 0x7f == funct7,
{
    let d = rd as u32;
    let s = rs1 as u32;
    let t = rs2 as u32;
    let word = (funct7 << 25) | (t << 20) | (s << 15) | (d << 7) | OPCODE_REGISTER;
    proof {
        assert(d < 32 && s < 32 && t < 32 && funct7 <= 0x7f ==> {
            let w = (funct7 << 25) | (t << 20) | (s << 15) | (d << 7) | 0b0110011u32;
            w & 0x7f == 0b0110011u32 && (w >> 7) & 0x1f == d && (w >> 12) & 0x7 == 0 && (w >> 15)
                & 0x1f == s && (w >> 20) & 0x1f == t && (w >> 25) & 0x7f == funct7
        }) by (bit_vector);
    }
    word
}

/// The four bytes of `word`, least significant first.
pub open spec fn word_bytes(word: u32) -> Seq<u8> {
    seq![
        (word & 0xff) as u8,
        ((word >> 8) & 0xff) as u8,
        ((word >> 16) & 0xff) as u8,
        ((word >> 24) & 0xff) as u8,
    ]
}

/// Appends `word` to `buffer`, least significant byte first.
pub fn push_word(buffer: &mut Vec<u8>, word: u32)
    ensures
        final(buffer)@ == old(buffer)@ + word_bytes(word),
{
    buffer.push((word & 0xff) as u8);
    buffer.push(((word >> 8) & 0xff) as u8);
    buffer.push(((word >> 16) & 0xff) as u8);
    buffer.push(((word >> 24) & 0xff) as u8);
    proof {
        assert(buffer@ =~= old(buffer)@ + word_bytes(word));
    }
}

/// The bytes of a word, read back least significant first, give the word.
pub proof fn lemma_word_bytes_round_trip(word: u32)
    ensures
        crate::cpu::word_at(word_bytes(word), 0) == word,
{
    let b = word_bytes(word);
    assert(b[0] == (word & 0xff) as u8);
    assert(b[1] == ((word >> 8) & 0xff) as u8);
    assert(b[2] == ((word >> 16) & 0xff) as u8);
    assert(b[3] == ((word >> 24) & 0xff) as u8);
    assert((((word & 0xff) as u8) as u32) | ((((word >> 8) & 0xff) as u8) as u32) << 8 | ((((word
        >> 16) & 0xff) as u8) as u32) << 16 | ((((word >> 24) & 0xff) as u8) as u32) << 24 == word)
        by (bit_vector);
}


/// The execution engine reads back from an `ADDI` word what was encoded:
/// it adds the sign-extended immediate to `rs1` and writes `rd`.
pub proof fn lemma_addi_executes(regs: Seq<u32>, rd: u8, rs1: u8, imm: i32)
    requires
        regs.len() == 32,
        rd < 32,
        rs1 < 32,
        -0x800 <= imm <= 0x7FF,
    ensures
        crate::cpu::execute_spec(regs, encode_i_spec(rd, rs1, imm)) == regs.update(
            rd as int,
            ((regs[rs1 as int] as int + imm as u32 as int) % 0x1_0000_0000) as u32,
        ),
{
    let d = rd as u32;
    let s = rs1 as u32;
    assert(d < 32 && s < 32 && -0x800 <= imm && imm <= 0x7FF ==> {
        let w = ((imm as u32) << 20) | (s << 15) | (d << 7) | 0b0010011u32;
        w & 0x7f == 0b0010011u32 && (w >> 7) & 0x1f == d && (w >> 15) & 0x1f == s && ((w as i32)
            >> 20) == imm
    }) by (bit_vector);
}

/// The execution engine reads back from a `LUI` word what was encoded: it
/// writes the immediate, shifted into the upper 20 bits, to `rd`.
pub proof fn lemma_lui_executes(regs: Seq<u32>, rd: u8, imm: u32)
    requires
        regs.len() == 32,
        rd < 32,
        imm <= 0xFFFFF,
    ensures
        crate::cpu::execute_spec(regs, encode_u_spec(rd, imm)) == regs.update(
            rd as int,
            imm << 12,
        ),
{
    let d = rd as u32;
    assert(d < 32 && imm <= 0xFFFFF ==> {
        let w = (imm << 12) | (d << 7) | 0b0110111u32;
        w & 0x7f == 0b0110111u32 && (w >> 7) & 0x1f == d && w & 0xFFFFF000 == imm << 12
    }) by (bit_vector);
}

/// The execution engine reads back from an `ADD` or `SUB` word what was
/// encoded: it writes the sum or the difference of `rs1` and `rs2`,
/// modulo `2^32`, to `rd`.
pub proof fn lemma_add_sub_executes(regs: Seq<u32>, subtract: bool, rd: u8, rs1: u8, rs2: u8)
    requires
        regs.len() == 32,
        rd < 32,
        rs1 < 32,
        rs2 < 32,
    ensures
        crate::cpu::execute_spec(
            regs,
            encode_r_spec(if subtract { FUNCT7_SUB } else { FUNCT7_ADD }, rd, rs1, rs2),
        ) == regs.update(
            rd as int,
            (if subtract {
                (regs[rs1 as int] as int - regs[rs2 as int] as int) % 0x1_0000_0000
            } else {
                (regs[rs1 as int] as int + regs[rs2 as int] as int) % 0x1_0000_0000
            }) as u32,
        ),
{
    let d = rd as u32;
    let s = rs1 as u32;
    let t = rs2 as u32;
    let funct7: u32 = if subtract { 0x20 } else { 0 };
    assert(d < 32 && s < 32 && t < 32 && funct7 <= 0x7f ==> {
        let w = (funct7 << 25) | (t << 20) | (s << 15) | (d << 7) | 0b0110011u32;
        w & 0x7f == 0b0110011u32 && (w >> 7) & 0x1f == d && (w >> 12) & 0x7 == 0 && (w >> 15)
            & 0x1f == s && (w >> 20) & 0x1f == t && (w >> 25) & 0x7f == funct7
    }) by (bit_vector);
}

} // verus!
