//! The fixed vocabulary of the language: register names, native mnemonics
//! and pseudo-instruction mnemonics.

use vstd::prelude::*;
use vstd::string::*;
use crate::tokenizer::TokenKind;

verus! {

/// The number of the register that `s` names, by numeric name (`x0`..`x31`)
/// or by ABI alias.
pub open spec fn register_number(s: Seq<char>) -> Option<u8> {
    if s == "zero"@ || s == "x0"@ {
        Some(0)
    }     else if s == "ra"@ || s == "x1"@ {
        Some(1)
    }     else if s == "sp"@ || s == "x2"@ {
        Some(2)
    }     else if s == "gp"@ || s == "x3"@ {
        Some(3)
    }     else if s == "tp"@ || s == "x4"@ {
        Some(4)
    }     else if s == "t0"@ || s == "x5"@ {
        Some(5)
    }     else if s == "t1"@ || s == "x6"@ {
        Some(6)
    }     else if s == "t2"@ || s == "x7"@ {
        Some(7)
    }     else if s == "s0"@ || s == "x8"@ || s == "fp"@ {
        Some(8)
    }     else if s == "s1"@ || s == "x9"@ {
        Some(9)
    }     else if s == "a0"@ || s == "x10"@ {
        Some(10)
    }     else if s == "a1"@ || s == "x11"@ {
        Some(11)
    }     else if s == "a2"@ || s == "x12"@ {
        Some(12)
    }     else if s == "a3"@ || s == "x13"@ {
        Some(13)
    }     else if s == "a4"@ || s == "x14"@ {
        Some(14)
    }     else if s == "a5"@ || s == "x15"@ {
        Some(15)
    }     else if s == "a6"@ || s == "x16"@ {
        Some(16)
    }     else if s == "a7"@ || s == "x17"@ {
        Some(17)
    }     else if s == "s2"@ || s == "x18"@ {
        Some(18)
    }     else if s == "s3"@ || s == "x19"@ {
        Some(19)
    }     else if s == "s4"@ || s == "x20"@ {
        Some(20)
    }     else if s == "s5"@ || s == "x21"@ {
        Some(21)
    }     else if s == "s6"@ || s == "x22"@ {
        Some(22)
    }     else if s == "s7"@ || s == "x23"@ {
        Some(23)
    }     else if s == "s8"@ || s == "x24"@ {
        Some(24)
    }     else if s == "s9"@ || s == "x25"@ {
        Some(25)
    }     else if s == "s10"@ || s == "x26"@ {
        Some(26)
    }     else if s == "s11"@ || s == "x27"@ {
        Some(27)
    }     else if s == "t3"@ || s == "x28"@ {
        Some(28)
    }     else if s == "t4"@ || s == "x29"@ {
        Some(29)
    }     else if s == "t5"@ || s == "x30"@ {
        Some(30)
    }     else if s == "t6"@ || s == "x31"@ {
        Some(31)
    } else {
        None
    }
}

/// Whether `s` is the mnemonic of a native instruction.
pub open spec fn is_instruction(s: Seq<char>) -> bool {
    s == "add"@
    || s == "sub"@
    || s == "sll"@
    || s == "slt"@
    || s == "sltu"@
    || s == "xor"@
    || s == "srl"@
    || s == "sra"@
    || s == "or"@
    || s == "and"@
    || s == "addi"@
    || s == "slti"@
    || s == "sltiu"@
    || s == "xori"@
    || s == "ori"@
    || s == "andi"@
    || s == "slli"@
    || s == "srli"@
    || s == "srai"@
    || s == "lb"@
    || s == "lh"@
    || s == "lw"@
    || s == "lbu"@
    || s == "lhu"@
    || s == "jalr"@
    || s == "sb"@
    || s == "sh"@
    || s == "sw"@
    || s == "beq"@
    || s == "bne"@
    || s == "blt"@
    || s == "bge"@
    || s == "bltu"@
    || s == "bgeu"@
    || s == "lui"@
    || s == "auipc"@
    || s == "jal"@
    || s == "ecall"@
}

/// Whether `s` is the mnemonic of a pseudo-instruction.
pub open spec fn is_pseudoinstruction(s: Seq<char>) -> bool {
    s == "inc"@
    || s == "dec"@
    || s == "mv"@
    || s == "nop"@
    || s == "neg"@
    || s == "li"@
}

/// The kind of a word: a register, a mnemonic, or else an identifier.
pub open spec fn classify(s: Seq<char>) -> TokenKind {
    if register_number(s) is Some {
        TokenKind::Register
    } else if is_instruction(s) {
        TokenKind::Instruction
    } else if is_pseudoinstruction(s) {
        TokenKind::Pseudoinstruction
    } else {
        TokenKind::Identifier
    }
}

/// A word is never classified as punctuation or as a line end.
pub proof fn lemma_classify_kinds(s: Seq<char>)
    ensures
        classify(s) == TokenKind::Register || classify(s) == TokenKind::Instruction || classify(s)
            == TokenKind::Pseudoinstruction || classify(s) == TokenKind::Identifier,
{
}

/// Whether `word`, of `n` characters, reads `literal`.
pub fn word_is(word: &str, n: usize, literal: &str) -> (r: bool)
    requires
        n == word@.len(),
    ensures
        r == (word@ == literal@),
{
    if literal.unicode_len() != n {
        return false;
    }
    let mut k: usize = 0;
    while k < n
        invariant
            k <= n,
            n == word@.len(),
            n == literal@.len(),
            forall|j: int| 0 <= j < k ==> word@[j] == literal@[j],
        decreases n - k,
    {
        if word.get_char(k) != literal.get_char(k) {
            return false;
        }
        k += 1;
    }
    proof {
        assert(word@ =~= literal@);
    }
    true
}

/// The number of the register that `word` names, if it names one.
pub fn register_index(word: &str) -> (r: Option<u8>)
    ensures
        r == register_number(word@),
{
    let n = word.unicode_len();
    if word_is(word, n, "zero") || word_is(word, n, "x0") {
        Some(0)
    }     else if word_is(word, n, "ra") || word_is(word, n, "x1") {
        Some(1)
    }     else if word_is(word, n, "sp") || word_is(word, n, "x2") {
        Some(2)
    }     else if word_is(word, n, "gp") || word_is(word, n, "x3") {
        Some(3)
    }     else if word_is(word, n, "tp") || word_is(word, n, "x4") {
        Some(4)
    }     else if word_is(word, n, "t0") || word_is(word, n, "x5") {
        Some(5)
    }     else if word_is(word, n, "t1") || word_is(word, n, "x6") {
        Some(6)
    }     else if word_is(word, n, "t2") || word_is(word, n, "x7") {
        Some(7)
    }     else if word_is(word, n, "s0") || word_is(word, n, "x8") || word_is(word, n, "fp") {
        Some(8)
    }     else if word_is(word, n, "s1") || word_is(word, n, "x9") {
        Some(9)
    }     else if word_is(word, n, "a0") || word_is(word, n, "x10") {
        Some(10)
    }     else if word_is(word, n, "a1") || word_is(word, n, "x11") {
        Some(11)
    }     else if word_is(word, n, "a2") || word_is(word, n, "x12") {
        Some(12)
    }     else if word_is(word, n, "a3") || word_is(word, n, "x13") {
        Some(13)
    }     else if word_is(word, n, "a4") || word_is(word, n, "x14") {
        Some(14)
    }     else if word_is(word, n, "a5") || word_is(word, n, "x15") {
        Some(15)
    }     else if word_is(word, n, "a6") || word_is(word, n, "x16") {
        Some(16)
    }     else if word_is(word, n, "a7") || word_is(word, n, "x17") {
        Some(17)
    }     else if word_is(word, n, "s2") || word_is(word, n, "x18") {
        Some(18)
    }     else if word_is(word, n, "s3") || word_is(word, n, "x19") {
        Some(19)
    }     else if word_is(word, n, "s4") || word_is(word, n, "x20") {
        Some(20)
    }     else if word_is(word, n, "s5") || word_is(word, n, "x21") {
        Some(21)
    }     else if word_is(word, n, "s6") || word_is(word, n, "x22") {
        Some(22)
    }     else if word_is(word, n, "s7") || word_is(word, n, "x23") {
        Some(23)
    }     else if word_is(word, n, "s8") || word_is(word, n, "x24") {
        Some(24)
    }     else if word_is(word, n, "s9") || word_is(word, n, "x25") {
        Some(25)
    }     else if word_is(word, n, "s10") || word_is(word, n, "x26") {
        Some(26)
    }     else if word_is(word, n, "s11") || word_is(word, n, "x27") {
        Some(27)
    }     else if word_is(word, n, "t3") || word_is(word, n, "x28") {
        Some(28)
    }     else if word_is(word, n, "t4") || word_is(word, n, "x29") {
        Some(29)
    }     else if word_is(word, n, "t5") || word_is(word, n, "x30") {
        Some(30)
    }     else if word_is(word, n, "t6") || word_is(word, n, "x31") {
        Some(31)
    } else {
        None
    }
}

/// Whether `word` is the mnemonic of a native instruction.
pub fn names_instruction(word: &str) -> (r: bool)
    ensures
        r == is_instruction(word@),
{
    let n = word.unicode_len();
    word_is(word, n, "add")
    || word_is(word, n, "sub")
    || word_is(word, n, "sll")
    || word_is(word, n, "slt")
    || word_is(word, n, "sltu")
    || word_is(word, n, "xor")
    || word_is(word, n, "srl")
    || word_is(word, n, "sra")
    || word_is(word, n, "or")
    || word_is(word, n, "and")
    || word_is(word, n, "addi")
    || word_is(word, n, "slti")
    || word_is(word, n, "sltiu")
    || word_is(word, n, "xori")
    || word_is(word, n, "ori")
    || word_is(word, n, "andi")
    || word_is(word, n, "slli")
    || word_is(word, n, "srli")
    || word_is(word, n, "srai")
    || word_is(word, n, "lb")
    || word_is(word, n, "lh")
    || word_is(word, n, "lw")
    || word_is(word, n, "lbu")
    || word_is(word, n, "lhu")
    || word_is(word, n, "jalr")
    || word_is(word, n, "sb")
    || word_is(word, n, "sh")
    || word_is(word, n, "sw")
    || word_is(word, n, "beq")
    || word_is(word, n, "bne")
    || word_is(word, n, "blt")
    || word_is(word, n, "bge")
    || word_is(word, n, "bltu")
    || word_is(word, n, "bgeu")
    || word_is(word, n, "lui")
    || word_is(word, n, "auipc")
    || word_is(word, n, "jal")
    || word_is(word, n, "ecall")
}

/// Whether `word` is the mnemonic of a pseudo-instruction.
pub fn names_pseudoinstruction(word: &str) -> (r: bool)
    ensures
        r == is_pseudoinstruction(word@),
{
    let n = word.unicode_len();
    word_is(word, n, "inc")
    || word_is(word, n, "dec")
    || word_is(word, n, "mv")
    || word_is(word, n, "nop")
    || word_is(word, n, "neg")
    || word_is(word, n, "li")
}

/// Classifies a word by exact match against the register names and the
/// mnemonics; anything else is an identifier.
pub fn classify_identifier(s: &str) -> (kind: TokenKind)
    ensures
        kind == classify(s@),
{
    if register_index(s).is_some() {
        TokenKind::Register
    } else if names_instruction(s) {
        TokenKind::Instruction
    } else if names_pseudoinstruction(s) {
        TokenKind::Pseudoinstruction
    } else {
        TokenKind::Identifier
    }
}

} // verus!
