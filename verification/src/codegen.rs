//! Code generation: one little-endian 32-bit word per item.

use vstd::prelude::*;
use crate::encode::{
    encode_i,
    encode_i_spec,
    encode_r,
    encode_r_spec,
    encode_u,
    encode_u_spec,
    push_word,
    word_bytes,
    Opcode,
    FUNCT7_ADD,
    FUNCT7_SUB,
};
use crate::parser::{item_fits, Fault, FaultKind, Immediate, Instruction, ParsedItem, Symbol};

verus! {

/// The number that an immediate stands for: its own value, or the value
/// of the symbol it names, if that is known.
pub open spec fn resolved_value(symbols: Seq<Symbol>, imm: Immediate) -> Option<int> {
    match imm {
        Immediate::Value(v) => Some(v as int),
        Immediate::Symbol(k) => if k < symbols.len() {
            match symbols[k as int].value {
                Some(a) => Some(a as int),
                None => None,
            }
        } else {
            None
        },
    }
}

/// The fault of an operand that does not fit its field.
pub open spec fn range_fault(ins: Instruction) -> Fault {
    Fault { kind: FaultKind::ValueOutOfRange, location: ins.operand_location }
}

/// The word that encodes an instruction, or the fault of an operand whose
/// value does not fit its field.
pub open spec fn encode_instruction(symbols: Seq<Symbol>, ins: Instruction) -> Result<u32, Fault> {
    if ins.rd >= 32 || ins.rs1 >= 32 || ins.rs2 >= 32 {
        Err(range_fault(ins))
    } else {
        match ins.op {
            Opcode::Add => Ok(encode_r_spec(FUNCT7_ADD, ins.rd, ins.rs1, ins.rs2)),
            Opcode::Sub => Ok(encode_r_spec(FUNCT7_SUB, ins.rd, ins.rs1, ins.rs2)),
            Opcode::Lui => match resolved_value(symbols, ins.imm) {
                Some(v) => if 0 <= v <= 0xFFFFF {
                    Ok(encode_u_spec(ins.rd, v as u32))
                } else {
                    Err(range_fault(ins))
                },
                None => Err(range_fault(ins)),
            },
            Opcode::Addi => match resolved_value(symbols, ins.imm) {
                Some(v) => if -0x800 <= v <= 0x7FF {
                    Ok(encode_i_spec(ins.rd, ins.rs1, v as i32))
                } else {
                    Err(range_fault(ins))
                },
                None => Err(range_fault(ins)),
            },
        }
    }
}

/// The word of an item: a data word stands for itself.
pub open spec fn encode_item(symbols: Seq<Symbol>, item: ParsedItem) -> Result<u32, Fault> {
    match item {
        ParsedItem::Instruction(ins) => encode_instruction(symbols, ins),
        ParsedItem::Word { value, .. } => Ok(value),
    }
}

/// `prefix` in front of the bytes of `rest`; a fault stays a fault.
pub open spec fn prepend_bytes(prefix: Seq<u8>, rest: Result<Seq<u8>, Fault>) -> Result<
    Seq<u8>,
    Fault,
> {
    match rest {
        Ok(bytes) => Ok(prefix + bytes),
        Err(f) => Err(f),
    }
}

/// The bytes of the items from `k` on, in program order, or the first
/// fault among them.
pub open spec fn code_from(symbols: Seq<Symbol>, items: Seq<ParsedItem>, k: int) -> Result<
    Seq<u8>,
    Fault,
>
    decreases items.len() - k,
{
    if k < 0 || k >= items.len() {
        Ok(Seq::empty())
    } else {
        match encode_item(symbols, items[k]) {
            Ok(word) => prepend_bytes(word_bytes(word), code_from(symbols, items, k + 1)),
            Err(f) => Err(f),
        }
    }
}

/// The machine code of a program.
pub open spec fn code(symbols: Seq<Symbol>, items: Seq<ParsedItem>) -> Result<Seq<u8>, Fault> {
    code_from(symbols, items, 0)
}

fn resolve(symbols: &Vec<Symbol>, imm: Immediate) -> (value: Option<i64>)
    ensures
        match value {
            Some(v) => resolved_value(symbols@, imm) == Some(v as int),
            None => resolved_value(symbols@, imm) is None,
        },
{
    match imm {
        Immediate::Value(v) => Some(v),
        Immediate::Symbol(k) => if k < symbols.len() {
            match symbols[k].value {
                Some(a) => Some(a as i64),
                None => None,
            }
        } else {
            None
        },
    }
}

/// Encodes one item, with symbolic operands resolved through `symbols`.
pub fn encode(symbols: &Vec<Symbol>, item: ParsedItem) -> (result: Result<u32, Fault>)
    ensures
        result == encode_item(symbols@, item),
{
    match item {
        ParsedItem::Word { value, .. } => Ok(value),
        ParsedItem::Instruction(ins) => {
            let fault = Fault { kind: FaultKind::ValueOutOfRange, location: ins.operand_location };
            if ins.rd >= 32 || ins.rs1 >= 32 || ins.rs2 >= 32 {
                return Err(fault);
            }
            match ins.op {
                Opcode::Add => Ok(encode_r(FUNCT7_ADD, ins.rd, ins.rs1, ins.rs2)),
                Opcode::Sub => Ok(encode_r(FUNCT7_SUB, ins.rd, ins.rs1, ins.rs2)),
                Opcode::Lui => match resolve(symbols, ins.imm) {
                    Some(v) => if 0 <= v && v <= 0xFFFFF {
                        Ok(encode_u(ins.rd, v as u32))
                    } else {
                        Err(fault)
                    },
                    None => Err(fault),
                },
                Opcode::Addi => match resolve(symbols, ins.imm) {
                    Some(v) => if -0x800 <= v && v <= 0x7FF {
                        Ok(encode_i(ins.rd, ins.rs1, v as i32))
                    } else {
                        Err(fault)
                    },
                    None => Err(fault),
                },
            }
        },
    }
}

/// Emits the word of every item, in program order, least significant
/// byte first; or reports the first operand whose value does not fit its
/// field, at the operand's location.
pub fn generate_machine_code(symbols: &Vec<Symbol>, items: &Vec<ParsedItem>) -> (result: Result<
    Vec<u8>,
    Fault,
>)
    ensures
        match result {
            Ok(bytes) => code(symbols@, items@) == Ok::<Seq<u8>, Fault>(bytes@),
            Err(fault) => code(symbols@, items@) == Err::<Seq<u8>, Fault>(fault),
        },
{
    let mut output: Vec<u8> = Vec::new();
    let mut k: usize = 0;
    proof {
        match code(symbols@, items@) {
            Ok(all) => assert(Seq::<u8>::empty() + all =~= all),
            Err(_) => {},
        }
    }
    while k < items.len()
        invariant
            k <= items.len(),
            code(symbols@, items@) == prepend_bytes(
                output@,
                code_from(symbols@, items@, k as int),
            ),
        decreases items.len() - k,
    {
        match encode(symbols, items[k]) {
            Ok(word) => {
                let ghost before = output@;
                push_word(&mut output, word);
                proof {
                    match code_from(symbols@, items@, k + 1) {
                        Ok(rest) => assert((before + word_bytes(word)) + rest =~= before + (
                        word_bytes(word) + rest)),
                        Err(_) => {},
                    }
                }
            },
            Err(fault) => {
                return Err(fault);
            },
        }
        k += 1;
    }
    proof {
        assert(output@ + Seq::<u8>::empty() =~= output@);
    }
    Ok(output)
}

/// Every item gives four bytes: the code ends where the layout's cursor
/// stands.
pub proof fn lemma_code_length(symbols: Seq<Symbol>, items: Seq<ParsedItem>, k: int)
    requires
        0 <= k <= items.len(),
    ensures
        code_from(symbols, items, k) matches Ok(bytes) ==> bytes.len() == 4 * (items.len() - k),
    decreases items.len() - k,
{
    if k < items.len() {
        lemma_code_length(symbols, items, k + 1);
    }
}


/// An item that fits and names no symbol is always encoded; one that
/// names a symbol is encoded exactly when the symbol's value fits the
/// field.
pub proof fn lemma_encode_fits(symbols: Seq<Symbol>, item: ParsedItem)
    requires
        item_fits(item),
    ensures
        match item {
            ParsedItem::Word { .. } => encode_item(symbols, item) is Ok,
            ParsedItem::Instruction(ins) => match ins.imm {
                Immediate::Value(_) => encode_item(symbols, item) is Ok,
                Immediate::Symbol(_) => encode_item(symbols, item) is Ok <==> (match ins.op {
                    Opcode::Addi => resolved_value(symbols, ins.imm) matches Some(v) && -0x800 <= v
                        <= 0x7FF,
                    Opcode::Lui => resolved_value(symbols, ins.imm) matches Some(v) && 0 <= v
                        <= 0xFFFFF,
                    _ => true,
                }),
            },
        },
{
}

} // verus!
