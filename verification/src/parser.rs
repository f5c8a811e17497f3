//! Parsing: tokens to native instructions and a symbol table.
//!
//! The model is [`parse`], a fold of [`parse_line`] over the lines of the
//! token sequence. Pseudo-instructions are expanded here, because the
//! number of native instructions decides the memory layout.

use vstd::prelude::*;
use vstd::string::*;
use crate::encode::Opcode;
use crate::error::SourceLocation;
use crate::names::{register_index, register_number, word_is};
use crate::numeral::{numeral_value, parse_numeral, NUMERAL_LIMIT};
use crate::tokenizer::{token_views, Token, TokenKind, TokenView};

verus! {

/// What a reported fault is about.
#[derive(Debug, Clone, Copy, PartialEq, Eq, Structural)]
pub enum FaultKind {
    DuplicateLabel,
    ExpectedStatement,
    UnknownDirective,
    UnsupportedInstruction,
    ExpectedRegister,
    ExpectedComma,
    ExpectedImmediate,
    ExpectedNumber,
    ExpectedLineEnd,
    ImmediateOutOfRange,
    AddressOverflow,
    ValueOutOfRange,
}

/// A fault of one statement, at the token that shows it.
#[derive(Debug, Clone, Copy, PartialEq, Eq, Structural)]
pub struct Fault {
    pub kind: FaultKind,
    pub location: SourceLocation,
}

/// An immediate operand: a number, or the symbol-table index of a name.
#[derive(Debug, Clone, Copy, PartialEq, Eq, Structural)]
pub enum Immediate {
    Value(i64),
    Symbol(usize),
}

/// One native instruction.
#[derive(Debug, Clone, Copy, PartialEq, Eq, Structural)]
pub struct Instruction {
    pub op: Opcode,
    pub rd: u8,
    pub rs1: u8,
    pub rs2: u8,
    pub imm: Immediate,
    /// Where the statement that gave this instruction starts.
    pub location: SourceLocation,
    /// Where its immediate operand stands; the statement's start if it has none.
    pub operand_location: SourceLocation,
}

/// One assembled unit, four bytes long: a native instruction or a data word.
#[derive(Debug, Clone, Copy, PartialEq, Eq, Structural)]
pub enum ParsedItem {
    Instruction(Instruction),
    Word { value: u32, location: SourceLocation },
}

#[derive(Debug, Clone, Copy, PartialEq, Eq, Structural)]
pub enum SymbolKind {
    /// Defined by a label; its value is an address.
    Label,
    /// Only used as an operand so far.
    Constant,
}

/// An entry of the symbol table. Its name is the text of the token whose
/// index is `name_token`: the first occurrence of the name.
#[derive(Debug, Clone, Copy)]
pub struct Symbol {
    pub name_token: usize,
    pub kind: SymbolKind,
    pub value: Option<u32>,
    pub definition_location: Option<SourceLocation>,
    /// The index of the item that a label stands before.
    pub item: usize,
}

/// One use of a symbol as an operand.
#[derive(Debug, Clone, Copy, PartialEq, Eq, Structural)]
pub struct Reference {
    pub symbol: usize,
    pub location: SourceLocation,
}

/// What parsing produces: the items in program order, the symbol table
/// with the uses of each symbol in source order, and the faults found.
pub struct Program {
    pub items: Vec<ParsedItem>,
    pub symbols: Vec<Symbol>,
    pub references: Vec<Reference>,
    pub faults: Vec<Fault>,
}

pub struct ProgramView {
    pub items: Seq<ParsedItem>,
    pub symbols: Seq<Symbol>,
    pub references: Seq<Reference>,
    pub faults: Seq<Fault>,
}

impl View for Program {
    type V = ProgramView;

    open spec fn view(&self) -> ProgramView {
        ProgramView {
            items: self.items@,
            symbols: self.symbols@,
            references: self.references@,
            faults: self.faults@,
        }
    }
}

impl ProgramView {
    pub open spec fn empty() -> ProgramView {
        ProgramView {
            items: Seq::empty(),
            symbols: Seq::empty(),
            references: Seq::empty(),
            faults: Seq::empty(),
        }
    }

    pub open spec fn with_fault(self, fault: Fault) -> ProgramView {
        ProgramView { faults: self.faults.push(fault), ..self }
    }
}

/// The mnemonics that can be assembled.
#[derive(Debug, Clone, Copy, PartialEq, Eq, Structural)]
pub enum Mnemonic {
    Lui,
    Addi,
    Add,
    Sub,
    Inc,
    Dec,
    Mv,
    Nop,
    Neg,
    Li,
}

pub open spec fn mnemonic_of(s: Seq<char>) -> Option<Mnemonic> {
    if s == "lui"@ {
        Some(Mnemonic::Lui)
    } else if s == "addi"@ {
        Some(Mnemonic::Addi)
    } else if s == "add"@ {
        Some(Mnemonic::Add)
    } else if s == "sub"@ {
        Some(Mnemonic::Sub)
    } else if s == "inc"@ {
        Some(Mnemonic::Inc)
    } else if s == "dec"@ {
        Some(Mnemonic::Dec)
    } else if s == "mv"@ {
        Some(Mnemonic::Mv)
    } else if s == "nop"@ {
        Some(Mnemonic::Nop)
    } else if s == "neg"@ {
        Some(Mnemonic::Neg)
    } else if s == "li"@ {
        Some(Mnemonic::Li)
    } else {
        None
    }
}

/// The number of operands that a mnemonic takes.
pub open spec fn arity(m: Mnemonic) -> int {
    match m {
        Mnemonic::Nop => 0,
        Mnemonic::Inc | Mnemonic::Dec | Mnemonic::Neg => 1,
        Mnemonic::Lui | Mnemonic::Mv | Mnemonic::Li => 2,
        Mnemonic::Addi | Mnemonic::Add | Mnemonic::Sub => 3,
    }
}

/// Whether the last operand of a mnemonic is an immediate.
pub open spec fn takes_immediate(m: Mnemonic) -> bool {
    m == Mnemonic::Lui || m == Mnemonic::Addi || m == Mnemonic::Li
}

/// The values that the immediate of a mnemonic may have.
pub open spec fn immediate_in_range(m: Mnemonic, v: int) -> bool {
    match m {
        Mnemonic::Addi => -0x800 <= v <= 0x7FF,
        Mnemonic::Lui => 0 <= v <= 0xFFFFF,
        _ => -0x8000_0000 <= v <= 0xFFFF_FFFF,
    }
}

pub open spec fn kind_at(toks: Seq<TokenView>, p: int) -> TokenKind {
    if 0 <= p < toks.len() { toks[p].kind } else { TokenKind::EndOfFile }
}

pub open spec fn text_at(toks: Seq<TokenView>, p: int) -> Seq<char> {
    if 0 <= p < toks.len() {
        match toks[p].text {
            Some(t) => t,
            None => Seq::empty(),
        }
    } else {
        Seq::empty()
    }
}

pub open spec fn location_of(toks: Seq<TokenView>, p: int) -> SourceLocation {
    if 0 <= p < toks.len() { toks[p].location } else { SourceLocation { line: 0, col: 0 } }
}

pub open spec fn ends_line(kind: TokenKind) -> bool {
    kind == TokenKind::Newline || kind == TokenKind::EndOfFile
}

pub open spec fn or_fault(a: Option<Fault>, b: Option<Fault>) -> Option<Fault> {
    if a is Some { a } else { b }
}

pub open spec fn fault_at(toks: Seq<TokenView>, p: int, kind: FaultKind) -> Fault {
    Fault { kind, location: location_of(toks, p) }
}

pub open spec fn register_fault(toks: Seq<TokenView>, p: int) -> Option<Fault> {
    if kind_at(toks, p) == TokenKind::Register && register_number(text_at(toks, p)) is Some {
        None
    } else {
        Some(fault_at(toks, p, FaultKind::ExpectedRegister))
    }
}

pub open spec fn register_at(toks: Seq<TokenView>, p: int) -> u8 {
    match register_number(text_at(toks, p)) {
        Some(r) => r,
        None => 0,
    }
}

pub open spec fn comma_fault(toks: Seq<TokenView>, p: int) -> Option<Fault> {
    if kind_at(toks, p) == TokenKind::Comma {
        None
    } else {
        Some(fault_at(toks, p, FaultKind::ExpectedComma))
    }
}

pub open spec fn end_fault(toks: Seq<TokenView>, p: int) -> Option<Fault> {
    if ends_line(kind_at(toks, p)) {
        None
    } else {
        Some(fault_at(toks, p, FaultKind::ExpectedLineEnd))
    }
}

/// The value of the numeral at `p`, if a numeral stands there.
pub open spec fn number_at(toks: Seq<TokenView>, p: int) -> Option<int> {
    match kind_at(toks, p) {
        TokenKind::Number(base) => Some(numeral_value(text_at(toks, p), base)),
        _ => None,
    }
}

/// The fault of the immediate operand of `m` at `p`: it is a numeral in
/// the range of `m`, or a name (not for `li`, whose length depends on the
/// value).
pub open spec fn immediate_fault(toks: Seq<TokenView>, p: int, m: Mnemonic) -> Option<Fault> {
    match number_at(toks, p) {
        Some(v) => if immediate_in_range(m, v) {
            None
        } else {
            Some(fault_at(toks, p, FaultKind::ImmediateOutOfRange))
        },
        None => if kind_at(toks, p) == TokenKind::Identifier {
            if m == Mnemonic::Li {
                Some(fault_at(toks, p, FaultKind::ExpectedNumber))
            } else {
                None
            }
        } else {
            Some(fault_at(toks, p, FaultKind::ExpectedImmediate))
        },
    }
}

/// The fault of operand `k` of the statement whose mnemonic `m` is token
/// `j`: operands are separated by commas.
pub open spec fn slot_fault(toks: Seq<TokenView>, j: int, m: Mnemonic, k: int) -> Option<Fault> {
    or_fault(
        if k > 0 { comma_fault(toks, j + 2 * k) } else { None },
        if takes_immediate(m) && k == arity(m) - 1 {
            immediate_fault(toks, j + 2 * k + 1, m)
        } else {
            register_fault(toks, j + 2 * k + 1)
        },
    )
}

/// The position behind the operands of the statement at `j`.
pub open spec fn statement_end(j: int, m: Mnemonic) -> int {
    if arity(m) == 0 { j + 1 } else { j + 2 * arity(m) }
}

/// The first fault of the statement whose mnemonic `m` is token `j`.
pub open spec fn statement_fault(toks: Seq<TokenView>, j: int, m: Mnemonic) -> Option<Fault> {
    or_fault(
        if arity(m) > 0 { slot_fault(toks, j, m, 0) } else { None },
        or_fault(
            if arity(m) > 1 { slot_fault(toks, j, m, 1) } else { None },
            or_fault(
                if arity(m) > 2 { slot_fault(toks, j, m, 2) } else { None },
                end_fault(toks, statement_end(j, m)),
            ),
        ),
    )
}

/// The 32-bit pattern of `v`, for `-2^31 <= v < 2^32`.
pub open spec fn bits_of(v: int) -> int {
    if v < 0 { v + 0x1_0000_0000 } else { v }
}

/// The low 12 bits of `v`, read as a signed number.
pub open spec fn lower12(v: int) -> int {
    (bits_of(v) + 0x800) % 0x1000 - 0x800
}

/// The 20 bits that `LUI` loads so that adding `lower12(v)` gives `v`.
pub open spec fn upper20(v: int) -> int {
    ((bits_of(v) - lower12(v)) / 0x1000) % 0x10_0000
}

pub open spec fn native(
    op: Opcode,
    rd: u8,
    rs1: u8,
    rs2: u8,
    imm: Immediate,
    location: SourceLocation,
    operand_location: SourceLocation,
) -> ParsedItem {
    ParsedItem::Instruction(Instruction { op, rd, rs1, rs2, imm, location, operand_location })
}

/// The native instructions that the statement `m rd, rs1, rs2 / imm`
/// stands for.
pub open spec fn expand(
    m: Mnemonic,
    rd: u8,
    rs1: u8,
    rs2: u8,
    imm: Immediate,
    at: SourceLocation,
    operand: SourceLocation,
) -> Seq<ParsedItem> {
    let zero = Immediate::Value(0);
    match m {
        Mnemonic::Lui => seq![native(Opcode::Lui, rd, 0, 0, imm, at, operand)],
        Mnemonic::Addi => seq![native(Opcode::Addi, rd, rs1, 0, imm, at, operand)],
        Mnemonic::Add => seq![native(Opcode::Add, rd, rs1, rs2, zero, at, at)],
        Mnemonic::Sub => seq![native(Opcode::Sub, rd, rs1, rs2, zero, at, at)],
        Mnemonic::Inc => seq![native(Opcode::Addi, rd, rd, 0, Immediate::Value(1), at, at)],
        Mnemonic::Dec => seq![native(Opcode::Addi, rd, rd, 0, Immediate::Value(-1i64), at, at)],
        Mnemonic::Mv => seq![native(Opcode::Addi, rd, rs1, 0, zero, at, at)],
        Mnemonic::Nop => seq![native(Opcode::Addi, 0, 0, 0, zero, at, at)],
        Mnemonic::Neg => seq![native(Opcode::Sub, rd, 0, rd, zero, at, at)],
        Mnemonic::Li => match imm {
            Immediate::Value(v) => if -0x800 <= v <= 0x7FF {
                seq![native(Opcode::Addi, rd, 0, 0, imm, at, operand)]
            } else {
                seq![
                    native(
                        Opcode::Lui,
                        rd,
                        0,
                        0,
                        Immediate::Value(upper20(v as int) as i64),
                        at,
                        operand,
                    ),
                    native(
                        Opcode::Addi,
                        rd,
                        rd,
                        0,
                        Immediate::Value(lower12(v as int) as i64),
                        at,
                        operand,
                    ),
                ]
            },
            Immediate::Symbol(_) => Seq::empty(),
        },
    }
}

/// The index of the first entry from `k` on that is named `name`.
pub open spec fn find_from(toks: Seq<TokenView>, symbols: Seq<Symbol>, name: Seq<char>, k: int)
    -> Option<int>
    decreases symbols.len() - k,
{
    if k < 0 || k >= symbols.len() {
        None
    } else if text_at(toks, symbols[k].name_token as int) == name {
        Some(k)
    } else {
        find_from(toks, symbols, name, k + 1)
    }
}

/// The index of the entry that the name at token `p` has, once it has one.
pub open spec fn symbol_index(toks: Seq<TokenView>, symbols: Seq<Symbol>, p: int) -> int {
    match find_from(toks, symbols, text_at(toks, p), 0) {
        Some(k) => k,
        None => symbols.len() as int,
    }
}

/// The table after the name at token `p` was used as an operand: a name
/// that has no entry gets one, without a value.
pub open spec fn refer(toks: Seq<TokenView>, symbols: Seq<Symbol>, p: int) -> Seq<Symbol> {
    match find_from(toks, symbols, text_at(toks, p), 0) {
        Some(_) => symbols,
        None => symbols.push(
            Symbol {
                name_token: p as usize,
                kind: SymbolKind::Constant,
                value: None,
                definition_location: None,
                item: 0,
            },
        ),
    }
}

/// The entry of a label that is defined at token `p` before item `item`.
pub open spec fn label_entry(toks: Seq<TokenView>, name_token: usize, p: int, item: int) -> Symbol {
    Symbol {
        name_token,
        kind: SymbolKind::Label,
        value: None,
        definition_location: Some(location_of(toks, p)),
        item: item as usize,
    }
}

/// The program after the label at token `p` was defined: a second
/// definition of a name is a fault and changes nothing else.
pub open spec fn define(toks: Seq<TokenView>, st: ProgramView, p: int) -> ProgramView {
    match find_from(toks, st.symbols, text_at(toks, p), 0) {
        Some(k) => if st.symbols[k].definition_location is Some {
            st.with_fault(fault_at(toks, p, FaultKind::DuplicateLabel))
        } else {
            ProgramView {
                symbols: st.symbols.update(
                    k,
                    label_entry(toks, st.symbols[k].name_token, p, st.items.len() as int),
                ),
                ..st
            }
        },
        None => ProgramView {
            symbols: st.symbols.push(label_entry(toks, p as usize, p, st.items.len() as int)),
            ..st
        },
    }
}

/// The position of the immediate operand of the statement at `j`.
pub open spec fn immediate_position(j: int, m: Mnemonic) -> int {
    j + 2 * arity(m) - 1
}

/// The program after the instruction statement whose mnemonic is token `j`.
pub open spec fn instruction(toks: Seq<TokenView>, j: int, st: ProgramView) -> ProgramView {
    match mnemonic_of(text_at(toks, j)) {
        None => st.with_fault(fault_at(toks, j, FaultKind::UnsupportedInstruction)),
        Some(m) => match statement_fault(toks, j, m) {
            Some(f) => st.with_fault(f),
            None => {
                let rd = register_at(toks, j + 1);
                let rs1 = register_at(toks, j + 3);
                let rs2 = register_at(toks, j + 5);
                let at = location_of(toks, j);
                let p = immediate_position(j, m);
                if !takes_immediate(m) {
                    ProgramView {
                        items: st.items + expand(m, rd, rs1, rs2, Immediate::Value(0), at, at),
                        ..st
                    }
                } else {
                    match number_at(toks, p) {
                        Some(v) => ProgramView {
                            items: st.items + expand(
                                m,
                                rd,
                                rs1,
                                rs2,
                                Immediate::Value(v as i64),
                                at,
                                location_of(toks, p),
                            ),
                            ..st
                        },
                        None => ProgramView {
                            items: st.items + expand(
                                m,
                                rd,
                                rs1,
                                rs2,
                                Immediate::Symbol(symbol_index(toks, st.symbols, p) as usize),
                                at,
                                location_of(toks, p),
                            ),
                            symbols: refer(toks, st.symbols, p),
                            references: st.references.push(
                                Reference {
                                    symbol: symbol_index(toks, st.symbols, p) as usize,
                                    location: location_of(toks, p),
                                },
                            ),
                            faults: st.faults,
                        },
                    }
                }
            },
        },
    }
}

/// The first fault of a `.word` directive at token `j`: it takes one
/// numeral of 32 bits.
pub open spec fn word_fault(toks: Seq<TokenView>, j: int) -> Option<Fault> {
    or_fault(
        match number_at(toks, j + 1) {
            Some(v) => if -0x8000_0000 <= v <= 0xFFFF_FFFF {
                None
            } else {
                Some(fault_at(toks, j + 1, FaultKind::ImmediateOutOfRange))
            },
            None => Some(fault_at(toks, j + 1, FaultKind::ExpectedNumber)),
        },
        end_fault(toks, j + 2),
    )
}

/// The program after the directive at token `j`. `.word` emits its
/// operand as a data word; `.text`, `.data` and `.global` emit nothing.
pub open spec fn directive(toks: Seq<TokenView>, j: int, st: ProgramView) -> ProgramView {
    let name = text_at(toks, j);
    if name == ".word"@ {
        match word_fault(toks, j) {
            Some(f) => st.with_fault(f),
            None => ProgramView {
                items: st.items.push(
                    ParsedItem::Word {
                        value: bits_of(number_at(toks, j + 1)->0) as u32,
                        location: location_of(toks, j),
                    },
                ),
                ..st
            },
        }
    } else if name == ".text"@ || name == ".data"@ || name == ".global"@ {
        st
    } else {
        st.with_fault(fault_at(toks, j, FaultKind::UnknownDirective))
    }
}

/// Whether the line at token `i` starts with a label definition.
pub open spec fn has_label(toks: Seq<TokenView>, i: int) -> bool {
    kind_at(toks, i) == TokenKind::Identifier && kind_at(toks, i + 1) == TokenKind::Colon
}

/// The program after the statement at token `j`, behind any label.
pub open spec fn statement(toks: Seq<TokenView>, j: int, st: ProgramView) -> ProgramView {
    match kind_at(toks, j) {
        TokenKind::Newline | TokenKind::EndOfFile => st,
        TokenKind::Directive => directive(toks, j, st),
        TokenKind::Instruction | TokenKind::Pseudoinstruction => instruction(toks, j, st),
        _ => st.with_fault(fault_at(toks, j, FaultKind::ExpectedStatement)),
    }
}

/// The program after the line that starts at token `i`: an optional
/// label definition, then an optional statement. A line holds at most one
/// fault: nothing is guessed behind a broken statement.
pub open spec fn parse_line(toks: Seq<TokenView>, i: int, st: ProgramView) -> ProgramView {
    if has_label(toks, i) {
        statement(toks, i + 2, define(toks, st, i))
    } else {
        statement(toks, i, st)
    }
}

/// The position of the first token from `i` on that ends a line.
pub open spec fn line_end(toks: Seq<TokenView>, i: int) -> int
    decreases toks.len() - i,
{
    if i < 0 || i >= toks.len() || ends_line(toks[i].kind) {
        i
    } else {
        line_end(toks, i + 1)
    }
}

/// Where the line behind the one at `i` starts.
pub open spec fn next_line(toks: Seq<TokenView>, i: int) -> int {
    let e = line_end(toks, i);
    if kind_at(toks, e) == TokenKind::Newline { e + 1 } else { e }
}

/// The program after the lines from token `i` on, up to the end of file.
pub open spec fn parse_from(toks: Seq<TokenView>, i: int, st: ProgramView) -> ProgramView
    decreases toks.len() - i,
{
    if i < 0 || i >= toks.len() || toks[i].kind == TokenKind::EndOfFile {
        st
    } else {
        let next = next_line(toks, i);
        if next <= i || next > toks.len() {
            parse_line(toks, i, st)
        } else {
            parse_from(toks, next, parse_line(toks, i, st))
        }
    }
}

/// The program that a token sequence denotes.
pub open spec fn parse(toks: Seq<TokenView>) -> ProgramView {
    parse_from(toks, 0, ProgramView::empty())
}


fn kind_of(tokens: &Vec<Token>, j: usize, d: usize) -> (kind: TokenKind)
    requires
        j < tokens.len(),
    ensures
        kind == kind_at(token_views(tokens@), j + d),
{
    if d < tokens.len() - j {
        tokens[j + d].kind
    } else {
        TokenKind::EndOfFile
    }
}

fn place_of(tokens: &Vec<Token>, j: usize, d: usize) -> (location: SourceLocation)
    requires
        j < tokens.len(),
    ensures
        location == location_of(token_views(tokens@), j + d),
{
    if d < tokens.len() - j {
        tokens[j + d].location
    } else {
        SourceLocation { line: 0, col: 0 }
    }
}

fn text_of(tokens: &Vec<Token>, j: usize, d: usize) -> (text: &str)
    requires
        j < tokens.len(),
    ensures
        text@ == text_at(token_views(tokens@), j + d),
{
    proof {
        reveal_strlit("");
    }
    if d < tokens.len() - j {
        match &tokens[j + d].text {
            Some(t) => t.as_str(),
            None => "",
        }
    } else {
        ""
    }
}

fn fault_of(tokens: &Vec<Token>, j: usize, d: usize, kind: FaultKind) -> (fault: Fault)
    requires
        j < tokens.len(),
    ensures
        fault == fault_at(token_views(tokens@), j + d, kind),
{
    Fault { kind, location: place_of(tokens, j, d) }
}

/// The mnemonic that `word` names, if it can be assembled.
pub fn mnemonic(word: &str) -> (m: Option<Mnemonic>)
    ensures
        m == mnemonic_of(word@),
{
    let n = word.unicode_len();
    if word_is(word, n, "lui") {
        Some(Mnemonic::Lui)
    } else if word_is(word, n, "addi") {
        Some(Mnemonic::Addi)
    } else if word_is(word, n, "add") {
        Some(Mnemonic::Add)
    } else if word_is(word, n, "sub") {
        Some(Mnemonic::Sub)
    } else if word_is(word, n, "inc") {
        Some(Mnemonic::Inc)
    } else if word_is(word, n, "dec") {
        Some(Mnemonic::Dec)
    } else if word_is(word, n, "mv") {
        Some(Mnemonic::Mv)
    } else if word_is(word, n, "nop") {
        Some(Mnemonic::Nop)
    } else if word_is(word, n, "neg") {
        Some(Mnemonic::Neg)
    } else if word_is(word, n, "li") {
        Some(Mnemonic::Li)
    } else {
        None
    }
}

fn operand_count(m: Mnemonic) -> (n: usize)
    ensures
        n == arity(m),
        n <= 3,
{
    match m {
        Mnemonic::Nop => 0,
        Mnemonic::Inc | Mnemonic::Dec | Mnemonic::Neg => 1,
        Mnemonic::Lui | Mnemonic::Mv | Mnemonic::Li => 2,
        Mnemonic::Addi | Mnemonic::Add | Mnemonic::Sub => 3,
    }
}

fn has_immediate(m: Mnemonic) -> (r: bool)
    ensures
        r == takes_immediate(m),
{
    match m {
        Mnemonic::Lui | Mnemonic::Addi | Mnemonic::Li => true,
        _ => false,
    }
}

fn in_range(m: Mnemonic, v: i64) -> (r: bool)
    ensures
        r == immediate_in_range(m, v as int),
{
    match m {
        Mnemonic::Addi => -0x800 <= v && v <= 0x7FF,
        Mnemonic::Lui => 0 <= v && v <= 0xFFFFF,
        _ => -0x8000_0000 <= v && v <= 0xFFFF_FFFF,
    }
}

/// The numeral at `j + d`: `None` where no numeral stands there, else its
/// value, or `None` inside where its magnitude is over `2^32`.
fn number_of(tokens: &Vec<Token>, j: usize, d: usize) -> (r: Option<Option<i64>>)
    requires
        j < tokens.len(),
    ensures
        r is Some <==> number_at(token_views(tokens@), j + d) is Some,
        r matches Some(inner) ==> {
            let v = number_at(token_views(tokens@), j + d)->0;
            inner == if -NUMERAL_LIMIT <= v <= NUMERAL_LIMIT { Some(v as i64) } else { None }
        },
{
    match kind_of(tokens, j, d) {
        TokenKind::Number(base) => Some(parse_numeral(text_of(tokens, j, d), base)),
        _ => None,
    }
}

fn check_register(tokens: &Vec<Token>, j: usize, d: usize) -> (r: Option<Fault>)
    requires
        j < tokens.len(),
    ensures
        r == register_fault(token_views(tokens@), j + d),
{
    let is_register = match kind_of(tokens, j, d) {
        TokenKind::Register => true,
        _ => false,
    };
    if is_register && register_index(text_of(tokens, j, d)).is_some() {
        None
    } else {
        Some(fault_of(tokens, j, d, FaultKind::ExpectedRegister))
    }
}

fn register_of(tokens: &Vec<Token>, j: usize, d: usize) -> (r: u8)
    requires
        j < tokens.len(),
    ensures
        r == register_at(token_views(tokens@), j + d),
        r < 32,
{
    match register_index(text_of(tokens, j, d)) {
        Some(r) => r,
        None => 0,
    }
}

fn check_comma(tokens: &Vec<Token>, j: usize, d: usize) -> (r: Option<Fault>)
    requires
        j < tokens.len(),
    ensures
        r == comma_fault(token_views(tokens@), j + d),
{
    match kind_of(tokens, j, d) {
        TokenKind::Comma => None,
        _ => Some(fault_of(tokens, j, d, FaultKind::ExpectedComma)),
    }
}

fn check_end(tokens: &Vec<Token>, j: usize, d: usize) -> (r: Option<Fault>)
    requires
        j < tokens.len(),
    ensures
        r == end_fault(token_views(tokens@), j + d),
{
    match kind_of(tokens, j, d) {
        TokenKind::Newline | TokenKind::EndOfFile => None,
        _ => Some(fault_of(tokens, j, d, FaultKind::ExpectedLineEnd)),
    }
}

fn check_immediate(tokens: &Vec<Token>, j: usize, d: usize, m: Mnemonic) -> (r: Option<Fault>)
    requires
        j < tokens.len(),
    ensures
        r == immediate_fault(token_views(tokens@), j + d, m),
{
    match number_of(tokens, j, d) {
        Some(Some(v)) => if in_range(m, v) {
            None
        } else {
            Some(fault_of(tokens, j, d, FaultKind::ImmediateOutOfRange))
        },
        Some(None) => Some(fault_of(tokens, j, d, FaultKind::ImmediateOutOfRange)),
        None => {
            let is_name = match kind_of(tokens, j, d) {
                TokenKind::Identifier => true,
                _ => false,
            };
            if is_name {
                match m {
                    Mnemonic::Li => Some(fault_of(tokens, j, d, FaultKind::ExpectedNumber)),
                    _ => None,
                }
            } else {
                Some(fault_of(tokens, j, d, FaultKind::ExpectedImmediate))
            }
        },
    }
}

fn check_slot(tokens: &Vec<Token>, j: usize, m: Mnemonic, k: usize) -> (r: Option<Fault>)
    requires
        j < tokens.len(),
        k < 3,
    ensures
        r == slot_fault(token_views(tokens@), j as int, m, k as int),
{
    if k > 0 {
        let comma = check_comma(tokens, j, 2 * k);
        if comma.is_some() {
            return comma;
        }
    }
    if has_immediate(m) && k + 1 == operand_count(m) {
        check_immediate(tokens, j, 2 * k + 1, m)
    } else {
        check_register(tokens, j, 2 * k + 1)
    }
}

/// The first fault of the statement whose mnemonic `m` is token `j`.
pub fn check_statement(tokens: &Vec<Token>, j: usize, m: Mnemonic) -> (r: Option<Fault>)
    requires
        j < tokens.len(),
    ensures
        r == statement_fault(token_views(tokens@), j as int, m),
{
    let n = operand_count(m);
    if n > 0 {
        let f = check_slot(tokens, j, m, 0);
        if f.is_some() {
            return f;
        }
    }
    if n > 1 {
        let f = check_slot(tokens, j, m, 1);
        if f.is_some() {
            return f;
        }
    }
    if n > 2 {
        let f = check_slot(tokens, j, m, 2);
        if f.is_some() {
            return f;
        }
    }
    check_end(tokens, j, if n == 0 { 1 } else { 2 * n })
}


/// `LUI` of `upper20(v)` followed by `ADDI` of `lower12(v)` loads `v`:
/// both parts fit their fields, and together they give the 32 bits of `v`.
pub proof fn lemma_li_split(v: int)
    requires
        -0x8000_0000 <= v <= 0xFFFF_FFFF,
    ensures
        0 <= upper20(v) <= 0xFFFFF,
        -0x800 <= lower12(v) <= 0x7FF,
        (upper20(v) * 0x1000 + lower12(v)) % 0x1_0000_0000 == bits_of(v),
{
}

fn name_of<'a>(tokens: &'a Vec<Token>, p: usize) -> (text: &'a str)
    ensures
        text@ == text_at(token_views(tokens@), p as int),
{
    proof {
        reveal_strlit("");
    }
    if p < tokens.len() {
        match &tokens[p].text {
            Some(t) => t.as_str(),
            None => "",
        }
    } else {
        ""
    }
}

/// The index of the entry that has the name of token `p`.
pub fn find(tokens: &Vec<Token>, symbols: &Vec<Symbol>, p: usize) -> (r: Option<usize>)
    ensures
        match r {
            Some(k) => find_from(
                token_views(tokens@),
                symbols@,
                text_at(token_views(tokens@), p as int),
                0,
            ) == Some(k as int) && k < symbols.len(),
            None => find_from(
                token_views(tokens@),
                symbols@,
                text_at(token_views(tokens@), p as int),
                0,
            ) is None,
        },
{
    let name = name_of(tokens, p);
    let n = name.unicode_len();
    let mut k: usize = 0;
    while k < symbols.len()
        invariant
            k <= symbols.len(),
            n == name@.len(),
            name@ == text_at(token_views(tokens@), p as int),
            find_from(token_views(tokens@), symbols@, name@, 0) == find_from(
                token_views(tokens@),
                symbols@,
                name@,
                k as int,
            ),
        decreases symbols.len() - k,
    {
        if word_is(name, n, name_of(tokens, symbols[k].name_token)) {
            return Some(k);
        }
        k += 1;
    }
    None
}

fn define_label(tokens: &Vec<Token>, program: &mut Program, p: usize)
    requires
        p < tokens.len(),
    ensures
        final(program)@ == define(token_views(tokens@), old(program)@, p as int),
{
    let location = place_of(tokens, p, 0);
    let item = program.items.len();
    match find(tokens, &program.symbols, p) {
        Some(k) => {
            let entry = program.symbols[k];
            if entry.definition_location.is_some() {
                program.faults.push(Fault { kind: FaultKind::DuplicateLabel, location });
            } else {
                program.symbols.set(
                    k,
                    Symbol {
                        name_token: entry.name_token,
                        kind: SymbolKind::Label,
                        value: None,
                        definition_location: Some(location),
                        item,
                    },
                );
            }
        },
        None => {
            program.symbols.push(
                Symbol {
                    name_token: p,
                    kind: SymbolKind::Label,
                    value: None,
                    definition_location: Some(location),
                    item,
                },
            );
        },
    }
}

fn push_native(
    program: &mut Program,
    op: Opcode,
    rd: u8,
    rs1: u8,
    rs2: u8,
    imm: Immediate,
    location: SourceLocation,
    operand_location: SourceLocation,
)
    ensures
        final(program)@ == (ProgramView {
            items: old(program)@.items.push(
                native(op, rd, rs1, rs2, imm, location, operand_location),
            ),
            ..old(program)@
        }),
{
    program.items.push(
        ParsedItem::Instruction(Instruction { op, rd, rs1, rs2, imm, location, operand_location }),
    );
}

/// Appends the native instructions of one statement.
fn emit(
    program: &mut Program,
    m: Mnemonic,
    rd: u8,
    rs1: u8,
    rs2: u8,
    imm: Immediate,
    at: SourceLocation,
    operand: SourceLocation,
)
    requires
        m == Mnemonic::Li ==> (imm matches Immediate::Value(v) && -0x8000_0000 <= v
            <= 0xFFFF_FFFF),
    ensures
        final(program)@ == (ProgramView {
            items: old(program)@.items + expand(m, rd, rs1, rs2, imm, at, operand),
            ..old(program)@
        }),
{
    let zero = Immediate::Value(0);
    match m {
        Mnemonic::Lui => push_native(program, Opcode::Lui, rd, 0, 0, imm, at, operand),
        Mnemonic::Addi => push_native(program, Opcode::Addi, rd, rs1, 0, imm, at, operand),
        Mnemonic::Add => push_native(program, Opcode::Add, rd, rs1, rs2, zero, at, at),
        Mnemonic::Sub => push_native(program, Opcode::Sub, rd, rs1, rs2, zero, at, at),
        Mnemonic::Inc => push_native(program, Opcode::Addi, rd, rd, 0, Immediate::Value(1), at, at),
        Mnemonic::Dec => push_native(
            program,
            Opcode::Addi,
            rd,
            rd,
            0,
            Immediate::Value(-1),
            at,
            at,
        ),
        Mnemonic::Mv => push_native(program, Opcode::Addi, rd, rs1, 0, zero, at, at),
        Mnemonic::Nop => push_native(program, Opcode::Addi, 0, 0, 0, zero, at, at),
        Mnemonic::Neg => push_native(program, Opcode::Sub, rd, 0, rd, zero, at, at),
        Mnemonic::Li => match imm {
            Immediate::Value(v) => {
                if -0x800 <= v && v <= 0x7FF {
                    push_native(program, Opcode::Addi, rd, 0, 0, imm, at, operand);
                } else {
                    let bits: u64 = if v < 0 { (v + 0x1_0000_0000) as u64 } else { v as u64 };
                    let low: u64 = (bits + 0x800) % 0x1000;
                    let upper: u64 = ((bits + 0x800 - low) / 0x1000) % 0x10_0000;
                    let lower: i64 = low as i64 - 0x800;
                    assert(lower == lower12(v as int));
                    assert(upper == upper20(v as int));
                    push_native(
                        program,
                        Opcode::Lui,
                        rd,
                        0,
                        0,
                        Immediate::Value(upper as i64),
                        at,
                        operand,
                    );
                    push_native(
                        program,
                        Opcode::Addi,
                        rd,
                        rd,
                        0,
                        Immediate::Value(lower),
                        at,
                        operand,
                    );
                }
            },
            Immediate::Symbol(_) => {},
        },
    }
    proof {
        assert(program.items@ =~= old(program).items@ + expand(m, rd, rs1, rs2, imm, at, operand));
    }
}

fn parse_instruction(tokens: &Vec<Token>, program: &mut Program, j: usize)
    requires
        j < tokens.len(),
    ensures
        final(program)@ == instruction(token_views(tokens@), j as int, old(program)@),
{
    let at = place_of(tokens, j, 0);
    match mnemonic(text_of(tokens, j, 0)) {
        None => {
            program.faults.push(Fault { kind: FaultKind::UnsupportedInstruction, location: at });
        },
        Some(m) => match check_statement(tokens, j, m) {
            Some(f) => {
                program.faults.push(f);
            },
            None => {
                let rd = register_of(tokens, j, 1);
                let rs1 = register_of(tokens, j, 3);
                let rs2 = register_of(tokens, j, 5);
                if !has_immediate(m) {
                    emit(program, m, rd, rs1, rs2, Immediate::Value(0), at, at);
                } else {
                    let d = 2 * operand_count(m) - 1;
                    let operand = place_of(tokens, j, d);
                    assert(slot_fault(token_views(tokens@), j as int, m, arity(m) - 1) is None);
                    match number_of(tokens, j, d) {
                        Some(Some(v)) => {
                            emit(program, m, rd, rs1, rs2, Immediate::Value(v), at, operand);
                        },
                        Some(None) => {
                            assert(false);
                        },
                        None => {
                            if d < tokens.len() - j {
                                let k = match find(tokens, &program.symbols, j + d) {
                                    Some(k) => k,
                                    None => {
                                        program.symbols.push(
                                            Symbol {
                                                name_token: j + d,
                                                kind: SymbolKind::Constant,
                                                value: None,
                                                definition_location: None,
                                                item: 0,
                                            },
                                        );
                                        program.symbols.len() - 1
                                    },
                                };
                                program.references.push(Reference { symbol: k, location: operand });
                                emit(program, m, rd, rs1, rs2, Immediate::Symbol(k), at, operand);
                            } else {
                                assert(false);
                            }
                        },
                    }
                }
            },
        },
    }
}

fn parse_directive(tokens: &Vec<Token>, program: &mut Program, j: usize)
    requires
        j < tokens.len(),
    ensures
        final(program)@ == directive(token_views(tokens@), j as int, old(program)@),
{
    let name = text_of(tokens, j, 0);
    let n = name.unicode_len();
    if word_is(name, n, ".word") {
        match number_of(tokens, j, 1) {
            Some(Some(v)) => {
                if -0x8000_0000 <= v && v <= 0xFFFF_FFFF {
                    match check_end(tokens, j, 2) {
                        Some(f) => {
                            program.faults.push(f);
                        },
                        None => {
                            let bits: i64 = if v < 0 { v + 0x1_0000_0000 } else { v };
                            program.items.push(
                                ParsedItem::Word {
                                    value: bits as u32,
                                    location: place_of(tokens, j, 0),
                                },
                            );
                        },
                    }
                } else {
                    program.faults.push(fault_of(tokens, j, 1, FaultKind::ImmediateOutOfRange));
                }
            },
            Some(None) => {
                program.faults.push(fault_of(tokens, j, 1, FaultKind::ImmediateOutOfRange));
            },
            None => {
                program.faults.push(fault_of(tokens, j, 1, FaultKind::ExpectedNumber));
            },
        }
    } else if word_is(name, n, ".text") || word_is(name, n, ".data") || word_is(
        name,
        n,
        ".global",
    ) {
    } else {
        program.faults.push(fault_of(tokens, j, 0, FaultKind::UnknownDirective));
    }
}

fn parse_statement(tokens: &Vec<Token>, program: &mut Program, i: usize, d: usize)
    requires
        i < tokens.len(),
        d <= 2,
    ensures
        final(program)@ == statement(token_views(tokens@), i + d, old(program)@),
{
    match kind_of(tokens, i, d) {
        TokenKind::Newline | TokenKind::EndOfFile => {},
        TokenKind::Directive => parse_directive(tokens, program, i + d),
        TokenKind::Instruction | TokenKind::Pseudoinstruction => parse_instruction(
            tokens,
            program,
            i + d,
        ),
        _ => {
            program.faults.push(fault_of(tokens, i, d, FaultKind::ExpectedStatement));
        },
    }
}

/// Parses the line that starts at token `i`: an optional label
/// definition, then an optional statement.
pub fn parse_one_line(tokens: &Vec<Token>, program: &mut Program, i: usize)
    requires
        i < tokens.len(),
    ensures
        final(program)@ == parse_line(token_views(tokens@), i as int, old(program)@),
{
    let labelled = match (kind_of(tokens, i, 0), kind_of(tokens, i, 1)) {
        (TokenKind::Identifier, TokenKind::Colon) => true,
        _ => false,
    };
    if labelled {
        define_label(tokens, program, i);
        parse_statement(tokens, program, i, 2);
    } else {
        parse_statement(tokens, program, i, 0);
    }
}

fn line_ends_at(tokens: &Vec<Token>, e: usize) -> (r: bool)
    requires
        e < tokens.len(),
    ensures
        r == ends_line(token_views(tokens@)[e as int].kind),
{
    match tokens[e].kind {
        TokenKind::Newline | TokenKind::EndOfFile => true,
        _ => false,
    }
}

fn file_ends_at(tokens: &Vec<Token>, e: usize) -> (r: bool)
    requires
        e < tokens.len(),
    ensures
        r == (token_views(tokens@)[e as int].kind == TokenKind::EndOfFile),
{
    match tokens[e].kind {
        TokenKind::EndOfFile => true,
        _ => false,
    }
}

/// Parses a token sequence, line by line up to its `EndOfFile` token,
/// into the items in program order, the symbol table, and the faults
/// found, in source order.
pub fn parse_all(tokens: &Vec<Token>) -> (program: Program)
    ensures
        program@ == parse(token_views(tokens@)),
{
    let mut program = Program {
        items: Vec::new(),
        symbols: Vec::new(),
        references: Vec::new(),
        faults: Vec::new(),
    };
    let mut i: usize = 0;
    while i < tokens.len() && !file_ends_at(tokens, i)
        invariant
            i <= tokens.len(),
            parse(token_views(tokens@)) == parse_from(token_views(tokens@), i as int, program@),
        decreases tokens.len() - i,
    {
        parse_one_line(tokens, &mut program, i);
        let mut e: usize = i;
        while e < tokens.len() && !line_ends_at(tokens, e)
            invariant
                i <= e <= tokens.len(),
                line_end(token_views(tokens@), i as int) == line_end(
                    token_views(tokens@),
                    e as int,
                ),
            decreases tokens.len() - e,
        {
            e += 1;
        }
        let next: usize = if e < tokens.len() && !file_ends_at(tokens, e) { e + 1 } else { e };
        assert(next == next_line(token_views(tokens@), i as int));
        i = next;
    }
    program
}


/// Every pseudo-instruction but `li` stands for exactly one native
/// instruction: `mv rd, rs1` for `addi rd, rs1, 0`, `nop` for
/// `addi x0, x0, 0`, `inc rd` and `dec rd` for `addi rd, rd, 1` and
/// `addi rd, rd, -1`, and `neg rd` for `sub rd, x0, rd`.
pub proof fn lemma_pseudo_expansion(
    rd: u8,
    rs1: u8,
    rs2: u8,
    imm: Immediate,
    at: SourceLocation,
    operand: SourceLocation,
)
    ensures
        expand(Mnemonic::Mv, rd, rs1, rs2, imm, at, operand) == seq![
            native(Opcode::Addi, rd, rs1, 0, Immediate::Value(0), at, at),
        ],
        expand(Mnemonic::Nop, rd, rs1, rs2, imm, at, operand) == seq![
            native(Opcode::Addi, 0, 0, 0, Immediate::Value(0), at, at),
        ],
        expand(Mnemonic::Inc, rd, rs1, rs2, imm, at, operand) == seq![
            native(Opcode::Addi, rd, rd, 0, Immediate::Value(1), at, at),
        ],
        expand(Mnemonic::Dec, rd, rs1, rs2, imm, at, operand) == seq![
            native(Opcode::Addi, rd, rd, 0, Immediate::Value(-1i64), at, at),
        ],
        expand(Mnemonic::Neg, rd, rs1, rs2, imm, at, operand) == seq![
            native(Opcode::Sub, rd, 0, rd, Immediate::Value(0), at, at),
        ],
        expand(Mnemonic::Mv, rd, rs1, rs2, imm, at, operand) == expand(
            Mnemonic::Addi,
            rd,
            rs1,
            rs2,
            Immediate::Value(0),
            at,
            at,
        ),
        expand(Mnemonic::Neg, rd, rs1, rs2, imm, at, operand) == expand(
            Mnemonic::Sub,
            rd,
            0,
            rd,
            imm,
            at,
            operand,
        ),
{
}

/// `li` stands for one `addi` where the immediate fits 12 signed bits,
/// and for `lui` and `addi` otherwise: never for more.
pub proof fn lemma_li_expansion(rd: u8, v: i64, at: SourceLocation, operand: SourceLocation)
    ensures
        -0x800 <= v <= 0x7FF ==> expand(Mnemonic::Li, rd, 0, 0, Immediate::Value(v), at, operand)
            == seq![native(Opcode::Addi, rd, 0, 0, Immediate::Value(v), at, operand)],
        !(-0x800 <= v <= 0x7FF) ==> expand(
            Mnemonic::Li,
            rd,
            0,
            0,
            Immediate::Value(v),
            at,
            operand,
        ).len() == 2,
{
}


/// Whether an item can be encoded as far as parsing can tell: its
/// registers exist, and a numeric immediate fits the field of its opcode.
pub open spec fn item_fits(item: ParsedItem) -> bool {
    match item {
        ParsedItem::Word { .. } => true,
        ParsedItem::Instruction(ins) => {
            &&& ins.rd < 32
            &&& ins.rs1 < 32
            &&& ins.rs2 < 32
            &&& match ins.imm {
                Immediate::Value(v) => match ins.op {
                    Opcode::Addi => -0x800 <= v <= 0x7FF,
                    Opcode::Lui => 0 <= v <= 0xFFFFF,
                    _ => true,
                },
                Immediate::Symbol(_) => true,
            }
        },
    }
}

pub open spec fn items_fit(items: Seq<ParsedItem>) -> bool {
    forall|k: int| 0 <= k < items.len() ==> item_fits(#[trigger] items[k])
}

/// Parsing a line adds only items that fit.
pub proof fn lemma_parse_line_fits(toks: Seq<TokenView>, i: int, st: ProgramView)
    requires
        items_fit(st.items),
    ensures
        items_fit(parse_line(toks, i, st).items),
{
    let labelled = has_label(toks, i);
    let j = if labelled { i + 2 } else { i };
    let before = if labelled { define(toks, st, i) } else { st };
    assert(before.items == st.items);
    let after = statement(toks, j, before);
    match kind_at(toks, j) {
        TokenKind::Instruction | TokenKind::Pseudoinstruction => {
            match mnemonic_of(text_at(toks, j)) {
                Some(m) => {
                    if statement_fault(toks, j, m) is None {
                        let p = immediate_position(j, m);
                        if takes_immediate(m) {
                            assert(slot_fault(toks, j, m, arity(m) - 1) is None);
                            assert(immediate_fault(toks, p, m) is None);
                            match number_at(toks, p) {
                                Some(v) => {
                                    assert(immediate_in_range(m, v));
                                    if m == Mnemonic::Li {
                                        lemma_li_split(v);
                                    }
                                },
                                None => {},
                            }
                        }
                        assert forall|k: int| 0 <= k < after.items.len() implies item_fits(
                            #[trigger] after.items[k],
                        ) by {
                            if k < st.items.len() {
                                assert(after.items[k] == st.items[k]);
                            }
                        }
                    }
                },
                None => {},
            }
        },
        TokenKind::Directive => {
            assert forall|k: int| 0 <= k < after.items.len() implies item_fits(
                #[trigger] after.items[k],
            ) by {
                if k < st.items.len() {
                    assert(after.items[k] == st.items[k]);
                }
            }
        },
        _ => {},
    }
}

/// Every item that parsing produces fits: its registers exist, and its
/// numeric immediate is in the range of its opcode.
pub proof fn lemma_parse_from_fits(toks: Seq<TokenView>, i: int, st: ProgramView)
    requires
        items_fit(st.items),
    ensures
        items_fit(parse_from(toks, i, st).items),
    decreases toks.len() - i,
{
    if !(i < 0 || i >= toks.len() || toks[i].kind == TokenKind::EndOfFile) {
        lemma_parse_line_fits(toks, i, st);
        let next = next_line(toks, i);
        if !(next <= i || next > toks.len()) {
            lemma_parse_from_fits(toks, next, parse_line(toks, i, st));
        }
    }
}


/// Every item of a parsed program fits.
pub proof fn lemma_parse_fits(toks: Seq<TokenView>)
    ensures
        items_fit(parse(toks).items),
{
    lemma_parse_from_fits(toks, 0, ProgramView::empty());
}


/// The places where symbol `symbol` is used among the first `n` uses, in
/// source order.
pub open spec fn locations_of(references: Seq<Reference>, symbol: usize, n: int) -> Seq<
    SourceLocation,
>
    decreases n,
{
    if n <= 0 {
        Seq::empty()
    } else if references[n - 1].symbol == symbol {
        locations_of(references, symbol, n - 1).push(references[n - 1].location)
    } else {
        locations_of(references, symbol, n - 1)
    }
}

impl Program {
    /// The name of an entry of the symbol table: the text of the token
    /// that first named it.
    pub fn symbol_name<'a>(tokens: &'a Vec<Token>, symbol: &Symbol) -> (name: &'a str)
        ensures
            name@ == text_at(token_views(tokens@), symbol.name_token as int),
    {
        name_of(tokens, symbol.name_token)
    }

    /// The place where an entry of the symbol table was first named.
    pub fn symbol_location(tokens: &Vec<Token>, symbol: &Symbol) -> (location: SourceLocation)
        ensures
            location == location_of(token_views(tokens@), symbol.name_token as int),
    {
        if symbol.name_token < tokens.len() {
            tokens[symbol.name_token].location
        } else {
            SourceLocation { line: 0, col: 0 }
        }
    }

    /// The places where the entry with index `symbol` is used as an
    /// operand, in source order.
    pub fn reference_locations(&self, symbol: usize) -> (list: Vec<SourceLocation>)
        ensures
            list@ == locations_of(self.references@, symbol, self.references@.len() as int),
    {
        let mut list: Vec<SourceLocation> = Vec::new();
        let mut k: usize = 0;
        while k < self.references.len()
            invariant
                k <= self.references.len(),
                list@ == locations_of(self.references@, symbol, k as int),
            decreases self.references.len() - k,
        {
            if self.references[k].symbol == symbol {
                list.push(self.references[k].location);
            }
            k += 1;
        }
        list
    }
}

} // verus!
