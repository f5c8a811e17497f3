//! The pipeline: tokenize, parse, check that every symbol is defined, lay
//! out memory, generate code.

use vstd::prelude::*;
use vstd::string::*;
use crate::codegen::{code, generate_machine_code};
use crate::error::{diagnostic_views, AssemblerError, Diagnostic, DiagnosticView, ErrorKind};
use crate::layout::{
    address_of,
    allocate_memory,
    check_for_unresolved,
    first_overflow,
    item_location,
    lemma_unresolved_complete,
    patch_all,
    resolve_symbols,
    unresolved,
};
use crate::parser::{
    location_of,
    parse,
    parse_all,
    text_at,
    Fault,
    FaultKind,
    ParsedItem,
    Program,
    Symbol,
};
use crate::tokenizer::{lex, lex_diagnostic, token_views, tokenize, Token, TokenView};

verus! {

/// Supported instructions:
/// LUI rd, imm #imm 0x00000 to 0xFFFFF
/// ADDI rd, rs1, imm #imm -0x800 to +0x7FF
/// ADD rd, rs1, rs2
/// SUB rd, rs1, rs2
/// Supported pseudoinstructions:
/// INC rd -> ADDI rd, rd, 1
/// DEC rd -> ADDI rd, rd, -1
/// MV rd, rs1 -> ADDI rd, rs1, 0
/// NOP -> ADDI x0, x0, 0
/// NEG rd -> SUB rd, x0, rd
/// LI rd, imm -> ADDI rd, x0, imm where imm fits 12 bits, else LUI and ADDI
pub struct Assembler {
    pub bytes: Vec<u8>,
}

/// The message that reports a fault of the given kind.
pub open spec fn fault_message(kind: FaultKind) -> Seq<char> {
    match kind {
        FaultKind::DuplicateLabel => "label is already defined"@,
        FaultKind::ExpectedStatement => "expected an instruction or a directive"@,
        FaultKind::UnknownDirective => "unknown directive"@,
        FaultKind::UnsupportedInstruction => "unsupported instruction"@,
        FaultKind::ExpectedRegister => "expected a register"@,
        FaultKind::ExpectedComma => "expected ','"@,
        FaultKind::ExpectedImmediate => "expected a number or a symbol"@,
        FaultKind::ExpectedNumber => "expected a number"@,
        FaultKind::ExpectedLineEnd => "expected end of line"@,
        FaultKind::ImmediateOutOfRange => "immediate out of range"@,
        FaultKind::AddressOverflow => "address space exhausted"@,
        FaultKind::ValueOutOfRange => "value does not fit its field"@,
    }
}

/// The diagnostic that reports `fault` as an error of `kind`.
pub open spec fn fault_diagnostic(kind: ErrorKind, fault: Fault) -> DiagnosticView {
    DiagnosticView { kind, message: fault_message(fault.kind), location: fault.location }
}

/// The diagnostics of the faults of parsing, in order.
pub open spec fn parser_diagnostics(faults: Seq<Fault>) -> Seq<DiagnosticView> {
    Seq::new(faults.len(), |i: int| fault_diagnostic(ErrorKind::Parser, faults[i]))
}

/// The diagnostic of a symbol that is used and never defined: it names
/// the symbol, at the place of its first use.
pub open spec fn undefined_diagnostic(toks: Seq<TokenView>, symbol: Symbol) -> DiagnosticView {
    DiagnosticView {
        kind: ErrorKind::Symbol,
        message: "Undefined symbol: "@ + text_at(toks, symbol.name_token as int),
        location: location_of(toks, symbol.name_token as int),
    }
}

/// The diagnostics of the listed entries of the symbol table, in order.
pub open spec fn symbol_diagnostics(toks: Seq<TokenView>, symbols: Seq<Symbol>, list: Seq<int>)
    -> Seq<DiagnosticView> {
    Seq::new(list.len(), |i: int| undefined_diagnostic(toks, symbols[list[i]]))
}

/// What a token sequence assembles to.
pub open spec fn assemble_tokens(toks: Seq<TokenView>) -> Result<Seq<u8>, Seq<DiagnosticView>> {
    let program = parse(toks);
    let missing = unresolved(program.symbols);
    let overflow = first_overflow(program.items, 0);
    if program.faults.len() > 0 {
        Err(parser_diagnostics(program.faults))
    } else if missing.len() > 0 {
        Err(symbol_diagnostics(toks, program.symbols, missing))
    } else if overflow < program.items.len() {
        Err(
            seq![
                fault_diagnostic(
                    ErrorKind::Fatal,
                    Fault {
                        kind: FaultKind::AddressOverflow,
                        location: item_location(program.items[overflow]),
                    },
                ),
            ],
        )
    } else {
        match code(layout_symbols(program.symbols, program.items), program.items) {
            Ok(bytes) => Ok(bytes),
            Err(fault) => Err(seq![fault_diagnostic(ErrorKind::Fatal, fault)]),
        }
    }
}

/// The addresses of `items`, in order.
pub open spec fn addresses(items: Seq<ParsedItem>) -> Seq<u32> {
    Seq::new(items.len(), |k: int| address_of(items, k) as u32)
}

/// The symbol table with every defined label at the address of its item.
pub open spec fn layout_symbols(symbols: Seq<Symbol>, items: Seq<ParsedItem>) -> Seq<Symbol> {
    patch_all(symbols, addresses(items), address_of(items, items.len() as int) as u32)
}

/// What a source text assembles to: its machine code, or the errors that
/// the first failing stage reports.
pub open spec fn assemble_spec(source: Seq<char>) -> Result<Seq<u8>, Seq<DiagnosticView>> {
    match lex(source) {
        Ok(toks) => assemble_tokens(toks),
        Err(e) => Err(seq![lex_diagnostic(source, e)]),
    }
}

fn message_of(kind: FaultKind) -> (message: String)
    ensures
        message@ == fault_message(kind),
{
    match kind {
        FaultKind::DuplicateLabel => String::from_str("label is already defined"),
        FaultKind::ExpectedStatement => String::from_str("expected an instruction or a directive"),
        FaultKind::UnknownDirective => String::from_str("unknown directive"),
        FaultKind::UnsupportedInstruction => String::from_str("unsupported instruction"),
        FaultKind::ExpectedRegister => String::from_str("expected a register"),
        FaultKind::ExpectedComma => String::from_str("expected ','"),
        FaultKind::ExpectedImmediate => String::from_str("expected a number or a symbol"),
        FaultKind::ExpectedNumber => String::from_str("expected a number"),
        FaultKind::ExpectedLineEnd => String::from_str("expected end of line"),
        FaultKind::ImmediateOutOfRange => String::from_str("immediate out of range"),
        FaultKind::AddressOverflow => String::from_str("address space exhausted"),
        FaultKind::ValueOutOfRange => String::from_str("value does not fit its field"),
    }
}

/// The diagnostic that reports `fault` as an error of `kind`.
pub fn diagnose(kind: ErrorKind, fault: Fault) -> (d: Diagnostic)
    ensures
        d@ == fault_diagnostic(kind, fault),
{
    Diagnostic { kind, message: message_of(fault.kind), location: fault.location }
}

fn diagnose_faults(faults: &Vec<Fault>) -> (list: Vec<Diagnostic>)
    ensures
        diagnostic_views(list@) == parser_diagnostics(faults@),
        list@.len() == faults@.len(),
{
    let mut list: Vec<Diagnostic> = Vec::new();
    let mut k: usize = 0;
    while k < faults.len()
        invariant
            k <= faults.len(),
            list@.len() == k,
            forall|i: int|
                0 <= i < k ==> list@[i]@ == fault_diagnostic(ErrorKind::Parser, faults@[i]),
        decreases faults.len() - k,
    {
        list.push(diagnose(ErrorKind::Parser, faults[k]));
        k += 1;
    }
    proof {
        assert(diagnostic_views(list@) =~= parser_diagnostics(faults@));
    }
    list
}

fn diagnose_symbols(
    tokens: &Vec<Token>,
    symbols: &Vec<Symbol>,
    missing: &Vec<usize>,
    Ghost(indices): Ghost<Seq<int>>,
) -> (list: Vec<Diagnostic>)
    requires
        missing@.len() == indices.len(),
        forall|i: int| 0 <= i < missing@.len() ==> missing@[i] == indices[i],
        forall|i: int| 0 <= i < missing@.len() ==> missing@[i] < symbols.len(),
    ensures
        diagnostic_views(list@) == symbol_diagnostics(token_views(tokens@), symbols@, indices),
        list@.len() == missing@.len(),
{
    let mut list: Vec<Diagnostic> = Vec::new();
    let mut k: usize = 0;
    while k < missing.len()
        invariant
            k <= missing.len(),
            list@.len() == k,
            missing@.len() == indices.len(),
            forall|i: int| 0 <= i < missing@.len() ==> missing@[i] == indices[i],
            forall|i: int| 0 <= i < missing@.len() ==> missing@[i] < symbols.len(),
            forall|i: int|
                0 <= i < k ==> list@[i]@ == undefined_diagnostic(
                    token_views(tokens@),
                    symbols@[missing@[i] as int],
                ),
        decreases missing.len() - k,
    {
        let symbol = &symbols[missing[k]];
        list.push(
            Diagnostic {
                kind: ErrorKind::Symbol,
                message: String::from_str("Undefined symbol: ").concat(
                    Program::symbol_name(tokens, symbol),
                ),
                location: Program::symbol_location(tokens, symbol),
            },
        );
        k += 1;
    }
    proof {
        assert(diagnostic_views(list@) =~= symbol_diagnostics(
            token_views(tokens@),
            symbols@,
            indices,
        ));
    }
    list
}

/// Assembles a token sequence: parses it, checks that every symbol that
/// is used is defined, lays out memory and generates the code. The errors
/// of the first failing stage are reported together, in source order.
pub fn assemble_from_tokens(tokens: &Vec<Token>) -> (result: Result<Vec<u8>, AssemblerError>)
    ensures
        match result {
            Ok(bytes) => assemble_tokens(token_views(tokens@)) == Ok::<
                Seq<u8>,
                Seq<DiagnosticView>,
            >(bytes@),
            Err(e) => e.wf() && assemble_tokens(token_views(tokens@)) == Err::<
                Seq<u8>,
                Seq<DiagnosticView>,
            >(e@),
        },
{
    let program = parse_all(tokens);
    if program.faults.len() > 0 {
        return Err(AssemblerError::from_diagnostics(diagnose_faults(&program.faults)));
    }
    let missing = check_for_unresolved(&program.symbols);
    if missing.len() > 0 {
        return Err(
            AssemblerError::from_diagnostics(
                diagnose_symbols(
                    tokens,
                    &program.symbols,
                    &missing,
                    Ghost(unresolved(program.symbols@)),
                ),
            ),
        );
    }
    let items = program.items;
    let mut symbols = program.symbols;
    match allocate_memory(&items) {
        Err(fault) => Err(AssemblerError::Single(diagnose(ErrorKind::Fatal, fault))),
        Ok(memory_map) => {
            resolve_symbols(&mut symbols, &memory_map);
            proof {
                assert(memory_map.addresses@ =~= addresses(items@));
            }
            match generate_machine_code(&symbols, &items) {
                Ok(output) => Ok(output),
                Err(fault) => Err(AssemblerError::Single(diagnose(ErrorKind::Fatal, fault))),
            }
        },
    }
}

/// Assembles source text into machine code: the words of all
/// instructions in program order, little-endian.
pub fn assemble(source: &str) -> (result: Result<Vec<u8>, AssemblerError>)
    requires
        source@.len() < u64::MAX,
    ensures
        match result {
            Ok(bytes) => assemble_spec(source@) == Ok::<Seq<u8>, Seq<DiagnosticView>>(bytes@),
            Err(e) => e.wf() && assemble_spec(source@) == Err::<Seq<u8>, Seq<DiagnosticView>>(e@),
        },
{
    match tokenize(source) {
        Ok(tokens) => assemble_from_tokens(&tokens),
        Err(e) => Err(e),
    }
}


/// A symbol that is used and never defined fails the assembly of a text
/// that tokenizes and parses without fault: every error reported is a
/// symbol error, and one of them names the symbol at the place of its
/// first use.
pub proof fn lemma_undefined_symbol_fails(source: Seq<char>, k: int)
    requires
        lex(source) is Ok,
        parse(lex(source)->Ok_0).faults.len() == 0,
        0 <= k < parse(lex(source)->Ok_0).symbols.len(),
        parse(lex(source)->Ok_0).symbols[k].definition_location is None,
    ensures
        assemble_spec(source) is Err,
        forall|i: int|
            0 <= i < assemble_spec(source)->Err_0.len() ==> (
            #[trigger] assemble_spec(source)->Err_0[i]).kind == ErrorKind::Symbol,
        exists|i: int|
            0 <= i < assemble_spec(source)->Err_0.len() && assemble_spec(source)->Err_0[i]
                == undefined_diagnostic(
                lex(source)->Ok_0,
                parse(lex(source)->Ok_0).symbols[k],
            ),
{
    let toks = lex(source)->Ok_0;
    let symbols = parse(toks).symbols;
    let missing = unresolved(symbols);
    lemma_unresolved_complete(symbols, symbols.len() as int);
    assert(missing.contains(k));
    let i = choose|i: int| 0 <= i < missing.len() && missing[i] == k;
    let list = symbol_diagnostics(toks, symbols, missing);
    assert(assemble_spec(source) == Err::<Seq<u8>, Seq<DiagnosticView>>(list));
    assert(list[i] == undefined_diagnostic(toks, symbols[k]));
}

/// Where every symbol has a definition, the assembly of a text that
/// tokenizes and parses without fault reports no symbol error, and
/// succeeds unless the code leaves the address space or a value does not
/// fit its field.
pub proof fn lemma_defined_symbols_resolve(source: Seq<char>)
    requires
        lex(source) is Ok,
        parse(lex(source)->Ok_0).faults.len() == 0,
        forall|k: int|
            0 <= k < parse(lex(source)->Ok_0).symbols.len() ==> (#[trigger] parse(
                lex(source)->Ok_0,
            ).symbols[k]).definition_location is Some,
    ensures
        unresolved(parse(lex(source)->Ok_0).symbols).len() == 0,
        assemble_spec(source) matches Err(list) ==> list.len() == 1 && list[0].kind
            == ErrorKind::Fatal,
        ({
            let program = parse(lex(source)->Ok_0);
            first_overflow(program.items, 0) == program.items.len() && code(
                layout_symbols(program.symbols, program.items),
                program.items,
            ) is Ok ==> assemble_spec(source) is Ok
        }),
{
    let symbols = parse(lex(source)->Ok_0).symbols;
    lemma_unresolved_complete(symbols, symbols.len() as int);
    let missing = unresolved(symbols);
    if missing.len() > 0 {
        assert(symbols[missing[0]].definition_location is None);
    }
    crate::layout::lemma_first_overflow_bounds(parse(lex(source)->Ok_0).items, 0);
}

} // verus!
