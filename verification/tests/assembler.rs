use riscv_asm::assembler::{assemble, assemble_from_tokens};
use riscv_asm::codegen::{encode, generate_machine_code};
use riscv_asm::encode::{encode_i, encode_r, encode_u, push_word, Opcode};
use riscv_asm::error::{AssemblerError, Diagnostic, ErrorKind, SourceLocation};
use riscv_asm::layout::{allocate_memory, check_for_unresolved, resolve_symbols};
use riscv_asm::numeral::parse_numeral;
use riscv_asm::parser::{
    parse_all, FaultKind, Immediate, Instruction, ParsedItem, Program, SymbolKind,
};
use riscv_asm::tokenizer::{tokenize, Base};

fn words(source: &str) -> Vec<u32> {
    let bytes = assemble(source).unwrap();
    assert_eq!(bytes.len() % 4, 0);
    bytes
        .chunks(4)
        .map(|b| u32::from_le_bytes([b[0], b[1], b[2], b[3]]))
        .collect()
}

fn errors(source: &str) -> Vec<Diagnostic> {
    match assemble(source).unwrap_err() {
        AssemblerError::Single(d) => vec![d],
        AssemblerError::MultipleErrors(list) => {
            assert!(list.len() >= 2);
            list
        }
    }
}

fn parsed(source: &str) -> Program {
    parse_all(&tokenize(source).unwrap())
}

fn instruction(item: &ParsedItem) -> Instruction {
    match item {
        ParsedItem::Instruction(ins) => *ins,
        ParsedItem::Word { .. } => panic!("expected an instruction"),
    }
}

#[test]
fn addi_encoding() {
    let w = words("addi x1, x0, 5");
    assert_eq!(w, vec![0x00500093]);
    assert_eq!(w[0] & 0x7f, 0b0010011);
    assert_eq!((w[0] >> 7) & 0x1f, 1);
    assert_eq!((w[0] >> 12) & 0x7, 0);
    assert_eq!((w[0] >> 15) & 0x1f, 0);
    assert_eq!(w[0] >> 20, 5);
    assert_eq!(assemble("addi x1, x0, 5").unwrap(), vec![0x93, 0x00, 0x50, 0x00]);
}

#[test]
fn add_and_sub_encoding() {
    let add = words("add x3, x1, x2")[0];
    let sub = words("sub x3, x1, x2")[0];
    assert_eq!(add, 0x002081B3);
    assert_eq!(sub, 0x402081B3);
    assert_eq!(add & 0x7f, 0b0110011);
    assert_eq!(add >> 25, 0);
    assert_eq!((add >> 12) & 0x7, 0);
    assert_eq!(sub >> 25, 0x20);
    assert_eq!(add ^ sub, 0x20 << 25);
}

#[test]
fn lui_encoding() {
    let w = words("lui x5, 0x12345")[0];
    assert_eq!(w, 0x123452B7);
    assert_eq!(w & 0xFFF, (5 << 7) | 0b0110111);
    assert_eq!(words("lui t0, 0xFFFFF")[0], 0xFFFFF2B7);
    assert_eq!(words("lui zero, 0")[0], 0x00000037);
}

#[test]
fn encoders_place_every_field() {
    assert_eq!(encode_i(31, 31, -1), 0xFFFF8F93);
    assert_eq!(encode_i(0, 0, -0x800), 0x80000013);
    assert_eq!(encode_i(0, 0, 0x7FF), 0x7FF00013);
    assert_eq!(encode_u(31, 0xFFFFF), 0xFFFFFFB7);
    assert_eq!(encode_r(0x20, 31, 31, 31), 0x41FF8FB3);
    assert_eq!(encode_r(0, 0, 0, 0), 0x00000033);
    let mut buffer = vec![1u8];
    push_word(&mut buffer, 0x12345678);
    assert_eq!(buffer, vec![1, 0x78, 0x56, 0x34, 0x12]);
}

#[test]
fn pseudo_instructions_expand_to_native_ones() {
    assert_eq!(words("mv x3, x4"), words("addi x3, x4, 0"));
    assert_eq!(words("mv x3, x4"), vec![0x00020193]);
    assert_eq!(words("nop"), words("addi x0, x0, 0"));
    assert_eq!(words("nop"), vec![0x00000013]);
    assert_eq!(words("inc x5"), words("addi x5, x5, 1"));
    assert_eq!(words("inc x5"), vec![0x00128293]);
    assert_eq!(words("dec x5"), words("addi x5, x5, -1"));
    assert_eq!(words("dec x5"), vec![0xFFF28293]);
    assert_eq!(words("neg x5"), words("sub x5, x0, x5"));
    assert_eq!(words("neg x5"), vec![0x405002B3]);
}

#[test]
fn expansion_happens_while_parsing() {
    let program = parsed("mv a0, a1\nneg t0\n");
    assert_eq!(program.items.len(), 2);
    let mv = instruction(&program.items[0]);
    assert_eq!(mv.op, Opcode::Addi);
    assert_eq!((mv.rd, mv.rs1, mv.imm), (10, 11, Immediate::Value(0)));
    assert_eq!(mv.location, SourceLocation { line: 1, col: 1 });
    let neg = instruction(&program.items[1]);
    assert_eq!(neg.op, Opcode::Sub);
    assert_eq!((neg.rd, neg.rs1, neg.rs2), (5, 0, 5));
    assert_eq!(neg.location, SourceLocation { line: 2, col: 1 });
    assert!(program.faults.is_empty());
}

#[test]
fn li_is_one_instruction_where_the_immediate_fits() {
    assert_eq!(words("li x1, 5"), vec![0x00500093]);
    assert_eq!(words("li x1, 2047"), words("addi x1, x0, 2047"));
    assert_eq!(words("li x1, -2048"), words("addi x1, x0, -2048"));
}

#[test]
fn li_is_lui_and_addi_otherwise() {
    assert_eq!(words("li x1, 0x12345678"), vec![0x123450B7, 0x67808093]);
    assert_eq!(words("li x1, 0xFFF"), vec![0x000010B7, 0xFFF08093]);
    assert_eq!(words("li x1, 2048"), vec![0x000010B7, 0x80008093]);
    assert_eq!(words("li x1, -2049"), vec![0xFFFFF0B7, 0x7FF08093]);
    assert_eq!(words("li x1, 0xFFFFFFFF"), vec![0x000000B7, 0xFFF08093]);
    assert_eq!(words("li x1, -0x80000000"), vec![0x800000B7, 0x00008093]);
}

#[test]
fn addi_immediate_range_is_enforced() {
    assert_eq!(words("addi x1, x0, 0x7FF"), vec![0x7FF00093]);
    assert_eq!(words("addi x1, x0, -0x800"), vec![0x80000093]);
    let e = errors("addi x1, x0, 0x800");
    assert_eq!(e.len(), 1);
    assert_eq!(e[0].kind, ErrorKind::Parser);
    assert_eq!(e[0].message, "immediate out of range");
    assert_eq!(e[0].location, SourceLocation { line: 1, col: 14 });
    let e = errors("addi x1, x0, -2049");
    assert_eq!(e[0].kind, ErrorKind::Parser);
    assert_eq!(e[0].location, SourceLocation { line: 1, col: 14 });
}

#[test]
fn lui_immediate_range_is_enforced() {
    let e = errors("\nlui x1, 0x100000");
    assert_eq!(e.len(), 1);
    assert_eq!(e[0].kind, ErrorKind::Parser);
    assert_eq!(e[0].message, "immediate out of range");
    assert_eq!(e[0].location, SourceLocation { line: 2, col: 9 });
    assert_eq!(errors("lui x1, -1")[0].message, "immediate out of range");
    assert_eq!(errors("li x1, 0x100000000")[0].message, "immediate out of range");
    assert_eq!(
        errors("li x1, 99999999999999999999999999")[0].message,
        "immediate out of range"
    );
}

#[test]
fn undefined_symbol_is_reported_by_name_and_place() {
    let e = errors("nop\naddi x1, x0, missing\n");
    assert_eq!(e.len(), 1);
    assert_eq!(e[0].kind, ErrorKind::Symbol);
    assert_eq!(e[0].message, "Undefined symbol: missing");
    assert_eq!(e[0].location, SourceLocation { line: 2, col: 14 });
}

#[test]
fn undefined_symbols_are_reported_together() {
    let error = assemble("addi x1, x0, one\nlui x2, two\naddi x3, x0, one\n").unwrap_err();
    assert_eq!(error.len(), 2);
    match error {
        AssemblerError::MultipleErrors(list) => {
            assert_eq!(list[0].kind, ErrorKind::Symbol);
            assert_eq!(list[0].message, "Undefined symbol: one");
            assert_eq!(list[0].location.line, 1);
            assert_eq!(list[1].message, "Undefined symbol: two");
            assert_eq!(list[1].location.line, 2);
        }
        AssemblerError::Single(_) => panic!("expected an aggregate"),
    }
}

#[test]
fn labels_resolve_to_addresses() {
    let source = "start:\n  nop\nmiddle: addi x1, x0, middle\n  addi x2, x0, start\n";
    assert_eq!(words(source), vec![0x00000013, 0x00400093, 0x00000113]);
}

#[test]
fn forward_references_resolve() {
    let source = "addi x1, x0, later\nnop\nlater:\n";
    assert_eq!(words(source), vec![0x00800093, 0x00000013]);
    let source = "lui x1, later\nnop\nlater: nop\n";
    assert_eq!(words(source), vec![0x000080B7, 0x00000013, 0x00000013]);
}

#[test]
fn symbol_table_records_definitions_and_uses() {
    let tokens = tokenize("addi x1, x0, end\nend:\naddi x2, x0, end\n").unwrap();
    let mut program = parse_all(&tokens);
    assert_eq!(program.symbols.len(), 1);
    assert_eq!(program.symbols[0].kind, SymbolKind::Label);
    assert_eq!(program.symbols[0].name_token, 5);
    assert_eq!(program.symbols[0].value, None);
    assert_eq!(
        program.symbols[0].definition_location,
        Some(SourceLocation { line: 2, col: 1 })
    );
    assert_eq!(program.symbols[0].item, 1);
    assert_eq!(program.references.len(), 2);
    assert_eq!(program.references[0].location, SourceLocation { line: 1, col: 14 });
    assert_eq!(program.references[1].location, SourceLocation { line: 3, col: 14 });
    assert_eq!(Program::symbol_name(&tokens, &program.symbols[0]), "end");
    assert_eq!(
        program.reference_locations(0),
        vec![SourceLocation { line: 1, col: 14 }, SourceLocation { line: 3, col: 14 }]
    );
    assert_eq!(program.reference_locations(1), Vec::<SourceLocation>::new());
    assert!(check_for_unresolved(&program.symbols).is_empty());
    let map = allocate_memory(&program.items).unwrap();
    resolve_symbols(&mut program.symbols, &map);
    assert_eq!(program.symbols[0].value, Some(4));
    let code = generate_machine_code(&program.symbols, &program.items).unwrap();
    assert_eq!(code.len(), 8);
}

#[test]
fn unresolved_entries_are_listed_in_order() {
    let program = parsed("addi x1, x0, a\nb:\nlui x1, c\n");
    assert_eq!(check_for_unresolved(&program.symbols), vec![0, 2]);
    assert_eq!(program.symbols[0].kind, SymbolKind::Constant);
    assert_eq!(program.symbols[0].definition_location, None);
}

#[test]
fn duplicate_label_is_an_error() {
    let e = errors("here: nop\nhere: nop\n");
    assert_eq!(e.len(), 1);
    assert_eq!(e[0].kind, ErrorKind::Parser);
    assert_eq!(e[0].message, "label is already defined");
    assert_eq!(e[0].location, SourceLocation { line: 2, col: 1 });
}

#[test]
fn label_value_that_does_not_fit_is_fatal() {
    let mut source = String::from("addi x1, x0, far\n");
    for _ in 0..512 {
        source.push_str("nop\n");
    }
    source.push_str("far:\n");
    let e = errors(&source);
    assert_eq!(e.len(), 1);
    assert_eq!(e[0].kind, ErrorKind::Fatal);
    assert_eq!(e[0].message, "value does not fit its field");
    assert_eq!(e[0].location, SourceLocation { line: 1, col: 14 });
}

#[test]
fn parser_errors_are_accumulated_per_statement() {
    let error = assemble("add x1, 5, x2\nnop\nxor x1, x2, x3\naddi x1 x2, 3\n").unwrap_err();
    match error {
        AssemblerError::MultipleErrors(list) => {
            assert_eq!(list.len(), 3);
            assert_eq!(list[0].kind, ErrorKind::Parser);
            assert_eq!(list[0].message, "expected a register");
            assert_eq!(list[0].location, SourceLocation { line: 1, col: 9 });
            assert_eq!(list[1].message, "unsupported instruction");
            assert_eq!(list[1].location, SourceLocation { line: 3, col: 1 });
            assert_eq!(list[2].message, "expected ','");
            assert_eq!(list[2].location, SourceLocation { line: 4, col: 9 });
        }
        AssemblerError::Single(_) => panic!("expected an aggregate"),
    }
}

#[test]
fn statement_shapes_are_checked() {
    assert_eq!(errors("nop x1")[0].message, "expected end of line");
    assert_eq!(errors("add x1, x2")[0].message, "expected ','");
    assert_eq!(errors("add x1, x2,")[0].message, "expected a register");
    assert_eq!(errors("add x1, x2, loop")[0].message, "expected a register");
    assert_eq!(errors("addi x1, x2, x3")[0].message, "expected a number or a symbol");
    assert_eq!(errors("li x1, name\nname:")[0].message, "expected a number");
    assert_eq!(errors(", nop")[0].message, "expected an instruction or a directive");
    assert_eq!(errors(".bogus")[0].message, "unknown directive");
    assert_eq!(errors(".word")[0].message, "expected a number");
    assert_eq!(errors(".word 0x100000000")[0].message, "immediate out of range");
    assert_eq!(errors(".word 1 2")[0].message, "expected end of line");
}

#[test]
fn faults_carry_their_kind() {
    let program = parsed("inc 5\n");
    assert_eq!(program.faults.len(), 1);
    assert_eq!(program.faults[0].kind, FaultKind::ExpectedRegister);
    assert_eq!(program.faults[0].location, SourceLocation { line: 1, col: 5 });
    assert!(program.items.is_empty());
}

#[test]
fn tokenizer_error_ends_the_run() {
    let e = errors("add x1, 5, x2\naddi x1, x0, @\n");
    assert_eq!(e.len(), 1);
    assert_eq!(e[0].kind, ErrorKind::Tokenizer);
    assert_eq!(e[0].location, SourceLocation { line: 2, col: 14 });
}

#[test]
fn word_directive_emits_a_little_endian_word() {
    assert_eq!(assemble(".word 0x12345678").unwrap(), vec![0x78, 0x56, 0x34, 0x12]);
    assert_eq!(assemble(".word -1").unwrap(), vec![0xFF, 0xFF, 0xFF, 0xFF]);
    assert_eq!(words(".data\nvalue: .word 7\n.text\n.global main\nmain: addi x1, x0, value\n"),
        vec![7, 0x00000093]);
}

#[test]
fn empty_source_assembles_to_nothing() {
    assert_eq!(assemble("").unwrap(), Vec::<u8>::new());
    assert_eq!(assemble("# nothing\n\n").unwrap(), Vec::<u8>::new());
}

#[test]
fn addresses_advance_by_four() {
    let program = parsed("nop\nli x1, 0x12345\n.word 1\nadd x1, x2, x3\n");
    let map = allocate_memory(&program.items).unwrap();
    assert_eq!(map.addresses, vec![0, 4, 8, 12, 16]);
    assert_eq!(map.cursor, 20);
    for k in 1..map.addresses.len() {
        assert!(map.addresses[k - 1] <= map.addresses[k]);
        assert_eq!(map.addresses[k] - map.addresses[k - 1], 4);
    }
}

#[test]
fn numerals_have_their_value() {
    assert_eq!(parse_numeral("0", Base::Dec), Some(0));
    assert_eq!(parse_numeral("-12", Base::Dec), Some(-12));
    assert_eq!(parse_numeral("007", Base::Dec), Some(7));
    assert_eq!(parse_numeral("0xFf", Base::Hex), Some(255));
    assert_eq!(parse_numeral("-0x10", Base::Hex), Some(-16));
    assert_eq!(parse_numeral("4294967296", Base::Dec), Some(4294967296));
    assert_eq!(parse_numeral("4294967297", Base::Dec), None);
    assert_eq!(parse_numeral("-0x100000001", Base::Hex), None);
}

#[test]
fn encode_rejects_fields_that_do_not_fit() {
    let at = SourceLocation { line: 3, col: 1 };
    let operand = SourceLocation { line: 3, col: 9 };
    let item = ParsedItem::Instruction(Instruction {
        op: Opcode::Addi,
        rd: 1,
        rs1: 0,
        rs2: 0,
        imm: Immediate::Value(4096),
        location: at,
        operand_location: operand,
    });
    let fault = encode(&Vec::new(), item).unwrap_err();
    assert_eq!(fault.kind, FaultKind::ValueOutOfRange);
    assert_eq!(fault.location, operand);
    let word = ParsedItem::Word { value: 9, location: at };
    assert_eq!(encode(&Vec::new(), word), Ok(9));
}

#[test]
fn assembling_tokens_matches_assembling_text() {
    let source = "a: li t0, 74565\nsub t1, t0, t0\n";
    let tokens = tokenize(source).unwrap();
    assert_eq!(assemble_from_tokens(&tokens).unwrap(), assemble(source).unwrap());
}

#[test]
fn a_lone_diagnostic_is_surfaced_directly() {
    let d = Diagnostic {
        kind: ErrorKind::Parser,
        message: "m".to_string(),
        location: SourceLocation { line: 1, col: 1 },
    };
    match AssemblerError::from_diagnostics(vec![d.clone()]) {
        AssemblerError::Single(only) => assert_eq!(only.message, "m"),
        AssemblerError::MultipleErrors(_) => panic!("expected a single error"),
    }
    match AssemblerError::from_diagnostics(vec![d.clone(), d]) {
        AssemblerError::MultipleErrors(list) => assert_eq!(list.len(), 2),
        AssemblerError::Single(_) => panic!("expected an aggregate"),
    }
}
