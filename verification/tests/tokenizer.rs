use riscv_asm::error::{AssemblerError, ErrorKind, SourceLocation};
use riscv_asm::names::classify_identifier;
use riscv_asm::tokenizer::{tokenize, Base, Token, TokenKind};

fn kinds(tokens: &[Token]) -> Vec<TokenKind> {
    tokens.iter().map(|t| t.kind).collect()
}

fn single(error: AssemblerError) -> (ErrorKind, String, SourceLocation) {
    match error {
        AssemblerError::Single(d) => (d.kind, d.message, d.location),
        AssemblerError::MultipleErrors(_) => panic!("expected a single error"),
    }
}

#[test]
fn test_simple_instruction() {
    let code = "loop: addi x1, x0, 5 # comment\n";
    let tokens = tokenize(code).unwrap();
    assert_eq!(tokens.len(), 10);
    assert_eq!(tokens[0].kind, TokenKind::Identifier);
    assert_eq!(tokens[0].text, Some("loop".to_string()));
    assert_eq!(tokens[1].kind, TokenKind::Colon);
    assert_eq!(tokens[2].kind, TokenKind::Instruction);
    assert_eq!(tokens[2].text, Some("addi".to_string()));
    assert_eq!(tokens[3].kind, TokenKind::Register);
    assert_eq!(tokens[3].text, Some("x1".to_string()));
    assert_eq!(tokens[4].kind, TokenKind::Comma);
    assert_eq!(tokens[5].kind, TokenKind::Register);
    assert_eq!(tokens[5].text, Some("x0".to_string()));
    assert_eq!(tokens[6].kind, TokenKind::Comma);
    assert_eq!(tokens[7].kind, TokenKind::Number(Base::Dec));
    assert_eq!(tokens[7].text, Some("5".to_string()));
    assert_eq!(tokens[8].kind, TokenKind::Newline);
    assert_eq!(tokens[9].kind, TokenKind::EndOfFile);
}

#[test]
fn test_hex_number() {
    let code = "li a0, 0xFF";
    let tokens = tokenize(code).unwrap();
    assert!(
        tokens
            .iter()
            .any(|t| t.kind == TokenKind::Number(Base::Hex)
                && t.text == Some("0xFF".to_string()))
    );
}

#[test]
fn test_simple_instruction_1() {
    let code = "lb a0, 8(sp)";
    let tokens = tokenize(code).unwrap();

    assert_eq!(tokens[0].kind, TokenKind::Instruction);
    assert_eq!(tokens[0].text, Some("lb".to_string()));

    assert_eq!(tokens[1].kind, TokenKind::Register);
    assert_eq!(tokens[1].text, Some("a0".to_string()));

    assert_eq!(tokens[2].kind, TokenKind::Comma);
    assert_eq!(tokens[2].text, Some(",".to_string()));

    assert_eq!(tokens[3].kind, TokenKind::Number(Base::Dec));
    assert_eq!(tokens[3].text, Some("8".to_string()));

    assert_eq!(tokens[4].kind, TokenKind::LParen);
    assert_eq!(tokens[4].text, Some("(".to_string()));

    assert_eq!(tokens[5].kind, TokenKind::Register);
    assert_eq!(tokens[5].text, Some("sp".to_string()));

    assert_eq!(tokens[6].kind, TokenKind::RParen);
    assert_eq!(tokens[6].text, Some(")".to_string()));

    assert_eq!(tokens[7].kind, TokenKind::EndOfFile);
    assert_eq!(tokens[7].text, Some("".to_string()));

    assert_eq!(tokens.len(), 8);
}

#[test]
fn test_directive() {
    let code = ".data\nmy_var: .word 123";
    let tokens = tokenize(code).unwrap();
    assert!(
        tokens
            .iter()
            .any(|t| t.kind == TokenKind::Directive && t.text == Some(".data".to_string()))
    );
    assert!(
        tokens
            .iter()
            .any(|t| t.kind == TokenKind::Directive && t.text == Some(".word".to_string()))
    );
}

#[test]
fn test_comment_stripping() {
    let code = " add x1, x2, x3 # This should be ignored";
    let tokens = tokenize(code).unwrap();
    assert!(!tokens.iter().any(|t| t.kind == TokenKind::Comment));
    assert!(
        tokens
            .iter()
            .any(|t| t.kind == TokenKind::Instruction && t.text == Some("add".to_string()))
    );
    assert_eq!(tokens.last().unwrap().kind, TokenKind::EndOfFile);
}

#[test]
fn test_location() {
    let code = "line1\n line2: lw x1, 0(sp)";
    let tokens = tokenize(code).unwrap();
    let lw_token = tokens
        .iter()
        .find(|t| t.text == Some("lw".to_string()))
        .unwrap();
    assert_eq!(lw_token.location.line, 2);
    assert!(lw_token.location.col > 1);
    let sp_token = tokens
        .iter()
        .find(|t| t.text == Some("sp".to_string()))
        .unwrap();
    assert_eq!(sp_token.location.line, 2);
}

#[test]
fn empty_source_is_one_end_of_file() {
    let tokens = tokenize("").unwrap();
    assert_eq!(kinds(&tokens), vec![TokenKind::EndOfFile]);
    assert_eq!(tokens[0].location, SourceLocation { line: 1, col: 1 });
}

#[test]
fn every_line_break_gives_one_newline() {
    let tokens = tokenize("\n  # only a comment\n\t\r\nnop\n").unwrap();
    assert_eq!(
        kinds(&tokens),
        vec![
            TokenKind::Newline,
            TokenKind::Newline,
            TokenKind::Newline,
            TokenKind::Pseudoinstruction,
            TokenKind::Newline,
            TokenKind::EndOfFile,
        ]
    );
    assert_eq!(tokens[0].text, None);
    assert_eq!(tokens[0].location, SourceLocation { line: 1, col: 1 });
    assert_eq!(tokens[1].location, SourceLocation { line: 2, col: 19 });
    assert_eq!(tokens[2].location, SourceLocation { line: 3, col: 3 });
    assert_eq!(tokens[3].location, SourceLocation { line: 4, col: 1 });
    assert_eq!(tokens[4].location, SourceLocation { line: 4, col: 4 });
    assert_eq!(tokens[5].location, SourceLocation { line: 5, col: 1 });
}

#[test]
fn token_sequence_ends_with_its_only_end_of_file() {
    for code in ["", "nop", "nop\n", "a: b\n\n", "# c", "x1,x2\n# c"] {
        let tokens = tokenize(code).unwrap();
        let count = tokens.iter().filter(|t| t.kind == TokenKind::EndOfFile).count();
        assert_eq!(count, 1);
        assert_eq!(tokens.last().unwrap().kind, TokenKind::EndOfFile);
        if code.ends_with('\n') {
            assert_eq!(tokens[tokens.len() - 2].kind, TokenKind::Newline);
        }
    }
}

#[test]
fn end_of_file_line_is_behind_the_last_line() {
    let tokens = tokenize("nop").unwrap();
    assert_eq!(tokens[1].location, SourceLocation { line: 2, col: 1 });
    let tokens = tokenize("nop\n").unwrap();
    assert_eq!(tokens[2].location, SourceLocation { line: 2, col: 1 });
    let tokens = tokenize("nop\nnop").unwrap();
    assert_eq!(tokens[3].location, SourceLocation { line: 3, col: 1 });
}

#[test]
fn columns_count_every_character() {
    let tokens = tokenize("  add x1 , x2").unwrap();
    let cols: Vec<u64> = tokens.iter().map(|t| t.location.col).collect();
    assert_eq!(cols, vec![3, 7, 10, 12, 1]);
}

#[test]
fn tokenizing_twice_gives_the_same_tokens() {
    let code = "start: li a0, -12\n  add x1, x2, x3 # c\n.word 0x10\n";
    assert_eq!(tokenize(code).unwrap(), tokenize(code).unwrap());
}

#[test]
fn numerals_keep_their_text() {
    let tokens = tokenize("-12 0x1f -0xA 007").unwrap();
    assert_eq!(tokens[0].kind, TokenKind::Number(Base::Dec));
    assert_eq!(tokens[0].text, Some("-12".to_string()));
    assert_eq!(tokens[1].kind, TokenKind::Number(Base::Hex));
    assert_eq!(tokens[1].text, Some("0x1f".to_string()));
    assert_eq!(tokens[2].kind, TokenKind::Number(Base::Hex));
    assert_eq!(tokens[2].text, Some("-0xA".to_string()));
    assert_eq!(tokens[3].kind, TokenKind::Number(Base::Dec));
    assert_eq!(tokens[3].text, Some("007".to_string()));
    assert_eq!(tokens.len(), 5);
}

#[test]
fn numeral_is_not_checked_for_overflow() {
    let tokens = tokenize("99999999999999999999999999").unwrap();
    assert_eq!(tokens[0].kind, TokenKind::Number(Base::Dec));
    assert_eq!(tokens[0].text, Some("99999999999999999999999999".to_string()));
}

#[test]
fn string_literal_respects_escaped_quote() {
    let tokens = tokenize("\"a\\\"b\" x").unwrap();
    assert_eq!(tokens[0].kind, TokenKind::String);
    assert_eq!(tokens[0].text, Some("\"a\\\"b\"".to_string()));
    assert_eq!(tokens[1].kind, TokenKind::Identifier);
    assert_eq!(tokens[1].location.col, 8);
}

#[test]
fn unterminated_string_is_an_error() {
    let (kind, message, location) = single(tokenize("nop\n  \"abc\nnop").unwrap_err());
    assert_eq!(kind, ErrorKind::Tokenizer);
    assert_eq!(message, "unterminated string literal");
    assert_eq!(location, SourceLocation { line: 2, col: 3 });
}

#[test]
fn unexpected_character_is_an_error() {
    let (kind, message, location) = single(tokenize("add x1, @").unwrap_err());
    assert_eq!(kind, ErrorKind::Tokenizer);
    assert_eq!(message, "unexpected character @");
    assert_eq!(location, SourceLocation { line: 1, col: 9 });
}

#[test]
fn minus_without_digit_is_an_error() {
    let (kind, message, location) = single(tokenize("li a0, -x").unwrap_err());
    assert_eq!(kind, ErrorKind::Tokenizer);
    assert_eq!(message, "expected digit after '-'");
    assert_eq!(location, SourceLocation { line: 1, col: 8 });
}

#[test]
fn hex_prefix_without_digit_is_an_error() {
    let (kind, message, location) = single(tokenize("0x").unwrap_err());
    assert_eq!(kind, ErrorKind::Tokenizer);
    assert_eq!(message, "expected hex digit after '0x'");
    assert_eq!(location, SourceLocation { line: 1, col: 1 });
}

#[test]
fn words_are_classified_by_exact_match() {
    assert_eq!(classify_identifier("zero"), TokenKind::Register);
    assert_eq!(classify_identifier("x31"), TokenKind::Register);
    assert_eq!(classify_identifier("x32"), TokenKind::Identifier);
    assert_eq!(classify_identifier("fp"), TokenKind::Register);
    assert_eq!(classify_identifier("t6"), TokenKind::Register);
    assert_eq!(classify_identifier("s11"), TokenKind::Register);
    assert_eq!(classify_identifier("ecall"), TokenKind::Instruction);
    assert_eq!(classify_identifier("auipc"), TokenKind::Instruction);
    assert_eq!(classify_identifier("li"), TokenKind::Pseudoinstruction);
    assert_eq!(classify_identifier("neg"), TokenKind::Pseudoinstruction);
    assert_eq!(classify_identifier("ADD"), TokenKind::Identifier);
    assert_eq!(classify_identifier("loop"), TokenKind::Identifier);
    assert_eq!(classify_identifier(""), TokenKind::Identifier);
}

#[test]
fn directive_is_a_dot_and_letters() {
    let tokens = tokenize(".global main").unwrap();
    assert_eq!(tokens[0].kind, TokenKind::Directive);
    assert_eq!(tokens[0].text, Some(".global".to_string()));
    assert_eq!(tokens[1].kind, TokenKind::Identifier);
    assert_eq!(tokens[1].text, Some("main".to_string()));
}

#[test]
fn newline_tokens_match_line_breaks() {
    for code in ["", "nop", "nop\n", "\n\n\n", "a: b # c\n\"s\" # d\n x", "# c\r\n# d"] {
        let tokens = tokenize(code).unwrap();
        let newlines = tokens.iter().filter(|t| t.kind == TokenKind::Newline).count();
        assert_eq!(newlines, code.matches('\n').count());
    }
}
