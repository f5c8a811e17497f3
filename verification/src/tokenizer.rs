//! Lexical analysis: source text to a flat sequence of classified tokens.
//!
//! The model is [`lex`], a function from the characters of the source to
//! either the token sequence or the first lexical fault. [`tokenize`] is
//! proved to compute exactly that function.

use vstd::prelude::*;
use vstd::std_specs::iter::IteratorSpec;
use vstd::string::*;
use crate::error::{AssemblerError, Diagnostic, DiagnosticView, ErrorKind, SourceLocation};
use crate::names::{classify, classify_identifier};

verus! {

/// The radix a numeral was written in.
#[derive(Debug, Clone, Copy, PartialEq, Eq, Structural)]
pub enum Base {
    Dec,
    Hex,
}

/// The classification of a token.
#[derive(Debug, Clone, Copy, PartialEq, Eq, Structural)]
pub enum TokenKind {
    /// A native mnemonic such as `add` or `lui`.
    Instruction,
    /// A mnemonic that expands to native instructions, such as `mv`.
    Pseudoinstruction,
    /// A `.`-prefixed word such as `.word`.
    Directive,
    /// A label name or symbol reference.
    Identifier,
    /// A register name such as `x0`, `zero` or `sp`.
    Register,
    /// Never produced: comments are dropped.
    Comment,
    Number(Base),
    Comma,
    Colon,
    LParen,
    RParen,
    Newline,
    EndOfFile,
    String,
}

/// A classified piece of source text with its position.
#[derive(Debug, Clone, PartialEq, Eq)]
pub struct Token {
    pub kind: TokenKind,
    pub text: Option<String>,
    pub location: SourceLocation,
}

/// The mathematical content of a [`Token`].
pub struct TokenView {
    pub kind: TokenKind,
    pub text: Option<Seq<char>>,
    pub location: SourceLocation,
}

impl View for Token {
    type V = TokenView;

    open spec fn view(&self) -> TokenView {
        TokenView {
            kind: self.kind,
            text: match self.text {
                Some(s) => Some(s@),
                None => None,
            },
            location: self.location,
        }
    }
}

/// The views of a list of tokens, in order.
pub open spec fn token_views(tokens: Seq<Token>) -> Seq<TokenView> {
    Seq::new(tokens.len(), |i: int| tokens[i]@)
}

/// The sets of characters that make up runs.
#[derive(Clone, Copy)]
pub enum CharClass {
    /// `0`..`9`
    Digit,
    /// Decimal digits and `a`..`f` in either case.
    HexDigit,
    /// ASCII letters.
    Alpha,
    /// ASCII letters, decimal digits and `_`.
    Word,
    /// Everything up to the end of the physical line.
    Comment,
}

pub open spec fn is_digit(c: char) -> bool {
    '0' <= c && c <= '9'
}

pub open spec fn is_alpha(c: char) -> bool {
    ('a' <= c && c <= 'z') || ('A' <= c && c <= 'Z')
}

pub open spec fn in_class(c: char, class: CharClass) -> bool {
    match class {
        CharClass::Digit => is_digit(c),
        CharClass::HexDigit => is_digit(c) || ('a' <= c && c <= 'f') || ('A' <= c && c <= 'F'),
        CharClass::Alpha => is_alpha(c),
        CharClass::Word => is_alpha(c) || is_digit(c) || c == '_',
        CharClass::Comment => c != '\n',
    }
}

/// The end of the longest run of `class` characters that starts at `i`.
pub open spec fn run_end(s: Seq<char>, i: int, class: CharClass) -> int
    decreases s.len() - i,
{
    if 0 <= i < s.len() && in_class(s[i], class) {
        run_end(s, i + 1, class)
    } else {
        i
    }
}

/// The position just behind the quote that closes a string whose body
/// continues at `i`, or `None` where the line ends first. A quote that
/// directly follows a backslash does not close the string.
pub open spec fn string_end(s: Seq<char>, i: int, escaped: bool) -> Option<int>
    decreases s.len() - i,
{
    if i < 0 || i >= s.len() || s[i] == '\n' {
        None
    } else if s[i] == '"' && !escaped {
        Some(i + 1)
    } else {
        string_end(s, i + 1, s[i] == '\\')
    }
}

/// Why a character sequence is not a token.
#[derive(Debug, Clone, Copy, PartialEq, Eq, Structural)]
pub enum LexFault {
    /// A `-` that no digit follows.
    MissingDigit,
    /// A `0x` that no hex digit follows.
    MissingHexDigit,
    /// A string that is still open at the end of its line.
    UnterminatedString,
    /// A character that starts no token.
    UnexpectedCharacter,
}

/// What stands at one position of the source.
pub enum Scan {
    /// Blank space or a comment, up to `next`.
    Skip { next: int },
    /// A token of `kind` that ends before `next`.
    Emit { kind: TokenKind, next: int },
    /// Nothing that the language knows.
    Fail { fault: LexFault },
}

/// The numeral that starts at `i`, where `s[i]` is `-` or a digit.
pub open spec fn scan_number(s: Seq<char>, i: int) -> Scan {
    let j = if s[i] == '-' { i + 1 } else { i };
    if j >= s.len() || !is_digit(s[j]) {
        Scan::Fail { fault: LexFault::MissingDigit }
    } else if s[j] == '0' && j + 1 < s.len() && s[j + 1] == 'x' {
        let end = run_end(s, j + 2, CharClass::HexDigit);
        if end == j + 2 {
            Scan::Fail { fault: LexFault::MissingHexDigit }
        } else {
            Scan::Emit { kind: TokenKind::Number(Base::Hex), next: end }
        }
    } else {
        Scan::Emit { kind: TokenKind::Number(Base::Dec), next: run_end(s, j + 1, CharClass::Digit) }
    }
}

/// What stands at position `i` of `s`, for `0 <= i < s.len()`.
pub open spec fn scan_at(s: Seq<char>, i: int) -> Scan {
    let c = s[i];
    if c == ' ' || c == '\t' || c == '\r' {
        Scan::Skip { next: i + 1 }
    } else if c == '#' {
        Scan::Skip { next: run_end(s, i + 1, CharClass::Comment) }
    } else if c == '\n' {
        Scan::Emit { kind: TokenKind::Newline, next: i + 1 }
    } else if c == ',' {
        Scan::Emit { kind: TokenKind::Comma, next: i + 1 }
    } else if c == ':' {
        Scan::Emit { kind: TokenKind::Colon, next: i + 1 }
    } else if c == '(' {
        Scan::Emit { kind: TokenKind::LParen, next: i + 1 }
    } else if c == ')' {
        Scan::Emit { kind: TokenKind::RParen, next: i + 1 }
    } else if c == '-' || is_digit(c) {
        scan_number(s, i)
    } else if c == '.' {
        Scan::Emit { kind: TokenKind::Directive, next: run_end(s, i + 1, CharClass::Alpha) }
    } else if is_alpha(c) || c == '_' {
        let end = run_end(s, i + 1, CharClass::Word);
        Scan::Emit { kind: classify(s.subrange(i, end)), next: end }
    } else if c == '"' {
        match string_end(s, i + 1, false) {
            Some(end) => Scan::Emit { kind: TokenKind::String, next: end },
            None => Scan::Fail { fault: LexFault::UnterminatedString },
        }
    } else {
        Scan::Fail { fault: LexFault::UnexpectedCharacter }
    }
}

/// The position of a lexical fault: the index of the offending character
/// and its line and column.
pub struct LexError {
    pub fault: LexFault,
    pub at: int,
    pub location: SourceLocation,
}

/// The location of position `i` on a line numbered `line` that starts at
/// position `line_start`.
pub open spec fn location_at(i: int, line: int, line_start: int) -> SourceLocation {
    SourceLocation { line: line as u64, col: (i - line_start + 1) as u64 }
}

/// The token that closes every sequence. Its line is one behind the last
/// physical line; its text is empty.
pub open spec fn end_of_file(len: int, line: int, line_start: int) -> TokenView {
    TokenView {
        kind: TokenKind::EndOfFile,
        text: Some(Seq::<char>::empty()),
        location: SourceLocation {
            line: (if len > line_start { line + 1 } else { line }) as u64,
            col: 1,
        },
    }
}

/// The token of `kind` that covers `s[i..next]`. A newline carries no text.
pub open spec fn token_at(
    s: Seq<char>,
    i: int,
    next: int,
    kind: TokenKind,
    line: int,
    line_start: int,
) -> TokenView {
    TokenView {
        kind,
        text: if kind == TokenKind::Newline { None } else { Some(s.subrange(i, next)) },
        location: location_at(i, line, line_start),
    }
}

/// `prefix` in front of the tokens of `rest`; a fault stays a fault.
pub open spec fn prepend(prefix: Seq<TokenView>, rest: Result<Seq<TokenView>, LexError>) -> Result<
    Seq<TokenView>,
    LexError,
> {
    match rest {
        Ok(tokens) => Ok(prefix + tokens),
        Err(e) => Err(e),
    }
}

/// The tokens of `s` from position `i` on, where `i` lies on line `line`,
/// which starts at position `line_start`.
pub open spec fn lex_from(s: Seq<char>, i: int, line: int, line_start: int) -> Result<
    Seq<TokenView>,
    LexError,
>
    decreases s.len() - i,
    via lex_from_decreases
{
    if i < 0 || i >= s.len() {
        Ok(seq![end_of_file(s.len() as int, line, line_start)])
    } else {
        match scan_at(s, i) {
            Scan::Skip { next } => lex_from(s, next, line, line_start),
            Scan::Emit { kind, next } => {
                let token = token_at(s, i, next, kind, line, line_start);
                if kind == TokenKind::Newline {
                    prepend(seq![token], lex_from(s, next, line + 1, next))
                } else {
                    prepend(seq![token], lex_from(s, next, line, line_start))
                }
            },
            Scan::Fail { fault } => Err(
                LexError { fault, at: i, location: location_at(i, line, line_start) },
            ),
        }
    }
}

#[via_fn]
proof fn lex_from_decreases(s: Seq<char>, i: int, line: int, line_start: int) {
    if 0 <= i < s.len() {
        lemma_scan_advances(s, i);
    }
}

/// The token sequence of the source text `s`, or its first lexical fault.
pub open spec fn lex(s: Seq<char>) -> Result<Seq<TokenView>, LexError> {
    lex_from(s, 0, 1, 0)
}

/// The message that reports `fault` at position `at` of `s`.
pub open spec fn fault_message(s: Seq<char>, fault: LexFault, at: int) -> Seq<char> {
    match fault {
        LexFault::MissingDigit => "expected digit after '-'"@,
        LexFault::MissingHexDigit => "expected hex digit after '0x'"@,
        LexFault::UnterminatedString => "unterminated string literal"@,
        LexFault::UnexpectedCharacter => "unexpected character "@ + s.subrange(at, at + 1),
    }
}

/// The diagnostic that reports the lexical fault `e` of `s`.
pub open spec fn lex_diagnostic(s: Seq<char>, e: LexError) -> DiagnosticView {
    DiagnosticView {
        kind: ErrorKind::Tokenizer,
        message: fault_message(s, e.fault, e.at),
        location: e.location,
    }
}

/// A run ends at or behind its start, and inside the text.
pub proof fn lemma_run_end_bounds(s: Seq<char>, i: int, class: CharClass)
    requires
        0 <= i <= s.len(),
    ensures
        i <= run_end(s, i, class) <= s.len(),
    decreases s.len() - i,
{
    if i < s.len() && in_class(s[i], class) {
        lemma_run_end_bounds(s, i + 1, class);
    }
}

/// A closed string ends behind its body's start, and inside the text.
pub proof fn lemma_string_end_bounds(s: Seq<char>, i: int, escaped: bool)
    requires
        0 <= i <= s.len(),
    ensures
        string_end(s, i, escaped) matches Some(end) ==> i < end <= s.len(),
    decreases s.len() - i,
{
    if i < s.len() && s[i] != '\n' && !(s[i] == '"' && !escaped) {
        lemma_string_end_bounds(s, i + 1, s[i] == '\\');
    }
}

/// Whatever stands at a position reaches behind it, and ends inside the text.
pub proof fn lemma_scan_advances(s: Seq<char>, i: int)
    requires
        0 <= i < s.len(),
    ensures
        match scan_at(s, i) {
            Scan::Skip { next } => i < next <= s.len(),
            Scan::Emit { kind, next } => i < next <= s.len() && (kind == TokenKind::Newline
                <==> s[i] == '\n'),
            Scan::Fail { .. } => true,
        },
{
    lemma_run_end_bounds(s, i + 1, CharClass::Comment);
    lemma_run_end_bounds(s, i + 1, CharClass::Alpha);
    lemma_run_end_bounds(s, i + 1, CharClass::Word);
    lemma_string_end_bounds(s, i + 1, false);
    let j = if s[i] == '-' { i + 1 } else { i };
    if j < s.len() {
        lemma_run_end_bounds(s, j + 1, CharClass::Digit);
        if j + 1 < s.len() {
            lemma_run_end_bounds(s, j + 2, CharClass::HexDigit);
        }
    }
    crate::names::lemma_classify_kinds(s.subrange(i, run_end(s, i + 1, CharClass::Word)));
}


/// `prepend` takes a longer prefix one token at a time.
pub proof fn lemma_prepend_push(
    prefix: Seq<TokenView>,
    token: TokenView,
    rest: Result<Seq<TokenView>, LexError>,
)
    ensures
        prepend(prefix.push(token), rest) == prepend(prefix, prepend(seq![token], rest)),
{
    match rest {
        Ok(tokens) => {
            assert(prefix.push(token) + tokens =~= prefix + (seq![token] + tokens));
        },
        Err(_) => {},
    }
}

/// What [`scan_token`] found: a [`Scan`] with machine positions.
pub enum Step {
    Skip { next: usize },
    Emit { kind: TokenKind, next: usize },
    Fail { fault: LexFault },
}

impl View for Step {
    type V = Scan;

    open spec fn view(&self) -> Scan {
        match self {
            Step::Skip { next } => Scan::Skip { next: *next as int },
            Step::Emit { kind, next } => Scan::Emit { kind: *kind, next: *next as int },
            Step::Fail { fault } => Scan::Fail { fault: *fault },
        }
    }
}

fn digit(c: char) -> (r: bool)
    ensures
        r == is_digit(c),
{
    '0' <= c && c <= '9'
}

fn alpha(c: char) -> (r: bool)
    ensures
        r == is_alpha(c),
{
    ('a' <= c && c <= 'z') || ('A' <= c && c <= 'Z')
}

fn class_contains(c: char, class: CharClass) -> (r: bool)
    ensures
        r == in_class(c, class),
{
    match class {
        CharClass::Digit => digit(c),
        CharClass::HexDigit => digit(c) || ('a' <= c && c <= 'f') || ('A' <= c && c <= 'F'),
        CharClass::Alpha => alpha(c),
        CharClass::Word => alpha(c) || digit(c) || c == '_',
        CharClass::Comment => c != '\n',
    }
}

/// The characters of `source`, in order.
pub fn source_chars(source: &str) -> (chars: Vec<char>)
    ensures
        chars@ == source@,
{
    broadcast use vstd::string::group_string_axioms;

    let n = source.unicode_len();
    let mut iter = source.chars();
    let mut chars: Vec<char> = Vec::new();
    let mut i: usize = 0;
    proof {
        assert(source@.subrange(0, n as int) =~= source@);
    }
    while i < n
        invariant
            i <= n,
            n == source@.len(),
            chars@ == source@.subrange(0, i as int),
            iter.remaining() == source@.subrange(i as int, n as int),
        decreases n - i,
    {
        let ghost before = iter.remaining();
        match iter.next() {
            Some(c) => {
                chars.push(c);
            },
            None => {
                assert(false);
            },
        }
        i += 1;
        proof {
            assert(chars@ =~= source@.subrange(0, i as int));
            assert(before.drop_first() =~= source@.subrange(i as int, n as int));
        }
    }
    proof {
        assert(chars@ =~= source@);
    }
    chars
}

/// The characters `from..to` of `source`. Where the text is known to be
/// ASCII this takes constant time.
fn slice<'a>(source: &'a str, ascii: bool, from: usize, to: usize) -> (part: &'a str)
    requires
        from <= to <= source@.len(),
        ascii ==> source.is_ascii(),
    ensures
        part@ == source@.subrange(from as int, to as int),
{
    if ascii {
        source.substring_ascii(from, to)
    } else {
        source.substring_char(from, to)
    }
}

fn scan_run(chars: &Vec<char>, start: usize, class: CharClass) -> (end: usize)
    requires
        start <= chars.len(),
    ensures
        end == run_end(chars@, start as int, class),
        start <= end <= chars.len(),
{
    let mut i: usize = start;
    while i < chars.len() && class_contains(chars[i], class)
        invariant
            start <= i <= chars.len(),
            run_end(chars@, start as int, class) == run_end(chars@, i as int, class),
        decreases chars.len() - i,
    {
        i += 1;
    }
    i
}

fn scan_string(chars: &Vec<char>, start: usize) -> (end: Option<usize>)
    requires
        start <= chars.len(),
    ensures
        match end {
            Some(e) => string_end(chars@, start as int, false) == Some(e as int) && start < e
                <= chars.len(),
            None => string_end(chars@, start as int, false) is None,
        },
{
    let mut i: usize = start;
    let mut escaped = false;
    while i < chars.len()
        invariant
            start <= i <= chars.len(),
            string_end(chars@, start as int, false) == string_end(chars@, i as int, escaped),
        decreases chars.len() - i,
    {
        let c = chars[i];
        if c == '\n' {
            return None;
        }
        if c == '"' && !escaped {
            return Some(i + 1);
        }
        escaped = c == '\\';
        i += 1;
    }
    None
}

fn scan_numeral(chars: &Vec<char>, i: usize) -> (step: Step)
    requires
        i < chars.len(),
        chars[i as int] == '-' || is_digit(chars[i as int]),
    ensures
        step@ == scan_number(chars@, i as int),
{
    let n = chars.len();
    let j: usize = if chars[i] == '-' { i + 1 } else { i };
    if j >= n || !digit(chars[j]) {
        Step::Fail { fault: LexFault::MissingDigit }
    } else if chars[j] == '0' && j + 1 < n && chars[j + 1] == 'x' {
        let end = scan_run(chars, j + 2, CharClass::HexDigit);
        if end == j + 2 {
            Step::Fail { fault: LexFault::MissingHexDigit }
        } else {
            Step::Emit { kind: TokenKind::Number(Base::Hex), next: end }
        }
    } else {
        Step::Emit { kind: TokenKind::Number(Base::Dec), next: scan_run(chars, j + 1, CharClass::Digit) }
    }
}

/// Recognizes what stands at position `i` of `source`, whose characters
/// are `chars`; `ascii` may be set where all of them are ASCII.
pub fn scan_token(source: &str, chars: &Vec<char>, ascii: bool, i: usize) -> (step: Step)
    requires
        chars@ == source@,
        ascii ==> source.is_ascii(),
        i < chars.len(),
    ensures
        step@ == scan_at(source@, i as int),
{
    let c = chars[i];
    if c == ' ' || c == '\t' || c == '\r' {
        Step::Skip { next: i + 1 }
    } else if c == '#' {
        Step::Skip { next: scan_run(chars, i + 1, CharClass::Comment) }
    } else if c == '\n' {
        Step::Emit { kind: TokenKind::Newline, next: i + 1 }
    } else if c == ',' {
        Step::Emit { kind: TokenKind::Comma, next: i + 1 }
    } else if c == ':' {
        Step::Emit { kind: TokenKind::Colon, next: i + 1 }
    } else if c == '(' {
        Step::Emit { kind: TokenKind::LParen, next: i + 1 }
    } else if c == ')' {
        Step::Emit { kind: TokenKind::RParen, next: i + 1 }
    } else if c == '-' || digit(c) {
        scan_numeral(chars, i)
    } else if c == '.' {
        Step::Emit { kind: TokenKind::Directive, next: scan_run(chars, i + 1, CharClass::Alpha) }
    } else if alpha(c) || c == '_' {
        let end = scan_run(chars, i + 1, CharClass::Word);
        Step::Emit { kind: classify_identifier(slice(source, ascii, i, end)), next: end }
    } else if c == '"' {
        match scan_string(chars, i + 1) {
            Some(end) => Step::Emit { kind: TokenKind::String, next: end },
            None => Step::Fail { fault: LexFault::UnterminatedString },
        }
    } else {
        Step::Fail { fault: LexFault::UnexpectedCharacter }
    }
}

fn fault_text(source: &str, ascii: bool, fault: LexFault, at: usize) -> (message: String)
    requires
        at < source@.len(),
        source@.len() <= usize::MAX,
        ascii ==> source.is_ascii(),
    ensures
        message@ == fault_message(source@, fault, at as int),
{
    match fault {
        LexFault::MissingDigit => String::from_str("expected digit after '-'"),
        LexFault::MissingHexDigit => String::from_str("expected hex digit after '0x'"),
        LexFault::UnterminatedString => String::from_str("unterminated string literal"),
        LexFault::UnexpectedCharacter => String::from_str("unexpected character ").concat(
            slice(source, ascii, at, at + 1),
        ),
    }
}

/// Converts source text into its token sequence, which ends with one
/// `EndOfFile` token, or reports the first character sequence that is no
/// token.
///
/// Blank space and comments give no token. Every line break gives one
/// `Newline` token. A token's location is that of its first character.
pub fn tokenize(source: &str) -> (result: Result<Vec<Token>, AssemblerError>)
    requires
        source@.len() < u64::MAX,
    ensures
        tokenize_result(source@, result),
{
    let chars = source_chars(source);
    let ascii = source.is_ascii();
    let n = chars.len();
    let mut tokens: Vec<Token> = Vec::new();
    let mut i: usize = 0;
    let mut line: u64 = 1;
    let mut line_start: usize = 0;
    proof {
        assert(token_views(tokens@) =~= Seq::<TokenView>::empty());
        match lex(source@) {
            Ok(all) => assert(Seq::<TokenView>::empty() + all =~= all),
            Err(_) => {},
        }
    }
    while i < n
        invariant
            chars@ == source@,
            ascii ==> source.is_ascii(),
            n == chars.len(),
            n < u64::MAX,
            i <= n,
            line_start <= i,
            1 <= line <= line_start + 1,
            lex(source@) == prepend(
                token_views(tokens@),
                lex_from(source@, i as int, line as int, line_start as int),
            ),
        decreases n - i,
    {
        proof {
            lemma_scan_advances(source@, i as int);
        }
        let location = SourceLocation { line, col: (i - line_start) as u64 + 1 };
        match scan_token(source, &chars, ascii, i) {
            Step::Skip { next } => {
                i = next;
            },
            Step::Emit { kind, next } => {
                let newline = match kind {
                    TokenKind::Newline => true,
                    _ => false,
                };
                let text = if newline {
                    None
                } else {
                    Some(String::from_str(slice(source, ascii, i, next)))
                };
                let ghost before = token_views(tokens@);
                let ghost token = token_at(
                    source@,
                    i as int,
                    next as int,
                    kind,
                    line as int,
                    line_start as int,
                );
                tokens.push(Token { kind, text, location });
                if newline {
                    line = line + 1;
                    line_start = next;
                }
                proof {
                    assert(token_views(tokens@) =~= before.push(token));
                    lemma_prepend_push(
                        before,
                        token,
                        lex_from(source@, next as int, line as int, line_start as int),
                    );
                }
                i = next;
            },
            Step::Fail { fault } => {
                return Err(
                    AssemblerError::Single(
                        Diagnostic {
                            kind: ErrorKind::Tokenizer,
                            message: fault_text(source, ascii, fault, i),
                            location,
                        },
                    ),
                );
            },
        }
    }
    let last_line: u64 = if n > line_start { line + 1 } else { line };
    let ghost before = token_views(tokens@);
    tokens.push(
        Token {
            kind: TokenKind::EndOfFile,
            text: Some(String::new()),
            location: SourceLocation { line: last_line, col: 1 },
        },
    );
    proof {
        let last = end_of_file(n as int, line as int, line_start as int);
        assert(token_views(tokens@) =~= before + seq![last]);
    }
    Ok(tokens)
}


/// A run that is not empty ends with a character of its class.
pub proof fn lemma_run_end_last(s: Seq<char>, i: int, class: CharClass)
    requires
        0 <= i <= s.len(),
    ensures
        run_end(s, i, class) > i ==> in_class(s[run_end(s, i, class) - 1], class),
    decreases s.len() - i,
{
    if i < s.len() && in_class(s[i], class) {
        lemma_run_end_bounds(s, i + 1, class);
        lemma_run_end_last(s, i + 1, class);
    }
}

/// A closed string ends with a quote.
pub proof fn lemma_string_end_last(s: Seq<char>, i: int, escaped: bool)
    requires
        0 <= i <= s.len(),
    ensures
        string_end(s, i, escaped) matches Some(end) ==> s[end - 1] == '"',
    decreases s.len() - i,
{
    if i < s.len() && s[i] != '\n' && !(s[i] == '"' && !escaped) {
        lemma_string_end_bounds(s, i + 1, s[i] == '\\');
        lemma_string_end_last(s, i + 1, s[i] == '\\');
    }
}

/// Only a `Newline` token ends with a line break.
pub proof fn lemma_scan_line_break(s: Seq<char>, i: int)
    requires
        0 <= i < s.len(),
    ensures
        match scan_at(s, i) {
            Scan::Skip { next } => s[next - 1] != '\n',
            Scan::Emit { kind, next } => s[next - 1] == '\n' ==> kind == TokenKind::Newline,
            Scan::Fail { .. } => true,
        },
{
    lemma_scan_advances(s, i);
    lemma_run_end_bounds(s, i + 1, CharClass::Comment);
    lemma_run_end_last(s, i + 1, CharClass::Comment);
    lemma_run_end_last(s, i + 1, CharClass::Alpha);
    lemma_run_end_last(s, i + 1, CharClass::Word);
    lemma_string_end_last(s, i + 1, false);
    let j = if s[i] == '-' { i + 1 } else { i };
    if j < s.len() {
        lemma_run_end_bounds(s, j + 1, CharClass::Digit);
        lemma_run_end_last(s, j + 1, CharClass::Digit);
        if j + 1 < s.len() {
            lemma_run_end_bounds(s, j + 2, CharClass::HexDigit);
            lemma_run_end_last(s, j + 2, CharClass::HexDigit);
        }
    }
}

/// The shape of every token sequence: it ends with an `EndOfFile` token
/// and holds no other; it holds no `Comment` token; and where text
/// remains and the text ends with a line break, a `Newline` token stands
/// directly before the end.
pub proof fn lemma_lex_from_shape(s: Seq<char>, i: int, line: int, line_start: int)
    requires
        0 <= i <= s.len(),
    ensures
        lex_from(s, i, line, line_start) matches Ok(tokens) ==> {
            &&& tokens.len() >= 1
            &&& tokens.last().kind == TokenKind::EndOfFile
            &&& forall|k: int| 0 <= k < tokens.len() - 1 ==> tokens[k].kind != TokenKind::EndOfFile
            &&& forall|k: int| 0 <= k < tokens.len() ==> tokens[k].kind != TokenKind::Comment
            &&& i < s.len() && s.last() == '\n' ==> tokens.len() >= 2 && tokens[tokens.len()
                - 2].kind == TokenKind::Newline
        },
    decreases s.len() - i,
{
    if i < s.len() {
        lemma_scan_advances(s, i);
        lemma_scan_line_break(s, i);
        match scan_at(s, i) {
            Scan::Skip { next } => {
                lemma_lex_from_shape(s, next, line, line_start);
            },
            Scan::Emit { kind, next } => {
                crate::names::lemma_classify_kinds(
                    s.subrange(i, run_end(s, i + 1, CharClass::Word)),
                );
                if kind == TokenKind::Newline {
                    lemma_lex_from_shape(s, next, line + 1, next);
                } else {
                    lemma_lex_from_shape(s, next, line, line_start);
                }
            },
            Scan::Fail { .. } => {},
        }
    }
}

/// Every token sequence ends with exactly one `EndOfFile` token, which is
/// its last, and holds no `Comment` token; text that ends with a line
/// break ends with a `Newline` token before it.
pub proof fn lemma_lex_shape(s: Seq<char>)
    ensures
        lex(s) matches Ok(tokens) ==> {
            &&& tokens.len() >= 1
            &&& tokens.last().kind == TokenKind::EndOfFile
            &&& forall|k: int| 0 <= k < tokens.len() - 1 ==> tokens[k].kind != TokenKind::EndOfFile
            &&& forall|k: int| 0 <= k < tokens.len() ==> tokens[k].kind != TokenKind::Comment
            &&& s.len() > 0 && s.last() == '\n' ==> tokens.len() >= 2 && tokens[tokens.len()
                - 2].kind == TokenKind::Newline
        },
{
    lemma_lex_from_shape(s, 0, 1, 0);
}

/// Tokenizing depends on the text alone: two runs of [`tokenize`] on
/// equal texts give equal token sequences, or the same diagnostic.
pub proof fn lemma_tokenize_deterministic(
    a: Seq<char>,
    b: Seq<char>,
    first: Result<Vec<Token>, AssemblerError>,
    second: Result<Vec<Token>, AssemblerError>,
)
    requires
        a == b,
        tokenize_result(a, first),
        tokenize_result(b, second),
    ensures
        first is Ok <==> second is Ok,
        first matches Ok(x) ==> second matches Ok(y) && token_views(x@) == token_views(y@),
        first matches Err(x) ==> second matches Err(y) && x@ == y@,
{
}

/// What [`tokenize`] promises of its result on the text `s`.
pub open spec fn tokenize_result(s: Seq<char>, result: Result<Vec<Token>, AssemblerError>) -> bool {
    match result {
        Ok(tokens) => lex(s) == Ok::<Seq<TokenView>, LexError>(token_views(tokens@)),
        Err(e) => e is Single && lex(s) is Err && e@ == seq![lex_diagnostic(s, lex(s)->Err_0)],
    }
}


/// The number of line breaks in `s` from position `i` on.
pub open spec fn line_breaks(s: Seq<char>, i: int) -> nat
    decreases s.len() - i,
{
    if i < 0 || i >= s.len() {
        0
    } else if s[i] == '\n' {
        1 + line_breaks(s, i + 1)
    } else {
        line_breaks(s, i + 1)
    }
}

/// The number of `Newline` tokens in `tokens`.
pub open spec fn newline_count(tokens: Seq<TokenView>) -> nat
    decreases tokens.len(),
{
    if tokens.len() == 0 {
        0
    } else if tokens[0].kind == TokenKind::Newline {
        1 + newline_count(tokens.drop_first())
    } else {
        newline_count(tokens.drop_first())
    }
}

/// Every character of a run is of its class.
pub proof fn lemma_run_in_class(s: Seq<char>, i: int, class: CharClass)
    requires
        0 <= i <= s.len(),
    ensures
        forall|k: int| i <= k < run_end(s, i, class) ==> in_class(s[k], class),
    decreases s.len() - i,
{
    if i < s.len() && in_class(s[i], class) {
        lemma_run_in_class(s, i + 1, class);
    }
}

/// A closed string holds no line break.
pub proof fn lemma_string_on_one_line(s: Seq<char>, i: int, escaped: bool)
    requires
        0 <= i <= s.len(),
    ensures
        string_end(s, i, escaped) matches Some(end) ==> forall|k: int| i <= k < end ==> s[k] != '\n',
    decreases s.len() - i,
{
    if i < s.len() && s[i] != '\n' && !(s[i] == '"' && !escaped) {
        lemma_string_on_one_line(s, i + 1, s[i] == '\\');
    }
}

/// A stretch of text without a line break does not change the count.
pub proof fn lemma_line_breaks_skip(s: Seq<char>, i: int, j: int)
    requires
        0 <= i <= j <= s.len(),
        forall|k: int| i <= k < j ==> s[k] != '\n',
    ensures
        line_breaks(s, i) == line_breaks(s, j),
    decreases j - i,
{
    if i < j {
        lemma_line_breaks_skip(s, i + 1, j);
    }
}

/// What stands at a position holds a line break only where it is a
/// `Newline` token, which is the line break alone.
pub proof fn lemma_scan_on_one_line(s: Seq<char>, i: int)
    requires
        0 <= i < s.len(),
    ensures
        match scan_at(s, i) {
            Scan::Skip { next } => line_breaks(s, i) == line_breaks(s, next),
            Scan::Emit { kind, next } => if kind == TokenKind::Newline {
                line_breaks(s, i) == 1 + line_breaks(s, next)
            } else {
                line_breaks(s, i) == line_breaks(s, next)
            },
            Scan::Fail { .. } => true,
        },
{
    lemma_scan_advances(s, i);
    lemma_run_in_class(s, i + 1, CharClass::Comment);
    lemma_run_in_class(s, i + 1, CharClass::Alpha);
    lemma_run_in_class(s, i + 1, CharClass::Word);
    lemma_string_on_one_line(s, i + 1, false);
    let j = if s[i] == '-' { i + 1 } else { i };
    if j < s.len() {
        lemma_run_end_bounds(s, j + 1, CharClass::Digit);
        lemma_run_in_class(s, j + 1, CharClass::Digit);
        if j + 1 < s.len() {
            lemma_run_end_bounds(s, j + 2, CharClass::HexDigit);
            lemma_run_in_class(s, j + 2, CharClass::HexDigit);
        }
    }
    match scan_at(s, i) {
        Scan::Skip { next } => {
            lemma_line_breaks_skip(s, i, next);
        },
        Scan::Emit { kind, next } => {
            if kind != TokenKind::Newline {
                lemma_line_breaks_skip(s, i, next);
            }
        },
        Scan::Fail { .. } => {},
    }
}

/// Every line break of the text from `i` on gives exactly one `Newline`
/// token.
pub proof fn lemma_lex_from_newlines(s: Seq<char>, i: int, line: int, line_start: int)
    requires
        0 <= i <= s.len(),
    ensures
        lex_from(s, i, line, line_start) matches Ok(tokens) ==> newline_count(tokens)
            == line_breaks(s, i),
    decreases s.len() - i,
{
    if i < s.len() {
        lemma_scan_advances(s, i);
        lemma_scan_on_one_line(s, i);
        match scan_at(s, i) {
            Scan::Skip { next } => {
                lemma_lex_from_newlines(s, next, line, line_start);
            },
            Scan::Emit { kind, next } => {
                let token = token_at(s, i, next, kind, line, line_start);
                let rest = if kind == TokenKind::Newline {
                    lemma_lex_from_newlines(s, next, line + 1, next);
                    lex_from(s, next, line + 1, next)
                } else {
                    lemma_lex_from_newlines(s, next, line, line_start);
                    lex_from(s, next, line, line_start)
                };
                match rest {
                    Ok(tokens) => {
                        assert((seq![token] + tokens).drop_first() =~= tokens);
                    },
                    Err(_) => {},
                }
            },
            Scan::Fail { .. } => {},
        }
    } else {
        let last = seq![end_of_file(s.len() as int, line, line_start)];
        assert(last.drop_first() =~= Seq::<TokenView>::empty());
        assert(newline_count(last.drop_first()) == 0);
    }
}

/// Every physical line that a line break ends gives exactly one
/// `Newline` token: the token sequence holds as many of them as the text
/// holds line breaks.
pub proof fn lemma_lex_newlines(s: Seq<char>)
    ensures
        lex(s) matches Ok(tokens) ==> newline_count(tokens) == line_breaks(s, 0),
{
    lemma_lex_from_newlines(s, 0, 1, 0);
}

} // verus!
