//! The lexer: turns the text of a DSDL file into tokens.

use vstd::prelude::*;
use vstd::utf8::encode_utf8;
use crate::ast::cast_mode::CastMode;
use crate::ast::comment::Comment;
use crate::ast::ident::Ident;
use crate::ast::lit::first_bad;
use crate::ast::lit::find_bad;
use crate::ast::lit::has_prefix;
use crate::ast::lit::leading_sign;
use crate::ast::lit::CharClass;
use crate::ast::ty::parse_primitive;
use crate::ast::ty::prim_name;
use crate::ast::ty::PrimitiveType;
use crate::text::byte_off;
use crate::text::char_width;
use crate::text::chars_of;
use crate::text::copy_range;
use crate::text::push_char;
use crate::text::push_chars;
use crate::text::lemma_byte_off_mono;
use crate::text::lemma_byte_off_step;
use crate::text::starts_with_at;
use crate::text::str_equals;
use crate::text::string_of_range;

pub use crate::ast::comment::ParseCommentError;

verus! {

/// A token, with its start and end as byte offsets into the text.
pub type Spanned<Token, Loc, Error> = Result<(Loc, Token, Loc), Error>;

/// A token of DSDL text.
#[derive(Clone, PartialEq, Debug)]
pub enum Token {
    /// A comment
    Comment(Comment),
    /// A composite type name, const name, field name or directive name.
    Ident(Ident),
    /// A literal
    Lit(Lit),
    /// A `PrimitiveType` keyword like `void2` or `int43`
    PrimitiveType(PrimitiveType),
    /// A `CastMode` keyword like `saturated` or `truncated`.
    CastMode(CastMode),
    /// Left bracket `[`, used for starting an array description.
    LeftBracket,
    /// Right bracket `]`, used for ending an array description.
    RightBracket,
    /// Less than `<`. Used for specifying dynamic array max length.
    Less,
    /// Less than or equal `<=`. Used for specifying dynamic array max length.
    LessEq,
    /// The constant assignment. An equal sign, `=`, not directly following `<`.
    Eq,
    /// The directive marker. `@`.
    DirectiveMarker,
    /// The service response marker, `---` on a dedicated line
    ServiceResponseMarker,
    /// End of line
    Eol,
}

/// What a token holds, with its text as characters.
pub enum TokenView {
    Comment(Seq<char>),
    Ident(Seq<char>),
    Lit(LitView),
    PrimitiveType(PrimitiveType),
    CastMode(CastMode),
    LeftBracket,
    RightBracket,
    Less,
    LessEq,
    Eq,
    DirectiveMarker,
    ServiceResponseMarker,
    Eol,
}

/// What a literal token holds, with its text as characters.
pub enum LitView {
    Dec(Seq<char>),
    Hex(Seq<char>),
    Oct(Seq<char>),
    Bin(Seq<char>),
    Bool(bool),
    Char(Seq<char>),
    Float(Seq<char>),
}

impl View for Lit {
    type V = LitView;

    open spec fn view(&self) -> LitView {
        match self {
            Lit::Dec(t) => LitView::Dec(t@),
            Lit::Hex(t) => LitView::Hex(t@),
            Lit::Oct(t) => LitView::Oct(t@),
            Lit::Bin(t) => LitView::Bin(t@),
            Lit::Bool(b) => LitView::Bool(*b),
            Lit::Char(t) => LitView::Char(t@),
            Lit::Float(t) => LitView::Float(t@),
        }
    }
}

impl View for Token {
    type V = TokenView;

    open spec fn view(&self) -> TokenView {
        match self {
            Token::Comment(c) => TokenView::Comment(c@),
            Token::Ident(i) => TokenView::Ident(i@),
            Token::Lit(l) => TokenView::Lit(l@),
            Token::PrimitiveType(p) => TokenView::PrimitiveType(*p),
            Token::CastMode(m) => TokenView::CastMode(*m),
            Token::LeftBracket => TokenView::LeftBracket,
            Token::RightBracket => TokenView::RightBracket,
            Token::Less => TokenView::Less,
            Token::LessEq => TokenView::LessEq,
            Token::Eq => TokenView::Eq,
            Token::DirectiveMarker => TokenView::DirectiveMarker,
            Token::ServiceResponseMarker => TokenView::ServiceResponseMarker,
            Token::Eol => TokenView::Eol,
        }
    }
}

/// A literal as the lexer sees it: its kind and its whole text.
#[derive(Clone, Debug, PartialEq, Eq)]
pub enum Lit {
    /// Integer literal in base 10, with its sign.
    Dec(String),
    /// Integer literal in base 16, with its sign and `0x`.
    Hex(String),
    /// Integer literal in base 8, with its sign and `0o`.
    Oct(String),
    /// Integer literal in base 2, with its sign and `0b`.
    Bin(String),
    /// Boolean true or false.
    Bool(bool),
    /// The text between single quotes.
    Char(String),
    /// Floating point literal, with its sign.
    Float(String),
}

/// Errors that may occur when lexing a literal.
#[derive(Clone, Copy, Debug, PartialEq, Eq, Structural)]
#[non_exhaustive]
pub enum ParseLitError {
    /// Decimal number starts with `+0`
    DecStartsWithPosZero,
    /// Decimal number starts with `-0`
    DecStartsWithNegZero,
    /// Decimal number starts with `0`
    DecStartsWithZero,
    /// String started with "(+|-)0x" and encountered a char that is not a valid hexadecimal
    /// digit (0-f).
    NotValidHex(usize, char),
    /// String started with "(+|-)0o" and encountered a char that is not a valid octal digit
    /// (0-7).
    NotValidOct(usize, char),
    /// String started with "(+|-)0b" and encountered a char that is not a valid binary digit
    /// (0-1).
    NotValidBin(usize, char),
    /// A non valid char inside single quotes (') was encountered.
    NotValidChar(usize, char),
    /// A char that is not valid in decimal literals was encountered.
    NotValidDec(usize, char),
    /// A char that is not valid in a float literals was encountered.
    NotValidFloat(usize, char),
}

/// Errors that the lexer reports. It reports none: every token that it returns is `Ok`.
#[derive(Debug, PartialEq)]
pub enum LexicalError {
    /// Kept for errors that the lexer may report in the future; never returned.
    Reserved,
}

// Character classes

/// Whether an identifier may start with `c`.
#[verifier::allow_in_spec]
pub fn allowed_as_identifier_start(c: char) -> bool
    returns
        ('a' <= c && c <= 'z') || ('A' <= c && c <= 'Z'),
{
    (c >= 'a' && c <= 'z') || (c >= 'A' && c <= 'Z')
}

/// Whether an identifier may hold `c`.
#[verifier::allow_in_spec]
pub fn allowed_in_identifier(c: char) -> bool
    returns
        ('a' <= c && c <= 'z') || ('A' <= c && c <= 'Z') || ('0' <= c && c <= '9') || c == '_'
            || c == '-' || c == '.',
{
    (c >= 'a' && c <= 'z') || (c >= 'A' && c <= 'Z') || (c >= '0' && c <= '9') || c == '_'
        || c == '-' || c == '.'
}

/// Whether a literal may start with `c`.
#[verifier::allow_in_spec]
pub fn allowed_as_literal_start(c: char) -> bool
    returns
        c == '+' || c == '-' || c == '\'' || ('0' <= c && c <= '9'),
{
    c == '+' || c == '-' || c == '\'' || is_numeric(c)
}

/// Whether a literal may hold `c`.
#[verifier::allow_in_spec]
pub fn allowed_in_literal(c: char) -> bool
    returns
        c == '+' || c == '-' || c == '.' || c == '\'' || c == '\\' || ('a' <= c && c <= 'z') || (
        'A' <= c && c <= 'Z') || ('0' <= c && c <= '9'),
{
    c == '+' || c == '-' || c == '.' || c == '\'' || c == '\\' || (c >= 'a' && c <= 'z') || (c
        >= 'A' && c <= 'Z') || is_numeric(c)
}

/// Whether a float literal may hold `c`.
#[verifier::allow_in_spec]
pub fn allowed_in_float_literal(c: char) -> bool
    returns
        c == 'e' || c == 'E' || c == '.' || c == '+' || c == '-' || ('0' <= c && c <= '9'),
{
    c == 'e' || c == 'E' || c == '.' || c == '+' || c == '-' || is_numeric(c)
}

/// Whether `c` is a decimal digit.
#[verifier::allow_in_spec]
pub fn is_numeric(c: char) -> bool
    returns
        '0' <= c && c <= '9',
{
    c >= '0' && c <= '9'
}

/// Whether `c` is a lower case hexadecimal digit.
#[verifier::allow_in_spec]
pub fn is_hex_digit(c: char) -> bool
    returns
        ('0' <= c && c <= '9') || ('a' <= c && c <= 'f'),
{
    (c >= '0' && c <= '9') || (c >= 'a' && c <= 'f')
}

/// Whether `c` is an octal digit.
#[verifier::allow_in_spec]
pub fn is_oct_digit(c: char) -> bool
    returns
        '0' <= c && c <= '7',
{
    c >= '0' && c <= '7'
}

/// Whether `c` is a binary digit.
#[verifier::allow_in_spec]
pub fn is_bin_digit(c: char) -> bool
    returns
        '0' <= c && c <= '1',
{
    c >= '0' && c <= '1'
}

/// Whether `c` separates tokens on a line.
#[verifier::allow_in_spec]
pub fn is_whitespace(c: char) -> bool
    returns
        c == ' ' || c == '\t',
{
    c == ' ' || c == '\t'
}

// Literals

/// The kinds of literal whose token keeps the whole text.
#[derive(Clone, Copy, Debug, PartialEq, Eq, Structural)]
pub enum LitKind {
    Dec,
    Hex,
    Oct,
    Bin,
    Float,
}

/// What lexing a literal's text gives, before any string is made.
#[derive(Clone, Debug, PartialEq, Eq, Structural)]
pub enum LitOutcome {
    /// `true` or `false`.
    Bool(bool),
    /// A literal of this kind whose text is the whole input.
    Whole(LitKind),
    /// A character literal: the text between the quotes.
    Char,
    /// A malformed literal.
    Fail(ParseLitError),
    /// A lone quote, on which `Lit::from_str` panics.
    Panic,
}

/// The outcome of checking the characters of `s` from `from` on against `class`.
pub open spec fn digits_outcome(s: Seq<char>, from: int, class: CharClass, kind: LitKind, err: ParseLitError) -> LitOutcome {
    match first_bad(s, from, class) {
        Some(p) => LitOutcome::Fail(bad_char(err, p as usize, s[p])),
        None => LitOutcome::Whole(kind),
    }
}

/// The error of the kind `err` for the character `c` at position `p`.
pub open spec fn bad_char(err: ParseLitError, p: usize, c: char) -> ParseLitError {
    match err {
        ParseLitError::NotValidHex(_, _) => ParseLitError::NotValidHex(p, c),
        ParseLitError::NotValidOct(_, _) => ParseLitError::NotValidOct(p, c),
        ParseLitError::NotValidBin(_, _) => ParseLitError::NotValidBin(p, c),
        ParseLitError::NotValidFloat(_, _) => ParseLitError::NotValidFloat(p, c),
        _ => ParseLitError::NotValidDec(p, c),
    }
}

/// What lexing the literal text `s` gives.
pub open spec fn lit_outcome(s: Seq<char>) -> LitOutcome {
    let hex = ParseLitError::NotValidHex(0, ' ');
    let oct = ParseLitError::NotValidOct(0, ' ');
    let bin = ParseLitError::NotValidBin(0, ' ');
    if s == seq!['t', 'r', 'u', 'e'] {
        LitOutcome::Bool(true)
    } else if s == seq!['f', 'a', 'l', 's', 'e'] {
        LitOutcome::Bool(false)
    } else if has_prefix(s, seq!['0', 'x']) {
        digits_outcome(s, 2, CharClass::LowerHex, LitKind::Hex, hex)
    } else if has_prefix(s, seq!['+', '0', 'x']) || has_prefix(s, seq!['-', '0', 'x']) {
        digits_outcome(s, 3, CharClass::LowerHex, LitKind::Hex, hex)
    } else if has_prefix(s, seq!['0', 'o']) {
        digits_outcome(s, 2, CharClass::Oct, LitKind::Oct, oct)
    } else if has_prefix(s, seq!['+', '0', 'o']) || has_prefix(s, seq!['-', '0', 'o']) {
        digits_outcome(s, 3, CharClass::Oct, LitKind::Oct, oct)
    } else if has_prefix(s, seq!['0', 'b']) {
        digits_outcome(s, 2, CharClass::Bin, LitKind::Bin, bin)
    } else if has_prefix(s, seq!['+', '0', 'b']) || has_prefix(s, seq!['-', '0', 'b']) {
        digits_outcome(s, 3, CharClass::Bin, LitKind::Bin, bin)
    } else if s.len() > 0 && s[0] == '\'' && s[s.len() - 1] == '\'' {
        if s.len() == 1 {
            LitOutcome::Panic
        } else {
            LitOutcome::Char
        }
    } else if s.contains('.') || s.contains('e') || s.contains('E') {
        digits_outcome(
            s,
            leading_sign(s).1,
            CharClass::Float,
            LitKind::Float,
            ParseLitError::NotValidFloat(0, ' '),
        )
    } else if s == seq!['0'] {
        LitOutcome::Whole(LitKind::Dec)
    } else if has_prefix(s, seq!['-', '0']) {
        LitOutcome::Fail(ParseLitError::DecStartsWithNegZero)
    } else if has_prefix(s, seq!['+', '0']) {
        LitOutcome::Fail(ParseLitError::DecStartsWithPosZero)
    } else if has_prefix(s, seq!['0']) {
        LitOutcome::Fail(ParseLitError::DecStartsWithZero)
    } else {
        digits_outcome(
            s,
            leading_sign(s).1,
            CharClass::Numeric,
            LitKind::Dec,
            ParseLitError::NotValidDec(0, ' '),
        )
    }
}

/// Whether `l` is the literal of kind `kind` with text `s`.
pub open spec fn lit_whole(l: Lit, kind: LitKind, s: Seq<char>) -> bool {
    match kind {
        LitKind::Dec => l matches Lit::Dec(t) && t@ == s,
        LitKind::Hex => l matches Lit::Hex(t) && t@ == s,
        LitKind::Oct => l matches Lit::Oct(t) && t@ == s,
        LitKind::Bin => l matches Lit::Bin(t) && t@ == s,
        LitKind::Float => l matches Lit::Float(t) && t@ == s,
    }
}

/// Whether `r` is what lexing the literal text `s` gives.
pub open spec fn lit_result(s: Seq<char>, r: Result<Lit, ParseLitError>) -> bool {
    match lit_outcome(s) {
        LitOutcome::Bool(b) => r == Ok::<Lit, ParseLitError>(Lit::Bool(b)),
        LitOutcome::Whole(kind) => r matches Ok(l) && lit_whole(l, kind, s),
        LitOutcome::Char => r matches Ok(Lit::Char(t)) && t@ == s.subrange(1, s.len() - 1),
        LitOutcome::Fail(e) => r == Err::<Lit, ParseLitError>(e),
        LitOutcome::Panic => false,
    }
}

/// Checks the characters of `v` from `from` on against `class`, and makes a literal of kind
/// `kind` with the whole text.
fn lex_checked(v: &[char], from: usize, class: CharClass, kind: LitKind, err: ParseLitError) -> (r: Result<Lit, ParseLitError>)
    ensures
        match digits_outcome(v@, from as int, class, kind, err) {
            LitOutcome::Fail(e) => r == Err::<Lit, ParseLitError>(e),
            LitOutcome::Whole(k) => r matches Ok(l) && lit_whole(l, k, v@),
            _ => false,
        },
{
    match find_bad(v, from, class) {
        Some((p, c)) => match err {
            ParseLitError::NotValidHex(_, _) => Err(ParseLitError::NotValidHex(p, c)),
            ParseLitError::NotValidOct(_, _) => Err(ParseLitError::NotValidOct(p, c)),
            ParseLitError::NotValidBin(_, _) => Err(ParseLitError::NotValidBin(p, c)),
            ParseLitError::NotValidFloat(_, _) => Err(ParseLitError::NotValidFloat(p, c)),
            _ => Err(ParseLitError::NotValidDec(p, c)),
        },
        None => {
            let text = string_of_range(v, 0, v.len());
            assert(v@.subrange(0, v@.len() as int) =~= v@);
            match kind {
                LitKind::Dec => Ok(Lit::Dec(text)),
                LitKind::Hex => Ok(Lit::Hex(text)),
                LitKind::Oct => Ok(Lit::Oct(text)),
                LitKind::Bin => Ok(Lit::Bin(text)),
                LitKind::Float => Ok(Lit::Float(text)),
            }
        },
    }
}

/// Whether `v` holds `c`.
fn holds(v: &[char], c: char) -> (r: bool)
    ensures
        r == v@.contains(c),
{
    let mut i: usize = 0;
    while i < v.len()
        invariant
            0 <= i <= v.len(),
            forall|j: int| 0 <= j < i ==> v@[j] != c,
        decreases v.len() - i,
    {
        if v[i] == c {
            return true;
        }
        i = i + 1;
    }
    false
}

/// Lexes the literal text `v`.
pub fn lex_literal(v: &[char]) -> (r: Result<Lit, ParseLitError>)
    requires
        lit_outcome(v@) != LitOutcome::Panic,
    ensures
        lit_result(v@, r),
{
    proof {
        reveal_strlit("true");
        reveal_strlit("false");
        reveal_strlit("0x");
        reveal_strlit("+0x");
        reveal_strlit("-0x");
        reveal_strlit("0o");
        reveal_strlit("+0o");
        reveal_strlit("-0o");
        reveal_strlit("0b");
        reveal_strlit("+0b");
        reveal_strlit("-0b");
        reveal_strlit("-0");
        reveal_strlit("+0");
        reveal_strlit("0");
        assert("true"@ =~= seq!['t', 'r', 'u', 'e']);
        assert("false"@ =~= seq!['f', 'a', 'l', 's', 'e']);
        assert("0x"@ =~= seq!['0', 'x']);
        assert("+0x"@ =~= seq!['+', '0', 'x']);
        assert("-0x"@ =~= seq!['-', '0', 'x']);
        assert("0o"@ =~= seq!['0', 'o']);
        assert("+0o"@ =~= seq!['+', '0', 'o']);
        assert("-0o"@ =~= seq!['-', '0', 'o']);
        assert("0b"@ =~= seq!['0', 'b']);
        assert("+0b"@ =~= seq!['+', '0', 'b']);
        assert("-0b"@ =~= seq!['-', '0', 'b']);
        assert("-0"@ =~= seq!['-', '0']);
        assert("+0"@ =~= seq!['+', '0']);
        assert("0"@ =~= seq!['0']);
        assert(v@.subrange(0, 1) =~= v@.take(1));
        assert(v@.subrange(0, 2) =~= v@.take(2));
        assert(v@.subrange(0, 3) =~= v@.take(3));
    }
    let hex = ParseLitError::NotValidHex(0, ' ');
    let oct = ParseLitError::NotValidOct(0, ' ');
    let bin = ParseLitError::NotValidBin(0, ' ');
    if str_equals(v, "true") {
        Ok(Lit::Bool(true))
    } else if str_equals(v, "false") {
        Ok(Lit::Bool(false))
    } else if starts_with_at(v, 0, "0x") {
        lex_checked(v, 2, CharClass::LowerHex, LitKind::Hex, hex)
    } else if starts_with_at(v, 0, "+0x") || starts_with_at(v, 0, "-0x") {
        lex_checked(v, 3, CharClass::LowerHex, LitKind::Hex, hex)
    } else if starts_with_at(v, 0, "0o") {
        lex_checked(v, 2, CharClass::Oct, LitKind::Oct, oct)
    } else if starts_with_at(v, 0, "+0o") || starts_with_at(v, 0, "-0o") {
        lex_checked(v, 3, CharClass::Oct, LitKind::Oct, oct)
    } else if starts_with_at(v, 0, "0b") {
        lex_checked(v, 2, CharClass::Bin, LitKind::Bin, bin)
    } else if starts_with_at(v, 0, "+0b") || starts_with_at(v, 0, "-0b") {
        lex_checked(v, 3, CharClass::Bin, LitKind::Bin, bin)
    } else if v.len() > 0 && v[0] == '\'' && v[v.len() - 1] == '\'' {
        Ok(Lit::Char(string_of_range(v, 1, v.len() - 1)))
    } else if holds(v, '.') || holds(v, 'e') || holds(v, 'E') {
        let skip = sign_length(v);
        lex_checked(v, skip, CharClass::Float, LitKind::Float, ParseLitError::NotValidFloat(0, ' '))
    } else if str_equals(v, "0") {
        let text = string_of_range(v, 0, v.len());
        assert(v@.subrange(0, v@.len() as int) =~= v@);
        Ok(Lit::Dec(text))
    } else if starts_with_at(v, 0, "-0") {
        Err(ParseLitError::DecStartsWithNegZero)
    } else if starts_with_at(v, 0, "+0") {
        Err(ParseLitError::DecStartsWithPosZero)
    } else if starts_with_at(v, 0, "0") {
        Err(ParseLitError::DecStartsWithZero)
    } else {
        let skip = sign_length(v);
        lex_checked(v, skip, CharClass::Numeric, LitKind::Dec, ParseLitError::NotValidDec(0, ' '))
    }
}

/// How many characters a leading `+` or `-` takes.
fn sign_length(v: &[char]) -> (n: usize)
    ensures
        n as int == leading_sign(v@).1,
{
    if v.len() > 0 && (v[0] == '+' || v[0] == '-') {
        1
    } else {
        0
    }
}

impl Lit {
    /// Lexes a literal: `true`, `false`, an integer in base 16 (`0x`, lower case digits), 8
    /// (`0o`), 2 (`0b`) or 10 (zero itself, or a number without leading zero), a float, or a
    /// character in single quotes.
    pub fn from_str(s: &str) -> (r: Result<Lit, ParseLitError>)
        requires
            lit_outcome(s@) != LitOutcome::Panic,
        ensures
            lit_result(s@, r),
    {
        let v = chars_of(s);
        lex_literal(v.as_slice())
    }
}

// The lexer

/// The runs of characters that the lexer skips over or takes as one token.
#[derive(Clone, Copy, Debug, PartialEq, Eq, Structural)]
pub enum Run {
    Whitespace,
    LineText,
    Dash,
    Literal,
    Identifier,
}

/// Whether `c` continues a run of the kind `r`.
pub open spec fn run_ok(r: Run, c: char) -> bool {
    match r {
        Run::Whitespace => is_whitespace(c),
        Run::LineText => c != '\r' && c != '\n',
        Run::Dash => c == '-',
        Run::Literal => allowed_in_literal(c),
        Run::Identifier => allowed_in_identifier(c),
    }
}

/// Where the run of the kind `r` that starts at `p` ends.
pub open spec fn run_end(s: Seq<char>, p: int, r: Run) -> int
    decreases s.len() - p,
{
    if p < 0 || p >= s.len() || !run_ok(r, s[p]) {
        p
    } else {
        run_end(s, p + 1, r)
    }
}

/// The character at position `n`, if there is one.
pub open spec fn look(s: Seq<char>, n: int) -> Option<char> {
    if 0 <= n < s.len() {
        Some(s[n])
    } else {
        None
    }
}

/// The first position from `j` on whose byte offset is `target`, if the offsets reach
/// `target` exactly.
pub open spec fn boundary_at(s: Seq<char>, j: int, target: int) -> Option<int>
    decreases s.len() - j,
{
    if j < 0 || j > s.len() {
        None
    } else if byte_off(s, j) == target {
        Some(j)
    } else if byte_off(s, j) > target || j == s.len() {
        None
    } else {
        boundary_at(s, j + 1, target)
    }
}

/// The kinds of token, with where the text of a comment ends.
pub enum TokenShape {
    Comment { text_end: int },
    Eol,
    DirectiveMarker,
    ServiceResponseMarker,
    LeftBracket,
    RightBracket,
    Less,
    LessEq,
    Eq,
    Literal,
    Word,
}

/// What the lexer does next: report the end, or a token with its character positions and the
/// byte offset where its span ends; or it is stuck, where it panics.
pub enum LexStep {
    End { next: int },
    Stuck,
    Emit { shape: TokenShape, start: int, next: int, span_end: int },
}

/// A token that starts at `p` and takes one character.
pub open spec fn single(shape: TokenShape, p: int, o: int) -> LexStep {
    LexStep::Emit { shape, start: p, next: p + 1, span_end: o + 1 }
}

/// What the lexer does next in the text `s`, from position `p0`.
pub open spec fn lex_step(s: Seq<char>, p0: int) -> LexStep {
    let p = run_end(s, p0, Run::Whitespace);
    let o = byte_off(s, p) as int;
    if p >= s.len() {
        LexStep::End { next: p }
    } else {
        let c = s[p];
        if c == '#' {
            let e = run_end(s, p + 1, Run::LineText);
            match boundary_at(s, p, o + (e - p)) {
                Some(j) => LexStep::Emit {
                    shape: TokenShape::Comment { text_end: j },
                    start: p,
                    next: e,
                    span_end: o + (e - p) + 1,
                },
                None => LexStep::Stuck,
            }
        } else if c == '\r' && look(s, o + 1) == Some('\n') {
            if p + 1 < s.len() && s[p + 1] == '\n' {
                LexStep::Emit { shape: TokenShape::Eol, start: p, next: p + 2, span_end: o + 2 }
            } else {
                LexStep::Stuck
            }
        } else if c == '\n' {
            single(TokenShape::Eol, p, o)
        } else if c == '\r' {
            LexStep::Stuck
        } else if c == '@' {
            single(TokenShape::DirectiveMarker, p, o)
        } else if c == '-' && look(s, o + 1) == Some('-') {
            let e = run_end(s, p + 1, Run::Dash);
            if e - (p + 1) == 2 {
                LexStep::Emit {
                    shape: TokenShape::ServiceResponseMarker,
                    start: p,
                    next: e,
                    span_end: o + 3,
                }
            } else {
                LexStep::Stuck
            }
        } else if c == '[' {
            single(TokenShape::LeftBracket, p, o)
        } else if c == ']' {
            single(TokenShape::RightBracket, p, o)
        } else if c == '<' && look(s, o + 1) == Some('=') {
            if p + 1 < s.len() && s[p + 1] == '=' {
                LexStep::Emit { shape: TokenShape::LessEq, start: p, next: p + 2, span_end: o + 2 }
            } else {
                LexStep::Stuck
            }
        } else if c == '<' {
            single(TokenShape::Less, p, o)
        } else if c == '=' {
            single(TokenShape::Eq, p, o)
        } else if allowed_as_literal_start(c) {
            let e = run_end(s, p + 1, Run::Literal);
            match lit_outcome(s.subrange(p, e)) {
                LitOutcome::Fail(_) => LexStep::Stuck,
                LitOutcome::Panic => LexStep::Stuck,
                _ => LexStep::Emit {
                    shape: TokenShape::Literal,
                    start: p,
                    next: e,
                    span_end: o + (e - p),
                },
            }
        } else if allowed_as_identifier_start(c) {
            let e = run_end(s, p + 1, Run::Identifier);
            LexStep::Emit { shape: TokenShape::Word, start: p, next: e, span_end: o + (e - p) }
        } else {
            LexStep::Stuck
        }
    }
}

/// The token that a word (an identifier-like run) is: a primitive type, a cast mode, a
/// boolean literal, or else an identifier.
pub open spec fn word_token(w: Seq<char>, t: Token) -> bool {
    if exists|q: PrimitiveType| prim_name(q) == w {
        t matches Token::PrimitiveType(q) && prim_name(q) == w
    } else if w == seq!['t', 'r', 'u', 'n', 'c', 'a', 't', 'e', 'd'] {
        t == Token::CastMode(CastMode::Truncated)
    } else if w == seq!['s', 'a', 't', 'u', 'r', 'a', 't', 'e', 'd'] {
        t == Token::CastMode(CastMode::Saturated)
    } else if w == seq!['t', 'r', 'u', 'e'] {
        t == Token::Lit(Lit::Bool(true))
    } else if w == seq!['f', 'a', 'l', 's', 'e'] {
        t == Token::Lit(Lit::Bool(false))
    } else {
        t matches Token::Ident(id) && id@ == w
    }
}

/// Whether `t` is the token of the kind `shape` that starts at `start` and runs up to `next`.
pub open spec fn token_matches(s: Seq<char>, shape: TokenShape, start: int, next: int, t: Token) -> bool {
    match shape {
        TokenShape::Comment { text_end } => t matches Token::Comment(c) && c@ == s.subrange(
            start + 1,
            text_end,
        ),
        TokenShape::Eol => t == Token::Eol,
        TokenShape::DirectiveMarker => t == Token::DirectiveMarker,
        TokenShape::ServiceResponseMarker => t == Token::ServiceResponseMarker,
        TokenShape::LeftBracket => t == Token::LeftBracket,
        TokenShape::RightBracket => t == Token::RightBracket,
        TokenShape::Less => t == Token::Less,
        TokenShape::LessEq => t == Token::LessEq,
        TokenShape::Eq => t == Token::Eq,
        TokenShape::Literal => t matches Token::Lit(l) && lit_result(
            s.subrange(start, next),
            Ok::<Lit, ParseLitError>(l),
        ),
        TokenShape::Word => word_token(s.subrange(start, next), t),
    }
}

/// A lexer over a text: it hands out one token at a time.
pub struct Lexer {
    input: Vec<char>,
    pos: usize,
    offset: usize,
}

/// The position where the run of the kind `run` that starts at `from` ends.
fn scan(v: &[char], from: usize, run: Run) -> (e: usize)
    requires
        from <= v@.len(),
    ensures
        e as int == run_end(v@, from as int, run),
        from <= e <= v@.len(),
{
    let mut i: usize = from;
    while i < v.len()
        invariant
            from <= i <= v@.len(),
            run_end(v@, from as int, run) == run_end(v@, i as int, run),
        decreases v.len() - i,
    {
        let c = v[i];
        let ok = match run {
            Run::Whitespace => is_whitespace(c),
            Run::LineText => c != '\r' && c != '\n',
            Run::Dash => c == '-',
            Run::Literal => allowed_in_literal(c),
            Run::Identifier => allowed_in_identifier(c),
        };
        if !ok {
            return i;
        }
        i = i + 1;
    }
    i
}

/// The whole text takes its full byte length.
proof fn lemma_byte_off_total(s: Seq<char>)
    ensures
        byte_off(s, s.len() as int) == encode_utf8(s).len(),
{
    assert(s.take(s.len() as int) =~= s);
}

/// The byte offset of position `to`, from that of position `from`.
fn advance(v: &[char], from: usize, off: usize, to: usize) -> (r: usize)
    requires
        from <= to <= v@.len(),
        off == byte_off(v@, from as int),
        encode_utf8(v@).len() < usize::MAX,
    ensures
        r == byte_off(v@, to as int),
{
    let mut i: usize = from;
    let mut o: usize = off;
    while i < to
        invariant
            from <= i <= to <= v@.len(),
            o == byte_off(v@, i as int),
            encode_utf8(v@).len() < usize::MAX,
        decreases to - i,
    {
        proof {
            lemma_byte_off_step(v@, i as int);
            lemma_byte_off_mono(v@, i + 1, v@.len() as int);
            lemma_byte_off_total(v@);
        }
        o = o + char_width(v[i]);
        i = i + 1;
    }
    o
}

/// Whether the text of `v` from `start` up to `end` is `lit`.
fn range_is(v: &[char], start: usize, end: usize, lit: &str) -> (r: bool)
    requires
        start <= end <= v@.len(),
    ensures
        r == (v@.subrange(start as int, end as int) == lit@),
{
    let l = chars_of(lit);
    if end - start != l.len() {
        return false;
    }
    starts_with_at(v, start, lit)
}

/// The token of a word that runs from `p` up to `e`.
fn word(v: &[char], p: usize, e: usize) -> (t: Token)
    requires
        p <= e <= v@.len(),
    ensures
        word_token(v@.subrange(p as int, e as int), t),
{
    let ghost w = v@.subrange(p as int, e as int);
    match parse_primitive(v, p, e) {
        Some(q) => {
            return Token::PrimitiveType(q);
        },
        None => {},
    }
    proof {
        reveal_strlit("truncated");
        reveal_strlit("saturated");
        reveal_strlit("true");
        reveal_strlit("false");
        assert("truncated"@ =~= seq!['t', 'r', 'u', 'n', 'c', 'a', 't', 'e', 'd']);
        assert("saturated"@ =~= seq!['s', 'a', 't', 'u', 'r', 'a', 't', 'e', 'd']);
        assert("true"@ =~= seq!['t', 'r', 'u', 'e']);
        assert("false"@ =~= seq!['f', 'a', 'l', 's', 'e']);
    }
    if range_is(v, p, e, "truncated") {
        Token::CastMode(CastMode::Truncated)
    } else if range_is(v, p, e, "saturated") {
        Token::CastMode(CastMode::Saturated)
    } else if range_is(v, p, e, "true") {
        Token::Lit(Lit::Bool(true))
    } else if range_is(v, p, e, "false") {
        Token::Lit(Lit::Bool(false))
    } else {
        Token::Ident(Ident(string_of_range(v, p, e)))
    }
}

impl Lexer {
    /// The text being lexed.
    pub closed spec fn text(&self) -> Seq<char> {
        self.input@
    }

    /// The position (in characters) up to which the text has been lexed.
    pub closed spec fn position(&self) -> int {
        self.pos as int
    }

    /// Whether the lexer's position and byte offset agree, and the text's byte length fits.
    pub closed spec fn wf(&self) -> bool {
        &&& self.pos <= self.input@.len()
        &&& self.offset == byte_off(self.input@, self.pos as int)
        &&& encode_utf8(self.input@).len() < usize::MAX
    }

    /// A lexer at the start of `input`.
    pub fn new(input: &str) -> (l: Lexer)
        requires
            encode_utf8(input@).len() < usize::MAX,
        ensures
            l.wf(),
            l.text() == input@,
            l.position() == 0,
    {
        let input = chars_of(input);
        assert(input@.take(0) =~= Seq::<char>::empty());
        assert(encode_utf8(Seq::<char>::empty()) =~= Seq::<u8>::empty());
        Lexer { input, pos: 0, offset: 0 }
    }

    /// Moves past the characters up to `to`.
    fn move_to(&mut self, to: usize)
        requires
            old(self).wf(),
            old(self).pos <= to <= old(self).input@.len(),
        ensures
            final(self).wf(),
            final(self).input == old(self).input,
            final(self).pos == to,
    {
        let off = advance(self.input.as_slice(), self.pos, self.offset, to);
        self.pos = to;
        self.offset = off;
    }

    /// The next token with its span in bytes, or `None` at the end of the text.
    pub fn next(&mut self) -> (r: Option<Spanned<Token, usize, LexicalError>>)
        requires
            old(self).wf(),
            lex_step(old(self).text(), old(self).position()) != LexStep::Stuck,
        ensures
            final(self).wf(),
            final(self).text() == old(self).text(),
            match lex_step(old(self).text(), old(self).position()) {
                LexStep::End { next } => r is None && final(self).position() == next,
                LexStep::Emit { shape, start, next, span_end } => r matches Some(Ok((a, t, b)))
                    && a == byte_off(old(self).text(), start) && b == span_end && token_matches(
                    old(self).text(),
                    shape,
                    start,
                    next,
                    t,
                ) && final(self).position() == next,
                LexStep::Stuck => false,
            },
    {
        let ghost s = self.input@;
        let ghost step = lex_step(s, self.pos as int);
        let p = scan(self.input.as_slice(), self.pos, Run::Whitespace);
        self.move_to(p);
        let o = self.offset;
        let len = self.input.len();
        proof {
            lemma_byte_off_mono(s, p as int, len as int);
            lemma_byte_off_total(s);
        }
        if p >= len {
            return None;
        }
        let c = self.input[p];
        if c == '#' {
            let e = scan(self.input.as_slice(), p + 1, Run::LineText);
            let length = e - p;
            proof {
                lemma_byte_off_mono(s, p as int, e as int);
                lemma_byte_off_mono(s, e as int, len as int);
            }
            let target = o + length;
            let mut j: usize = p;
            let mut off: usize = o;
            while off < target
                invariant
                    p <= j <= e <= len,
                    len == s.len(),
                    s == self.input@,
                    off == byte_off(s, j as int),
                    target == o + (e - p),
                    target <= byte_off(s, e as int),
                    byte_off(s, e as int) < usize::MAX,
                    boundary_at(s, p as int, target as int) == boundary_at(s, j as int, target as int),
                decreases e - j,
            {
                proof {
                    lemma_byte_off_step(s, j as int);
                    lemma_byte_off_mono(s, j + 1, e as int);
                }
                off = off + char_width(self.input[j]);
                j = j + 1;
            }
            if off != target {
                proof {
                    assert(boundary_at(s, j as int, target as int) is None);
                }
                return None;
            }
            let text = string_of_range(self.input.as_slice(), p + 1, j);
            self.move_to(e);
            return Some(Ok((o, Token::Comment(Comment(text)), o + length + 1)));
        }
        let next_is_lf = o < usize::MAX - 1 && o + 1 < len && self.input[o + 1] == '\n';
        let next_is_eq = o < usize::MAX - 1 && o + 1 < len && self.input[o + 1] == '=';
        let next_is_dash = o < usize::MAX - 1 && o + 1 < len && self.input[o + 1] == '-';
        if c == '\r' && next_is_lf {
            self.move_to(p + 2);
            return Some(Ok((o, Token::Eol, o + 2)));
        }
        if c == '\n' {
            self.move_to(p + 1);
            return Some(Ok((o, Token::Eol, o + 1)));
        }
        if c == '@' {
            self.move_to(p + 1);
            return Some(Ok((o, Token::DirectiveMarker, o + 1)));
        }
        if c == '-' && next_is_dash {
            let e = scan(self.input.as_slice(), p + 1, Run::Dash);
            self.move_to(e);
            return Some(Ok((o, Token::ServiceResponseMarker, o + 3)));
        }
        if c == '[' {
            self.move_to(p + 1);
            return Some(Ok((o, Token::LeftBracket, o + 1)));
        }
        if c == ']' {
            self.move_to(p + 1);
            return Some(Ok((o, Token::RightBracket, o + 1)));
        }
        if c == '<' && next_is_eq {
            self.move_to(p + 2);
            return Some(Ok((o, Token::LessEq, o + 2)));
        }
        if c == '<' {
            self.move_to(p + 1);
            return Some(Ok((o, Token::Less, o + 1)));
        }
        if c == '=' {
            self.move_to(p + 1);
            return Some(Ok((o, Token::Eq, o + 1)));
        }
        if allowed_as_literal_start(c) {
            let e = scan(self.input.as_slice(), p + 1, Run::Literal);
            proof {
                lemma_byte_off_mono(s, p as int, e as int);
                lemma_byte_off_mono(s, e as int, len as int);
            }
            let text = copy_range(self.input.as_slice(), p, e);
            let lit = lex_literal(text.as_slice());
            self.move_to(e);
            match lit {
                Ok(l) => {
                    return Some(Ok((o, Token::Lit(l), o + (e - p))));
                },
                Err(_) => {
                    return None;
                },
            }
        }
        if allowed_as_identifier_start(c) {
            let e = scan(self.input.as_slice(), p + 1, Run::Identifier);
            proof {
                lemma_byte_off_mono(s, p as int, e as int);
                lemma_byte_off_mono(s, e as int, len as int);
            }
            let t = word(self.input.as_slice(), p, e);
            self.move_to(e);
            return Some(Ok((o, t, o + (e - p))));
        }
        None
    }
}

/// The text of a literal token.
pub open spec fn lit_token_text(l: LitView) -> Seq<char> {
    match l {
        LitView::Dec(t) => t,
        LitView::Hex(t) => t,
        LitView::Oct(t) => t,
        LitView::Bin(t) => t,
        LitView::Bool(b) => if b {
            seq!['t', 'r', 'u', 'e']
        } else {
            seq!['f', 'a', 'l', 's', 'e']
        },
        LitView::Char(t) => seq!['\''] + t + seq!['\''],
        LitView::Float(t) => t,
    }
}

/// The text of a token, as it stands in DSDL text.
pub open spec fn token_text(t: TokenView) -> Seq<char> {
    match t {
        TokenView::Comment(c) => seq!['#'] + c,
        TokenView::Ident(x) => x,
        TokenView::Lit(l) => lit_token_text(l),
        TokenView::PrimitiveType(p) => prim_name(p),
        TokenView::CastMode(m) => crate::ast::cast_mode::cast_mode_name(m),
        TokenView::LeftBracket => seq!['['],
        TokenView::RightBracket => seq![']'],
        TokenView::Less => seq!['<'],
        TokenView::LessEq => seq!['<', '='],
        TokenView::Eq => seq!['='],
        TokenView::DirectiveMarker => seq!['@'],
        TokenView::ServiceResponseMarker => seq!['-', '-', '-'],
        TokenView::Eol => seq!['\n'],
    }
}

impl Token {
    /// The token's text, as it stands in DSDL text.
    pub fn to_string(&self) -> (s: String)
        ensures
            s@ == token_text(self@),
    {
        let mut s = String::new();
        match self {
            Token::Comment(c) => {
                push_char(&mut s, '#');
                let v = chars_of(c.as_str());
                push_chars(&mut s, v.as_slice());
            },
            Token::Ident(x) => {
                let v = chars_of(x.as_str());
                push_chars(&mut s, v.as_slice());
            },
            Token::Lit(l) => match l {
                Lit::Dec(t) | Lit::Hex(t) | Lit::Oct(t) | Lit::Bin(t) | Lit::Float(t) => {
                    let v = chars_of(t.as_str());
                    push_chars(&mut s, v.as_slice());
                },
                Lit::Bool(b) => {
                    proof {
                        reveal_strlit("true");
                        reveal_strlit("false");
                        assert("true"@ =~= seq!['t', 'r', 'u', 'e']);
                        assert("false"@ =~= seq!['f', 'a', 'l', 's', 'e']);
                    }
                    let v = if *b {
                        chars_of("true")
                    } else {
                        chars_of("false")
                    };
                    push_chars(&mut s, v.as_slice());
                },
                Lit::Char(t) => {
                    push_char(&mut s, '\'');
                    let v = chars_of(t.as_str());
                    push_chars(&mut s, v.as_slice());
                    push_char(&mut s, '\'');
                },
            },
            Token::PrimitiveType(p) => {
                p.write_to(&mut s);
            },
            Token::CastMode(m) => {
                let t = m.to_string();
                let v = chars_of(t.as_str());
                push_chars(&mut s, v.as_slice());
            },
            Token::LeftBracket => push_char(&mut s, '['),
            Token::RightBracket => push_char(&mut s, ']'),
            Token::Less => push_char(&mut s, '<'),
            Token::LessEq => {
                push_char(&mut s, '<');
                push_char(&mut s, '=');
            },
            Token::Eq => push_char(&mut s, '='),
            Token::DirectiveMarker => push_char(&mut s, '@'),
            Token::ServiceResponseMarker => {
                push_char(&mut s, '-');
                push_char(&mut s, '-');
                push_char(&mut s, '-');
            },
            Token::Eol => push_char(&mut s, '\n'),
        }
        assert(s@ =~= token_text(self@));
        s
    }
}

/// A run ends at or after its start.
pub proof fn lemma_run_end_bounds(s: Seq<char>, p: int, r: Run)
    requires
        0 <= p,
    ensures
        p <= run_end(s, p, r),
        p <= s.len() ==> run_end(s, p, r) <= s.len(),
    decreases s.len() - p,
{
    if p < s.len() && run_ok(r, s[p]) {
        lemma_run_end_bounds(s, p + 1, r);
    }
}

/// Each token that the lexer emits takes it past where it was.
pub proof fn lemma_lex_step_progress(s: Seq<char>, p0: int)
    requires
        0 <= p0 <= s.len(),
    ensures
        lex_step(s, p0) matches LexStep::Emit { start, next, .. } ==> p0 <= start < next <= s.len(),
        lex_step(s, p0) matches LexStep::End { next } ==> next == s.len(),
{
    lemma_run_end_bounds(s, p0, Run::Whitespace);
    let p = run_end(s, p0, Run::Whitespace);
    if p < s.len() {
        lemma_run_end_bounds(s, p + 1, Run::LineText);
        lemma_run_end_bounds(s, p + 1, Run::Dash);
        lemma_run_end_bounds(s, p + 1, Run::Literal);
        lemma_run_end_bounds(s, p + 1, Run::Identifier);
    }
}

/// Whether the lexer goes through the text from position `p` to its end without getting stuck.
pub open spec fn lexes_fully(s: Seq<char>, p: int) -> bool
    decreases s.len() - p,
{
    if p < 0 || p > s.len() {
        false
    } else {
        match lex_step(s, p) {
            LexStep::End { .. } => true,
            LexStep::Stuck => false,
            LexStep::Emit { next, .. } => {
                proof {
                    lemma_lex_step_progress(s, p);
                }
                lexes_fully(s, next)
            },
        }
    }
}

/// The steps in which the lexer emits tokens, from position `p` to the end of the text.
pub open spec fn lex_trace(s: Seq<char>, p: int) -> Seq<LexStep>
    decreases s.len() - p,
{
    if p < 0 || p > s.len() {
        Seq::<LexStep>::empty()
    } else {
        match lex_step(s, p) {
            LexStep::Emit { next, .. } => {
                proof {
                    lemma_lex_step_progress(s, p);
                }
                seq![lex_step(s, p)] + lex_trace(s, next)
            },
            _ => Seq::<LexStep>::empty(),
        }
    }
}

/// Whether `t` is the spanned token that the emitting step `step` gives in the text `s`.
pub open spec fn emitted(s: Seq<char>, step: LexStep, t: (usize, Token, usize)) -> bool {
    match step {
        LexStep::Emit { shape, start, next, span_end } => t.0 == byte_off(s, start) && t.2
            == span_end && token_matches(s, shape, start, next, t.1),
        _ => false,
    }
}

/// Whether `toks` are the tokens that the lexer gives for the text `s`, in order.
pub open spec fn is_lexing_of(s: Seq<char>, toks: Seq<(usize, Token, usize)>) -> bool {
    &&& toks.len() == lex_trace(s, 0).len()
    &&& forall|k: int| 0 <= k < toks.len() ==> emitted(s, #[trigger] lex_trace(s, 0)[k], toks[k])
}

/// A run that has ended ends where it is.
proof fn lemma_run_end_fixed(s: Seq<char>, p: int, r: Run)
    requires
        0 <= p <= s.len(),
    ensures
        run_end(s, run_end(s, p, r), r) == run_end(s, p, r),
    decreases s.len() - p,
{
    if p < s.len() && run_ok(r, s[p]) {
        lemma_run_end_fixed(s, p + 1, r);
    }
}

/// Whether a literal's text makes the lexer panic: a single quote alone.
fn lit_panics(v: &[char]) -> (r: bool)
    ensures
        r == (lit_outcome(v@) == LitOutcome::Panic),
{
    proof {
        reveal_strlit("true");
        reveal_strlit("false");
        reveal_strlit("0x");
        reveal_strlit("+0x");
        reveal_strlit("-0x");
        reveal_strlit("0o");
        reveal_strlit("+0o");
        reveal_strlit("-0o");
        reveal_strlit("0b");
        reveal_strlit("+0b");
        reveal_strlit("-0b");
        assert(v@.len() == 1 && v@[0] == '\'' ==> v@ =~= seq!['\'']);
    }
    if v.len() != 1 || v[0] != '\'' {
        assert(lit_outcome(v@) != LitOutcome::Panic);
        return false;
    }
    assert(v@ =~= seq!['\'']);
    assert(!has_prefix(v@, seq!['0', 'x']) && !has_prefix(v@, seq!['+', '0', 'x']) && !has_prefix(
        v@,
        seq!['-', '0', 'x'],
    ));
    assert(!v@.contains('.') && !v@.contains('e') && !v@.contains('E')) by {
        assert(v@[0] == '\'');
    }
    assert(v@ != seq!['t', 'r', 'u', 'e'] && v@ != seq!['f', 'a', 'l', 's', 'e'] && v@ != seq!['0']);
    assert(v@.take(1) =~= v@);
    assert(seq!['\''][0] != seq!['0'][0]);
    assert(!has_prefix(v@, seq!['-', '0']) && !has_prefix(v@, seq!['+', '0']) && !has_prefix(
        v@,
        seq!['0'],
    ));
    assert(!has_prefix(v@, seq!['0', 'o']) && !has_prefix(v@, seq!['+', '0', 'o']) && !has_prefix(
        v@,
        seq!['-', '0', 'o'],
    ));
    assert(!has_prefix(v@, seq!['0', 'b']) && !has_prefix(v@, seq!['+', '0', 'b']) && !has_prefix(
        v@,
        seq!['-', '0', 'b'],
    ));
    true
}

impl Lexer {
    /// Whether the lexer gets stuck at its next step, where it panics. It moves past the
    /// whitespace before that step, which leaves the step as it was.
    pub fn is_stuck(&mut self) -> (r: bool)
        requires
            old(self).wf(),
        ensures
            final(self).wf(),
            final(self).text() == old(self).text(),
            old(self).position() <= final(self).position() <= final(self).text().len(),
            lex_step(final(self).text(), final(self).position()) == lex_step(
                old(self).text(),
                old(self).position(),
            ),
            r == (lex_step(old(self).text(), old(self).position()) == LexStep::Stuck),
    {
        let ghost s = self.input@;
        let ghost p0 = self.pos as int;
        let p = scan(self.input.as_slice(), self.pos, Run::Whitespace);
        proof {
            lemma_run_end_fixed(s, p0, Run::Whitespace);
        }
        self.move_to(p);
        let o = self.offset;
        let len = self.input.len();
        proof {
            lemma_byte_off_mono(s, p as int, len as int);
            lemma_byte_off_total(s);
        }
        if p >= len {
            return false;
        }
        let c = self.input[p];
        if c == '#' {
            let e = scan(self.input.as_slice(), p + 1, Run::LineText);
            let length = e - p;
            proof {
                lemma_byte_off_mono(s, p as int, e as int);
                lemma_byte_off_mono(s, e as int, len as int);
            }
            let target = o + length;
            let mut j: usize = p;
            let mut off: usize = o;
            while off < target
                invariant
                    p <= j <= e <= len,
                    len == s.len(),
                    s == self.input@,
                    off == byte_off(s, j as int),
                    target == o + (e - p),
                    target <= byte_off(s, e as int),
                    byte_off(s, e as int) < usize::MAX,
                    boundary_at(s, p as int, target as int) == boundary_at(s, j as int, target as int),
                decreases e - j,
            {
                proof {
                    lemma_byte_off_step(s, j as int);
                    lemma_byte_off_mono(s, j + 1, e as int);
                }
                off = off + char_width(self.input[j]);
                j = j + 1;
            }
            if off != target {
                proof {
                    assert(boundary_at(s, j as int, target as int) is None);
                }
                return true;
            }
            return false;
        }
        let next_is_lf = o < usize::MAX - 1 && o + 1 < len && self.input[o + 1] == '\n';
        let next_is_eq = o < usize::MAX - 1 && o + 1 < len && self.input[o + 1] == '=';
        let next_is_dash = o < usize::MAX - 1 && o + 1 < len && self.input[o + 1] == '-';
        if c == '\r' && next_is_lf {
            return !(p + 1 < len && self.input[p + 1] == '\n');
        }
        if c == '\n' {
            return false;
        }
        if c == '\r' {
            return true;
        }
        if c == '@' {
            return false;
        }
        if c == '-' && next_is_dash {
            let e = scan(self.input.as_slice(), p + 1, Run::Dash);
            return e - (p + 1) != 2;
        }
        if c == '[' || c == ']' || c == '<' || c == '=' {
            if c == '<' && next_is_eq {
                return !(p + 1 < len && self.input[p + 1] == '=');
            }
            return false;
        }
        if allowed_as_literal_start(c) {
            let e = scan(self.input.as_slice(), p + 1, Run::Literal);
            let text = copy_range(self.input.as_slice(), p, e);
            if lit_panics(text.as_slice()) {
                return true;
            }
            return match lex_literal(text.as_slice()) {
                Ok(_) => false,
                Err(_) => true,
            };
        }
        !allowed_as_identifier_start(c)
    }
}

/// Whether the lexer goes through `input` without getting stuck (where it panics).
pub fn lexes(input: &str) -> (r: bool)
    requires
        encode_utf8(input@).len() < usize::MAX,
    ensures
        r == lexes_fully(input@, 0),
{
    let mut lexer = Lexer::new(input);
    let ghost s = input@;
    loop
        invariant
            lexer.wf(),
            s == input@,
            lexer.text() == s,
            0 <= lexer.position() <= s.len(),
            lexes_fully(s, 0) == lexes_fully(s, lexer.position()),
        decreases s.len() - lexer.position(),
    {
        let ghost p = lexer.position();
        let stuck = lexer.is_stuck();
        let ghost q = lexer.position();
        proof {
            lemma_lex_step_progress(s, q);
            assert(lexes_fully(s, p) == lexes_fully(s, q));
        }
        if stuck {
            assert(!lexes_fully(s, q));
            assert(!lexes_fully(s, 0));
            return false;
        }
        match lexer.next() {
            None => {
                assert(lex_step(s, q) is End);
                assert(lexes_fully(s, q));
                assert(lexes_fully(s, 0));
                return true;
            },
            Some(_) => {
                assert(lex_step(s, q) is Emit);
                assert(lexes_fully(s, q) == lexes_fully(s, lexer.position()));
            },
        }
    }
}

/// All the tokens of `input`, with their spans in bytes.
pub fn tokenize(input: &str) -> (toks: Vec<(usize, Token, usize)>)
    requires
        encode_utf8(input@).len() < usize::MAX,
        lexes_fully(input@, 0),
    ensures
        is_lexing_of(input@, toks@),
{
    let mut lexer = Lexer::new(input);
    let ghost s = input@;
    let mut toks: Vec<(usize, Token, usize)> = Vec::new();
    let ghost mut steps: Seq<LexStep> = Seq::empty();
    assert(lex_trace(s, 0) =~= steps + lex_trace(s, 0));
    loop
        invariant
            lexer.wf(),
            s == input@,
            lexer.text() == s,
            0 <= lexer.position() <= s.len(),
            lexes_fully(s, lexer.position()),
            steps.len() == toks@.len(),
            lex_trace(s, 0) == steps + lex_trace(s, lexer.position()),
            forall|k: int| 0 <= k < toks@.len() ==> emitted(s, #[trigger] steps[k], toks@[k]),
        ensures
            steps.len() == toks@.len(),
            lex_trace(s, 0) == steps,
            forall|k: int| 0 <= k < toks@.len() ==> emitted(s, #[trigger] steps[k], toks@[k]),
        decreases s.len() - lexer.position(),
    {
        let ghost p = lexer.position();
        proof {
            lemma_lex_step_progress(s, p);
        }
        let ghost step = lex_step(s, p);
        match lexer.next() {
            None => {
                assert(lex_trace(s, p) =~= Seq::<LexStep>::empty());
                assert(lex_trace(s, 0) =~= steps);
                break;
            },
            Some(Ok(t)) => {
                proof {
                    let next = lexer.position();
                    assert(lex_trace(s, p) == seq![step] + lex_trace(s, next));
                    assert(emitted(s, step, t));
                    assert(steps + lex_trace(s, p) =~= steps.push(step) + lex_trace(s, next));
                    steps = steps.push(step);
                }
                toks.push(t);
            },
            Some(Err(_)) => {
                assert(false);
                break;
            },
        }
    }
    toks
}

// Spans

/// Every character of a run continues it, and the run ends in the text.
proof fn lemma_run_chars(s: Seq<char>, p: int, r: Run)
    requires
        0 <= p <= s.len(),
    ensures
        p <= run_end(s, p, r) <= s.len(),
        forall|k: int| p <= k < run_end(s, p, r) ==> run_ok(r, #[trigger] s[k]),
    decreases s.len() - p,
{
    if p < s.len() && run_ok(r, s[p]) {
        lemma_run_chars(s, p + 1, r);
    }
}

/// Characters below 128 take one byte each.
proof fn lemma_byte_off_ascii_run(s: Seq<char>, a: int, b: int)
    requires
        0 <= a <= b <= s.len(),
        forall|k: int| a <= k < b ==> (#[trigger] s[k] as u32) < 0x80,
    ensures
        byte_off(s, b) == byte_off(s, a) + (b - a),
    decreases b - a,
{
    if a < b {
        lemma_byte_off_ascii_run(s, a, b - 1);
        lemma_byte_off_step(s, b - 1);
        crate::text::lemma_scalar_width(s[b - 1]);
    }
}

/// The span of a step: it starts at the byte offset of the token's first character and ends
/// after it; but for a comment it ends at the byte offset where the comment's text ends, one
/// past the line ending, counting the text's characters as one byte each.
pub open spec fn step_span_ok(s: Seq<char>, q: int, st: LexStep) -> bool {
    st matches LexStep::Emit { shape, start, next, span_end } && q <= start < next <= s.len()
        && byte_off(s, start) < span_end && (shape is Comment ==> span_end <= byte_off(s, next) + 1)
        && (!(shape is Comment) ==> span_end == byte_off(s, next))
}

/// Each token that the lexer emits lies after where it was, and its span is as
/// `step_span_ok` says.
proof fn lemma_step_span(s: Seq<char>, q: int)
    requires
        0 <= q <= s.len(),
        lex_step(s, q) is Emit,
    ensures
        step_span_ok(s, q, lex_step(s, q)),
{
    lemma_run_chars(s, q, Run::Whitespace);
    let p = run_end(s, q, Run::Whitespace);
    let o = byte_off(s, p) as int;
    let c = s[p];
    lemma_run_chars(s, p + 1, Run::LineText);
    lemma_run_chars(s, p + 1, Run::Dash);
    lemma_run_chars(s, p + 1, Run::Literal);
    lemma_run_chars(s, p + 1, Run::Identifier);
    lemma_byte_off_mono(s, p, s.len() as int);
    if c == '#' {
        let e = run_end(s, p + 1, Run::LineText);
        lemma_byte_off_mono(s, p, e);
    } else if c == '\r' && look(s, o + 1) == Some('\n') {
        lemma_byte_off_ascii_run(s, p, p + 2);
    } else if c == '-' && look(s, o + 1) == Some('-') {
        let e = run_end(s, p + 1, Run::Dash);
        if e - (p + 1) == 2 {
            lemma_byte_off_ascii_run(s, p, e);
        }
    } else if c == '<' && look(s, o + 1) == Some('=') {
        lemma_byte_off_ascii_run(s, p, p + 2);
    } else if allowed_as_literal_start(c) && !(c == '\n' || c == '@' || c == '[' || c == ']' || c
        == '<' || c == '=' || c == '#' || c == '\r') {
        let e = run_end(s, p + 1, Run::Literal);
        lemma_byte_off_ascii_run(s, p, e);
    } else if allowed_as_identifier_start(c) {
        let e = run_end(s, p + 1, Run::Identifier);
        lemma_byte_off_ascii_run(s, p, e);
    } else {
        lemma_byte_off_ascii_run(s, p, p + 1);
    }
}

/// The steps of the lexer from a position on: each is emitted after the one before.
proof fn lemma_trace_spans(s: Seq<char>, p: int)
    requires
        0 <= p <= s.len(),
    ensures
        forall|k: int| 0 <= k < lex_trace(s, p).len() ==> step_span_ok(s, p, #[trigger] lex_trace(s, p)[k]),
        forall|k: int| 0 <= k < lex_trace(s, p).len() - 1 ==> #[trigger] lex_trace(s, p)[k]->Emit_next
            <= lex_trace(s, p)[k + 1]->start,
    decreases s.len() - p,
{
    lemma_lex_step_progress(s, p);
    if let LexStep::Emit { next, .. } = lex_step(s, p) {
        lemma_trace_spans(s, next);
        lemma_step_span(s, p);
        let tr = lex_trace(s, p);
        let rest = lex_trace(s, next);
        assert(tr == seq![lex_step(s, p)] + rest);
        assert forall|k: int| 0 <= k < tr.len() implies step_span_ok(s, p, #[trigger] tr[k]) by {
            if k > 0 {
                assert(tr[k] == rest[k - 1]);
                assert(step_span_ok(s, next, rest[k - 1]));
            }
        }
        assert forall|k: int| 0 <= k < tr.len() - 1 implies #[trigger] tr[k]->Emit_next <= tr[k
            + 1]->start by {
            assert(tr[k + 1] == rest[k]);
            if k > 0 {
                assert(tr[k] == rest[k - 1]);
            } else {
                assert(step_span_ok(s, next, rest[0]));
            }
        }
    }
}

/// The spans of the tokens that the lexer gives a text: each starts before it ends, starts no
/// earlier than the token before it ends, and ends within the text's bytes. A comment's span
/// reaches one byte further: past its line ending, or past the end of the text.
pub proof fn law_token_spans(s: Seq<char>, toks: Seq<(usize, Token, usize)>)
    requires
        is_lexing_of(s, toks),
    ensures
        forall|k: int| 0 <= k < toks.len() ==> (#[trigger] toks[k]).0 < toks[k].2,
        forall|k: int| 0 <= k < toks.len() ==> (#[trigger] toks[k]).2 <= encode_utf8(s).len() + if toks[k].1 is Comment {
            1int
        } else {
            0int
        },
        forall|k: int| 0 <= k < toks.len() - 1 ==> (#[trigger] toks[k + 1]).0 + if toks[k].1 is Comment {
            1int
        } else {
            0int
        } >= toks[k].2,
{
    lemma_trace_spans(s, 0);
    lemma_byte_off_total(s);
    let tr = lex_trace(s, 0);
    assert forall|k: int| 0 <= k < toks.len() implies (#[trigger] toks[k]).0 < toks[k].2 && toks[k].2
        <= encode_utf8(s).len() + if toks[k].1 is Comment {
        1int
    } else {
        0int
    } by {
        assert(emitted(s, tr[k], toks[k]));
        assert(step_span_ok(s, 0, tr[k]));
        lemma_byte_off_mono(s, tr[k]->Emit_next, s.len() as int);
        if !(toks[k].1 is Comment) {
            assert(!(tr[k]->shape is Comment));
        }
    }
    assert forall|k: int| 0 <= k < toks.len() - 1 implies (#[trigger] toks[k + 1]).0 + if toks[k].1 is Comment {
        1int
    } else {
        0int
    } >= toks[k].2 by {
        assert(emitted(s, tr[k], toks[k]));
        assert(emitted(s, tr[k + 1], toks[k + 1]));
        assert(step_span_ok(s, 0, tr[k]));
        assert(step_span_ok(s, 0, tr[k + 1]));
        assert(tr[k]->Emit_next <= tr[k + 1]->start);
        lemma_byte_off_mono(s, tr[k]->Emit_next, tr[k + 1]->start);
        if !(toks[k].1 is Comment) {
            assert(!(tr[k]->shape is Comment));
        }
    }
}

} // verus!
