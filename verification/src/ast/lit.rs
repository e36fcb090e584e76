//! Literals: the values of constant definitions.

use vstd::prelude::*;
use crate::text::chars_of;
use crate::text::push_char;
use crate::text::push_chars;
use crate::text::starts_with_at;
use crate::text::str_equals;
use crate::text::string_of_range;

verus! {

/// A sign of a signed literal (dec int, hex int, float etc)
#[derive(Clone, Copy, Debug, PartialEq, Eq, Structural)]
pub enum Sign {
    /// An explicit positive sign (+)
    Positive,
    /// An explicit negative sign (-)
    Negative,
    /// No explicit sign
    Implicit,
}

/// A constant must be a primitive scalar type (i.e., arrays and nested data structures are
/// not allowed as constant types).
#[derive(Clone, Debug, PartialEq, Eq)]
pub enum Lit {
    /// Integer zero (0) or integer literal in base 10, starting with a non-zero character.
    /// E.g., 123, -12.
    Dec { sign: Sign, value: String },
    /// Integer literal in base 16 prefixed with 0x. E.g., 0x123, -0x12, +0x123.
    Hex { sign: Sign, value: String },
    /// Integer literal in base 8 prefixed with 0o. E.g., 0o123, -0o777, +0o777.
    Oct { sign: Sign, value: String },
    /// Integer literal in base 2 prefixed with 0b. E.g., 0b1101, -0b101101, +0b101101.
    Bin { sign: Sign, value: String },
    /// Boolean true or false.
    Bool(bool),
    /// Single ASCII character, ASCII escape sequence, or ASCII hex literal in single quotes.
    /// E.g., 'a', '\x61', '\n'.
    Char(String),
    /// Floating point literal. Fractional part with an optional exponent part, e.g., 15.75,
    /// 1.575E1, 1575e-2, -2.5e-3, +25E-4.
    Float { sign: Sign, value: String },
}

/// Errors that may occur when parsing `Lit`.
#[derive(Clone, Debug, PartialEq, Eq, Structural)]
#[non_exhaustive]
pub enum ParseLitError {
    /// String started with "(+|-)0x" and encountered a char that is not a valid hexadecimal
    /// digit (0-f).
    NotValidHex(usize, char),
    /// String started with "(+|-)0o" and encountered a char that is not a valid octal digit
    /// (0-7).
    NotValidOct(usize, char),
    /// String started with "(+|-)0b" and encountered a char that is not a valid binary digit
    /// (0-1).
    NotValidBin(usize, char),
    /// A non valid char inside single quotes (') was encountered.
    NotValidChar(usize, char),
    /// A char that is not valid in decimal literals was encountered.
    NotValidDec(usize, char),
    /// A char that is not valid in a float literals was encountered.
    NotValidFloat(usize, char),
}

/// Whether `c` may stand in a float literal.
#[verifier::allow_in_spec]
pub fn allowed_in_float_literal(c: char) -> bool
    returns
        c == 'e' || c == 'E' || c == '.' || c == '+' || c == '-' || ('0' <= c && c <= '9'),
{
    c == 'e' || c == 'E' || c == '.' || c == '+' || c == '-' || is_numeric(c)
}

/// Whether `c` is a decimal digit.
#[verifier::allow_in_spec]
pub fn is_numeric(c: char) -> bool
    returns
        '0' <= c && c <= '9',
{
    c >= '0' && c <= '9'
}

/// Whether `c` is a hexadecimal digit, in either case.
#[verifier::allow_in_spec]
pub fn is_hex_digit(c: char) -> bool
    returns
        ('0' <= c && c <= '9') || ('a' <= c && c <= 'f') || ('A' <= c && c <= 'F'),
{
    (c >= '0' && c <= '9') || (c >= 'a' && c <= 'f') || (c >= 'A' && c <= 'F')
}

/// Whether `c` is an octal digit.
#[verifier::allow_in_spec]
pub fn is_oct_digit(c: char) -> bool
    returns
        '0' <= c && c <= '7',
{
    c >= '0' && c <= '7'
}

/// Whether `c` is a binary digit.
#[verifier::allow_in_spec]
pub fn is_bin_digit(c: char) -> bool
    returns
        '0' <= c && c <= '1',
{
    c >= '0' && c <= '1'
}

/// The characters that a part of a literal may hold.
#[derive(Clone, Copy, Debug, PartialEq, Eq, Structural)]
pub enum CharClass {
    Numeric,
    Hex,
    LowerHex,
    Oct,
    Bin,
    Float,
}

/// Whether `c` belongs to `class`.
pub open spec fn class_ok(class: CharClass, c: char) -> bool {
    match class {
        CharClass::Numeric => is_numeric(c),
        CharClass::Hex => is_hex_digit(c),
        CharClass::LowerHex => crate::lexer::is_hex_digit(c),
        CharClass::Oct => is_oct_digit(c),
        CharClass::Bin => is_bin_digit(c),
        CharClass::Float => allowed_in_float_literal(c),
    }
}

/// The first position from `from` on whose character is not in `class`, if any.
pub open spec fn first_bad(s: Seq<char>, from: int, class: CharClass) -> Option<int>
    decreases s.len() - from,
{
    if from < 0 || from >= s.len() {
        None
    } else if !class_ok(class, s[from]) {
        Some(from)
    } else {
        first_bad(s, from + 1, class)
    }
}

/// The first position from `from` on in `v` whose character is not in `class`, with that
/// character.
pub fn find_bad(v: &[char], from: usize, class: CharClass) -> (r: Option<(usize, char)>)
    ensures
        r matches Some((p, c)) ==> first_bad(v@, from as int, class) == Some(p as int) && v@[p as int] == c,
        r is None ==> first_bad(v@, from as int, class) is None,
{
    let mut i: usize = from;
    while i < v.len()
        invariant
            from <= i,
            first_bad(v@, from as int, class) == first_bad(v@, i as int, class),
        decreases v.len() - i,
    {
        let c = v[i];
        let ok = match class {
            CharClass::Numeric => is_numeric(c),
            CharClass::Hex => is_hex_digit(c),
            CharClass::LowerHex => crate::lexer::is_hex_digit(c),
            CharClass::Oct => is_oct_digit(c),
            CharClass::Bin => is_bin_digit(c),
            CharClass::Float => allowed_in_float_literal(c),
        };
        if !ok {
            return Some((i, c));
        }
        i = i + 1;
    }
    None
}

/// The kinds of literal that carry a sign.
#[derive(Clone, Copy, Debug, PartialEq, Eq, Structural)]
pub enum LitForm {
    Dec,
    Hex,
    Oct,
    Bin,
    Float,
}

/// Whether `l` is a literal of the given form, sign and digits.
pub open spec fn lit_is(l: Lit, form: LitForm, sign: Sign, value: Seq<char>) -> bool {
    match form {
        LitForm::Dec => l matches Lit::Dec { sign: sg, value: v } && sg == sign && v@ == value,
        LitForm::Hex => l matches Lit::Hex { sign: sg, value: v } && sg == sign && v@ == value,
        LitForm::Oct => l matches Lit::Oct { sign: sg, value: v } && sg == sign && v@ == value,
        LitForm::Bin => l matches Lit::Bin { sign: sg, value: v } && sg == sign && v@ == value,
        LitForm::Float => l matches Lit::Float { sign: sg, value: v } && sg == sign && v@
            == value,
    }
}

/// The error for a bad character at position `p`.
pub open spec fn bad_char_error(class: CharClass, p: int, c: char) -> ParseLitError {
    match class {
        CharClass::Numeric => ParseLitError::NotValidDec(p as usize, c),
        CharClass::Hex => ParseLitError::NotValidHex(p as usize, c),
        CharClass::LowerHex => ParseLitError::NotValidHex(p as usize, c),
        CharClass::Oct => ParseLitError::NotValidOct(p as usize, c),
        CharClass::Bin => ParseLitError::NotValidBin(p as usize, c),
        CharClass::Float => ParseLitError::NotValidFloat(p as usize, c),
    }
}

/// The outcome of checking the characters of `s` from `from` on against `class`: the
/// error for the first bad one, or the literal of the given form, sign and digits.
pub open spec fn checked_outcome(
    s: Seq<char>,
    from: int,
    class: CharClass,
    form: LitForm,
    sign: Sign,
    value: Seq<char>,
    r: Result<Lit, ParseLitError>,
) -> bool {
    match first_bad(s, from, class) {
        Some(p) => r == Err::<Lit, ParseLitError>(bad_char_error(class, p, s[p])),
        None => r matches Ok(l) && lit_is(l, form, sign, value),
    }
}

/// Whether `s` starts with `p`.
pub open spec fn has_prefix(s: Seq<char>, p: Seq<char>) -> bool {
    p.len() <= s.len() && s.take(p.len() as int) == p
}

/// The sign that a leading `+` or `-` gives, and how many characters it takes.
pub open spec fn leading_sign(s: Seq<char>) -> (Sign, int) {
    if s.len() > 0 && s[0] == '+' {
        (Sign::Positive, 1)
    } else if s.len() > 0 && s[0] == '-' {
        (Sign::Negative, 1)
    } else {
        (Sign::Implicit, 0)
    }
}

/// What `Lit::from_str` gives for `s`, as the DSDL literal syntax has it: `true` or
/// `false`; an integer in base 16, 8 or 2 after an optional sign and its prefix, whose first
/// bad digit is reported with the error of that base; a character in single quotes; a float
/// (a text with `.`, `e` or `E`); else a decimal integer. The digits of a float or a decimal
/// are checked from just after the optional sign, and a bad one is reported with its position
/// in the whole text.
pub open spec fn lit_parse_spec(s: Seq<char>, r: Result<Lit, ParseLitError>) -> bool {
    let true_word = seq!['t', 'r', 'u', 'e'];
    let false_word = seq!['f', 'a', 'l', 's', 'e'];
    if s == true_word {
        r == Ok::<Lit, ParseLitError>(Lit::Bool(true))
    } else if s == false_word {
        r == Ok::<Lit, ParseLitError>(Lit::Bool(false))
    } else if has_prefix(s, seq!['0', 'x']) {
        checked_outcome(s, 2, CharClass::Hex, LitForm::Hex, Sign::Implicit, s.skip(2), r)
    } else if has_prefix(s, seq!['+', '0', 'x']) {
        checked_outcome(s, 3, CharClass::Hex, LitForm::Hex, Sign::Positive, s.skip(3), r)
    } else if has_prefix(s, seq!['-', '0', 'x']) {
        checked_outcome(s, 3, CharClass::Hex, LitForm::Hex, Sign::Negative, s.skip(3), r)
    } else if has_prefix(s, seq!['0', 'o']) {
        checked_outcome(s, 2, CharClass::Oct, LitForm::Oct, Sign::Implicit, s.skip(2), r)
    } else if has_prefix(s, seq!['+', '0', 'o']) {
        checked_outcome(s, 3, CharClass::Oct, LitForm::Oct, Sign::Positive, s.skip(3), r)
    } else if has_prefix(s, seq!['-', '0', 'o']) {
        checked_outcome(s, 3, CharClass::Oct, LitForm::Oct, Sign::Negative, s.skip(3), r)
    } else if has_prefix(s, seq!['0', 'b']) {
        checked_outcome(s, 2, CharClass::Bin, LitForm::Bin, Sign::Implicit, s.skip(2), r)
    } else if has_prefix(s, seq!['+', '0', 'b']) {
        checked_outcome(s, 3, CharClass::Bin, LitForm::Bin, Sign::Positive, s.skip(3), r)
    } else if has_prefix(s, seq!['-', '0', 'b']) {
        checked_outcome(s, 3, CharClass::Bin, LitForm::Bin, Sign::Negative, s.skip(3), r)
    } else if s.len() > 2 && s[0] == '\'' && s[s.len() - 1] == '\'' {
        r matches Ok(Lit::Char(c)) && c@ == s.subrange(1, s.len() - 1)
    } else if s.contains('.') || s.contains('e') || s.contains('E') {
        checked_outcome(
            s,
            leading_sign(s).1,
            CharClass::Float,
            LitForm::Float,
            leading_sign(s).0,
            s.skip(leading_sign(s).1),
            r,
        )
    } else {
        checked_outcome(
            s,
            leading_sign(s).1,
            CharClass::Numeric,
            LitForm::Dec,
            leading_sign(s).0,
            s.skip(leading_sign(s).1),
            r,
        )
    }
}

/// Whether `v` holds `c`.
fn contains_char(v: &[char], c: char) -> (r: bool)
    ensures
        r == v@.contains(c),
{
    let mut i: usize = 0;
    while i < v.len()
        invariant
            0 <= i <= v.len(),
            forall|j: int| 0 <= j < i ==> v@[j] != c,
        decreases v.len() - i,
    {
        if v[i] == c {
            return true;
        }
        i = i + 1;
    }
    false
}

/// Checks the characters of `v` from `from` on against `class`, and makes the literal of the
/// given form and sign from the characters from `value_start` on.
fn checked_lit(
    v: &[char],
    from: usize,
    class: CharClass,
    form: LitForm,
    sign: Sign,
    value_start: usize,
) -> (r: Result<Lit, ParseLitError>)
    requires
        value_start <= v@.len(),
    ensures
        checked_outcome(v@, from as int, class, form, sign, v@.skip(value_start as int), r),
{
    match find_bad(v, from, class) {
        Some((p, c)) => match class {
            CharClass::Numeric => Err(ParseLitError::NotValidDec(p, c)),
            CharClass::Hex => Err(ParseLitError::NotValidHex(p, c)),
            CharClass::LowerHex => Err(ParseLitError::NotValidHex(p, c)),
            CharClass::Oct => Err(ParseLitError::NotValidOct(p, c)),
            CharClass::Bin => Err(ParseLitError::NotValidBin(p, c)),
            CharClass::Float => Err(ParseLitError::NotValidFloat(p, c)),
        },
        None => {
            let value = string_of_range(v, value_start, v.len());
            assert(v@.subrange(value_start as int, v@.len() as int) =~= v@.skip(value_start as int));
            match form {
                LitForm::Dec => Ok(Lit::Dec { sign, value }),
                LitForm::Hex => Ok(Lit::Hex { sign, value }),
                LitForm::Oct => Ok(Lit::Oct { sign, value }),
                LitForm::Bin => Ok(Lit::Bin { sign, value }),
                LitForm::Float => Ok(Lit::Float { sign, value }),
            }
        },
    }
}

/// The sign that a leading `+` or `-` gives, and how many characters it takes.
fn sign_of(v: &[char]) -> (r: (Sign, usize))
    ensures
        r.0 == leading_sign(v@).0,
        r.1 as int == leading_sign(v@).1,
{
    if v.len() > 0 && v[0] == '+' {
        (Sign::Positive, 1)
    } else if v.len() > 0 && v[0] == '-' {
        (Sign::Negative, 1)
    } else {
        (Sign::Implicit, 0)
    }
}

impl Lit {
    /// Parses a literal: `true`, `false`, an integer in base 16 (`0x`), 8 (`0o`), 2 (`0b`)
    /// or 10, a float, or a character in single quotes.
    pub fn from_str(s: &str) -> (r: Result<Lit, ParseLitError>)
        ensures
            lit_parse_spec(s@, r),
    {
        let v = chars_of(s);
        let w = v.as_slice();
        proof {
            reveal_strlit("true");
            reveal_strlit("false");
            reveal_strlit("0x");
            reveal_strlit("+0x");
            reveal_strlit("-0x");
            reveal_strlit("0o");
            reveal_strlit("+0o");
            reveal_strlit("-0o");
            reveal_strlit("0b");
            reveal_strlit("+0b");
            reveal_strlit("-0b");
            assert("true"@ =~= seq!['t', 'r', 'u', 'e']);
            assert("false"@ =~= seq!['f', 'a', 'l', 's', 'e']);
            assert("0x"@ =~= seq!['0', 'x']);
            assert("+0x"@ =~= seq!['+', '0', 'x']);
            assert("-0x"@ =~= seq!['-', '0', 'x']);
            assert("0o"@ =~= seq!['0', 'o']);
            assert("+0o"@ =~= seq!['+', '0', 'o']);
            assert("-0o"@ =~= seq!['-', '0', 'o']);
            assert("0b"@ =~= seq!['0', 'b']);
            assert("+0b"@ =~= seq!['+', '0', 'b']);
            assert("-0b"@ =~= seq!['-', '0', 'b']);
            assert(v@.subrange(0, 2) =~= v@.take(2));
            assert(v@.subrange(0, 3) =~= v@.take(3));
        }
        if str_equals(w, "true") {
            Ok(Lit::Bool(true))
        } else if str_equals(w, "false") {
            Ok(Lit::Bool(false))
        } else if starts_with_at(w, 0, "0x") {
            checked_lit(w, 2, CharClass::Hex, LitForm::Hex, Sign::Implicit, 2)
        } else if starts_with_at(w, 0, "+0x") {
            checked_lit(w, 3, CharClass::Hex, LitForm::Hex, Sign::Positive, 3)
        } else if starts_with_at(w, 0, "-0x") {
            checked_lit(w, 3, CharClass::Hex, LitForm::Hex, Sign::Negative, 3)
        } else if starts_with_at(w, 0, "0o") {
            checked_lit(w, 2, CharClass::Oct, LitForm::Oct, Sign::Implicit, 2)
        } else if starts_with_at(w, 0, "+0o") {
            checked_lit(w, 3, CharClass::Oct, LitForm::Oct, Sign::Positive, 3)
        } else if starts_with_at(w, 0, "-0o") {
            checked_lit(w, 3, CharClass::Oct, LitForm::Oct, Sign::Negative, 3)
        } else if starts_with_at(w, 0, "0b") {
            checked_lit(w, 2, CharClass::Bin, LitForm::Bin, Sign::Implicit, 2)
        } else if starts_with_at(w, 0, "+0b") {
            checked_lit(w, 3, CharClass::Bin, LitForm::Bin, Sign::Positive, 3)
        } else if starts_with_at(w, 0, "-0b") {
            checked_lit(w, 3, CharClass::Bin, LitForm::Bin, Sign::Negative, 3)
        } else if w.len() > 2 && w[0] == '\'' && w[w.len() - 1] == '\'' {
            Ok(Lit::Char(string_of_range(w, 1, w.len() - 1)))
        } else if contains_char(w, '.') || contains_char(w, 'e') || contains_char(w, 'E') {
            let (sign, skip) = sign_of(w);
            checked_lit(w, skip, CharClass::Float, LitForm::Float, sign, skip)
        } else {
            let (sign, skip) = sign_of(w);
            checked_lit(w, skip, CharClass::Numeric, LitForm::Dec, sign, skip)
        }
    }
}

/// The text of a sign.
pub open spec fn sign_text(s: Sign) -> Seq<char> {
    match s {
        Sign::Implicit => Seq::<char>::empty(),
        Sign::Positive => seq!['+'],
        Sign::Negative => seq!['-'],
    }
}

/// The text of a literal, as `Display` writes it.
pub open spec fn lit_text(l: Lit) -> Seq<char> {
    match l {
        Lit::Dec { sign, value } => sign_text(sign) + value@,
        Lit::Hex { sign, value } => sign_text(sign) + seq!['0', 'x'] + value@,
        Lit::Bin { sign, value } => sign_text(sign) + seq!['0', 'b'] + value@,
        Lit::Oct { sign, value } => sign_text(sign) + seq!['0', 'o'] + value@,
        Lit::Bool(b) => if b {
            seq!['t', 'r', 'u', 'e']
        } else {
            seq!['f', 'a', 'l', 's', 'e']
        },
        Lit::Char(c) => seq!['\''] + c@ + seq!['\''],
        Lit::Float { sign, value } => sign_text(sign) + value@,
    }
}

impl Sign {
    /// Appends the sign, as `Display` writes it, to `s`.
    pub fn write_to(&self, s: &mut String)
        ensures
            final(s)@ == old(s)@ + sign_text(*self),
    {
        match self {
            Sign::Implicit => {
                assert(old(s)@ + sign_text(*self) =~= old(s)@);
            },
            Sign::Positive => push_char(s, '+'),
            Sign::Negative => push_char(s, '-'),
        }
    }
}

/// The text of a radix prefix: `0` and the letter, if any.
pub open spec fn radix_text(radix: Option<char>) -> Seq<char> {
    match radix {
        Some(r) => seq!['0', r],
        None => Seq::<char>::empty(),
    }
}

/// Appends a sign, a radix prefix and digits to `s`.
fn write_signed(s: &mut String, sign: &Sign, radix: Option<char>, value: &String)
    ensures
        final(s)@ == old(s)@ + sign_text(*sign) + radix_text(radix) + value@,
{
    let ghost start = s@;
    sign.write_to(s);
    match radix {
        Some(r) => {
            push_char(s, '0');
            push_char(s, r);
        },
        None => {},
    }
    let v = chars_of(value.as_str());
    push_chars(s, v.as_slice());
    assert(s@ =~= start + sign_text(*sign) + radix_text(radix) + value@);
}

impl Lit {
    /// Appends the literal, as `Display` writes it, to `s`.
    pub fn write_to(&self, s: &mut String)
        ensures
            final(s)@ == old(s)@ + lit_text(*self),
    {
        let ghost start = s@;
        match self {
            Lit::Dec { sign, value } => {
                write_signed(s, sign, None, value);
                assert(s@ =~= start + lit_text(*self));
            },
            Lit::Hex { sign, value } => {
                write_signed(s, sign, Some('x'), value);
                assert(s@ =~= start + lit_text(*self));
            },
            Lit::Bin { sign, value } => {
                write_signed(s, sign, Some('b'), value);
                assert(s@ =~= start + lit_text(*self));
            },
            Lit::Oct { sign, value } => {
                write_signed(s, sign, Some('o'), value);
                assert(s@ =~= start + lit_text(*self));
            },
            Lit::Bool(b) => {
                proof {
                    reveal_strlit("true");
                    reveal_strlit("false");
                    assert("true"@ =~= seq!['t', 'r', 'u', 'e']);
                    assert("false"@ =~= seq!['f', 'a', 'l', 's', 'e']);
                }
                let v = if *b {
                    chars_of("true")
                } else {
                    chars_of("false")
                };
                push_chars(s, v.as_slice());
                assert(s@ =~= start + lit_text(*self));
            },
            Lit::Char(c) => {
                push_char(s, '\'');
                let v = chars_of(c.as_str());
                push_chars(s, v.as_slice());
                push_char(s, '\'');
                assert(s@ =~= start + lit_text(*self));
            },
            Lit::Float { sign, value } => {
                write_signed(s, sign, None, value);
                assert(s@ =~= start + lit_text(*self));
            },
        }
    }

    /// The literal as `Display` writes it.
    pub fn to_string(&self) -> (s: String)
        ensures
            s@ == lit_text(*self),
    {
        let mut s = String::new();
        self.write_to(&mut s);
        assert(Seq::<char>::empty() + lit_text(*self) =~= lit_text(*self));
        s
    }
}

} // verus!
