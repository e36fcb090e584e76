//! Text helpers shared by the lexer, the AST and its textual form: decimal
//! numerals, building strings out of characters, and comparing text.

use vstd::prelude::*;
use vstd::utf8::encode_scalar;
use vstd::utf8::encode_utf8;

verus! {

broadcast use vstd::string::group_string_axioms;

/// The digit character for `d < 10`.
pub open spec fn digit_char(d: nat) -> char {
    if d == 0 {
        '0'
    } else if d == 1 {
        '1'
    } else if d == 2 {
        '2'
    } else if d == 3 {
        '3'
    } else if d == 4 {
        '4'
    } else if d == 5 {
        '5'
    } else if d == 6 {
        '6'
    } else if d == 7 {
        '7'
    } else if d == 8 {
        '8'
    } else {
        '9'
    }
}

/// Whether `c` is one of `0`..`9`.
pub open spec fn is_digit_char(c: char) -> bool {
    '0' <= c && c <= '9'
}

/// The value of a digit character.
pub open spec fn digit_value(c: char) -> nat {
    ((c as int) - ('0' as int)) as nat
}

/// The decimal numeral of `n`, without leading zeros.
pub open spec fn decimal(n: nat) -> Seq<char>
    decreases n,
{
    if n < 10 {
        seq![digit_char(n)]
    } else {
        decimal(n / 10).push(digit_char(n % 10))
    }
}

/// Whether every character of `s` is a digit.
pub open spec fn all_digits(s: Seq<char>) -> bool {
    forall|i: int| 0 <= i < s.len() ==> is_digit_char(#[trigger] s[i])
}

/// The number that a string of digits denotes, leading zeros allowed.
pub open spec fn digits_value(s: Seq<char>) -> nat
    decreases s.len(),
{
    if s.len() == 0 {
        0
    } else {
        digits_value(s.drop_last()) * 10 + digit_value(s.last())
    }
}

pub proof fn lemma_digit_char_value(d: nat)
    requires
        d < 10,
    ensures
        is_digit_char(digit_char(d)),
        digit_value(digit_char(d)) == d,
{
}

/// A decimal numeral is a non-empty string of digits that denotes its number, and it
/// starts with `0` only when it is `0`.
pub proof fn lemma_decimal(n: nat)
    ensures
        decimal(n).len() > 0,
        all_digits(decimal(n)),
        digits_value(decimal(n)) == n,
        decimal(n)[0] == '0' ==> n == 0,
    decreases n,
{
    if n < 10 {
        lemma_digit_char_value(n);
        assert(decimal(n).drop_last() =~= Seq::<char>::empty());
        assert(digits_value(Seq::<char>::empty()) == 0);
        assert(decimal(n).last() == digit_char(n));
        assert(digits_value(decimal(n)) == digits_value(decimal(n).drop_last()) * 10 + digit_value(
            decimal(n).last(),
        ));
    } else {
        lemma_decimal(n / 10);
        lemma_digit_char_value(n % 10);
        assert(decimal(n).drop_last() =~= decimal(n / 10));
        assert(decimal(n).last() == digit_char(n % 10));
        assert(digits_value(decimal(n)) == digits_value(decimal(n / 10)) * 10 + digit_value(
            digit_char(n % 10),
        ));
        assert(n == (n / 10) * 10 + n % 10);
    }
}

/// A string of digits denotes the number of its numeral, once leading zeros are gone.
pub proof fn lemma_decimal_of_digits(s: Seq<char>)
    requires
        s.len() > 0,
        all_digits(s),
        s[0] != '0' || s.len() == 1,
    ensures
        decimal(digits_value(s)) == s,
    decreases s.len(),
{
    if s.len() == 1 {
        assert(s.drop_last() =~= Seq::<char>::empty());
        let c = s[0];
        assert(digits_value(s) == digit_value(c));
        assert(decimal(digits_value(s)) =~= s);
    } else {
        let p = s.drop_last();
        assert(all_digits(p)) by {
            assert forall|i: int| 0 <= i < p.len() implies is_digit_char(#[trigger] p[i]) by {
                assert(p[i] == s[i]);
            }
        }
        lemma_decimal_of_digits(p);
        lemma_digits_value_positive(p);
        let v = digits_value(s);
        let c = s.last();
        assert(is_digit_char(c)) by {
            assert(s[s.len() - 1] == c);
        }
        assert(v == digits_value(p) * 10 + digit_value(c));
        assert(v / 10 == digits_value(p));
        assert(v % 10 == digit_value(c));
        assert(digit_char(digit_value(c)) == c);
        assert(decimal(v) =~= s);
    }
}

/// A string of digits that does not start with `0` denotes a positive number.
pub proof fn lemma_digits_value_positive(s: Seq<char>)
    requires
        s.len() > 0,
        all_digits(s),
        s[0] != '0',
    ensures
        digits_value(s) > 0,
    decreases s.len(),
{
    if s.len() == 1 {
        assert(is_digit_char(s[0]));
    } else {
        let p = s.drop_last();
        assert(all_digits(p)) by {
            assert forall|i: int| 0 <= i < p.len() implies is_digit_char(#[trigger] p[i]) by {
                assert(p[i] == s[i]);
            }
        }
        lemma_digits_value_positive(p);
    }
}

/// The number of bytes that the first `i` characters of `s` take in UTF-8.
pub open spec fn byte_off(s: Seq<char>, i: int) -> nat {
    encode_utf8(s.take(i)).len()
}

/// The UTF-8 encoding of a concatenation is the concatenation of the encodings.
pub proof fn lemma_encode_concat(a: Seq<char>, b: Seq<char>)
    ensures
        encode_utf8(a + b) == encode_utf8(a) + encode_utf8(b),
    decreases a.len(),
{
    if a.len() == 0 {
        assert(a + b =~= b);
        assert(encode_utf8(a) =~= Seq::<u8>::empty());
        assert(encode_utf8(a) + encode_utf8(b) =~= encode_utf8(b));
    } else {
        lemma_encode_concat(a.drop_first(), b);
        assert((a + b).drop_first() =~= a.drop_first() + b);
        assert((a + b)[0] == a[0]);
        assert(encode_utf8(a + b) =~= encode_scalar(a[0] as u32) + encode_utf8(a.drop_first() + b));
    }
}

/// Taking one more character adds the length of its encoding.
pub proof fn lemma_byte_off_step(s: Seq<char>, i: int)
    requires
        0 <= i < s.len(),
    ensures
        byte_off(s, i + 1) == byte_off(s, i) + encode_scalar(s[i] as u32).len(),
{
    assert(s.take(i + 1) =~= s.take(i) + seq![s[i]]);
    lemma_encode_concat(s.take(i), seq![s[i]]);
    assert(seq![s[i]].drop_first() =~= Seq::<char>::empty());
    assert(encode_utf8(seq![s[i]]) =~= encode_scalar(s[i] as u32) + encode_utf8(
        Seq::<char>::empty(),
    ));
    assert(encode_utf8(Seq::<char>::empty()) =~= Seq::<u8>::empty());
}

/// A character takes between one and four bytes in UTF-8.
pub proof fn lemma_scalar_width(c: char)
    ensures
        1 <= encode_scalar(c as u32).len() <= 4,
        (c as u32) < 0x80 ==> encode_scalar(c as u32).len() == 1,
{
    broadcast use vstd::utf8::char_is_scalar;

}

/// Byte offsets grow with the number of characters taken, by at least one byte each.
pub proof fn lemma_byte_off_mono(s: Seq<char>, i: int, j: int)
    requires
        0 <= i <= j <= s.len(),
    ensures
        byte_off(s, i) + (j - i) <= byte_off(s, j),
    decreases j - i,
{
    if i < j {
        lemma_byte_off_mono(s, i, j - 1);
        lemma_byte_off_step(s, j - 1);
        lemma_scalar_width(s[j - 1]);
    }
}

/// The number of bytes that `c` takes in UTF-8.
pub fn char_width(c: char) -> (w: usize)
    ensures
        w as nat == encode_scalar(c as u32).len(),
        1 <= w <= 4,
{
    broadcast use vstd::utf8::char_is_scalar;

    let u = c as u32;
    if u <= 0x7F {
        1
    } else if u <= 0x7FF {
        2
    } else if u <= 0xFFFF {
        3
    } else {
        4
    }
}

/// Appends `c` to `s`.
///
/// Calls `String::push`, which std documents as appending the character to the end of
/// the string.
#[verifier::external_body]
pub(crate) fn push_char(s: &mut String, c: char)
    ensures
        final(s)@ == old(s)@.push(c),
{
    s.push(c);
}

/// The digit character for `d`.
pub fn digit_to_char(d: u64) -> (c: char)
    requires
        d < 10,
    ensures
        c == digit_char(d as nat),
{
    if d == 0 {
        '0'
    } else if d == 1 {
        '1'
    } else if d == 2 {
        '2'
    } else if d == 3 {
        '3'
    } else if d == 4 {
        '4'
    } else if d == 5 {
        '5'
    } else if d == 6 {
        '6'
    } else if d == 7 {
        '7'
    } else if d == 8 {
        '8'
    } else {
        '9'
    }
}

/// Appends the decimal numeral of `n` to `s`.
pub fn push_decimal(s: &mut String, n: u64)
    ensures
        final(s)@ == old(s)@ + decimal(n as nat),
    decreases n,
{
    if n < 10 {
        push_char(s, digit_to_char(n));
        assert(old(s)@.push(digit_char(n as nat)) =~= old(s)@ + decimal(n as nat));
    } else {
        push_decimal(s, n / 10);
        push_char(s, digit_to_char(n % 10));
        assert(old(s)@ + decimal((n / 10) as nat) + seq![digit_char((n % 10) as nat)]
            =~= old(s)@ + decimal(n as nat));
    }
}

/// The lower case hexadecimal digit character for `d < 16`.
pub open spec fn hex_digit_char(d: nat) -> char {
    if d < 10 {
        digit_char(d)
    } else if d == 10 {
        'a'
    } else if d == 11 {
        'b'
    } else if d == 12 {
        'c'
    } else if d == 13 {
        'd'
    } else if d == 14 {
        'e'
    } else {
        'f'
    }
}

/// The lower case hexadecimal numeral of `n`, without leading zeros.
pub open spec fn hex(n: nat) -> Seq<char>
    decreases n,
{
    if n < 16 {
        seq![hex_digit_char(n)]
    } else {
        hex(n / 16).push(hex_digit_char(n % 16))
    }
}

/// Appends the lower case hexadecimal numeral of `n` to `s`.
pub fn push_hex(s: &mut String, n: u64)
    ensures
        final(s)@ == old(s)@ + hex(n as nat),
    decreases n,
{
    if n >= 16 {
        push_hex(s, n / 16);
    }
    let d = n % 16;
    let c = if d < 10 {
        digit_to_char(d)
    } else if d == 10 {
        'a'
    } else if d == 11 {
        'b'
    } else if d == 12 {
        'c'
    } else if d == 13 {
        'd'
    } else if d == 14 {
        'e'
    } else {
        'f'
    };
    push_char(s, c);
    proof {
        if n < 16 {
            assert(old(s)@.push(hex_digit_char(n as nat)) =~= old(s)@ + hex(n as nat));
        } else {
            assert(old(s)@ + hex((n / 16) as nat) + seq![hex_digit_char((n % 16) as nat)]
                =~= old(s)@ + hex(n as nat));
        }
    }
}

/// The decimal numeral of `n`.
pub fn decimal_string(n: u64) -> (s: String)
    ensures
        s@ == decimal(n as nat),
{
    let mut s = String::new();
    push_decimal(&mut s, n);
    assert(Seq::<char>::empty() + decimal(n as nat) =~= decimal(n as nat));
    s
}

/// Appends every character of `chars` to `s`.
pub fn push_chars(s: &mut String, chars: &[char])
    ensures
        final(s)@ == old(s)@ + chars@,
{
    let ghost start = s@;
    let mut i: usize = 0;
    while i < chars.len()
        invariant
            0 <= i <= chars.len(),
            s@ == start + chars@.take(i as int),
        decreases chars.len() - i,
    {
        push_char(s, chars[i]);
        assert(start + chars@.take(i as int) + seq![chars@[i as int]] =~= start + chars@.take(
            i + 1,
        ));
        i = i + 1;
    }
    assert(chars@.take(chars.len() as int) =~= chars@);
}

/// Appends the characters of `from` at positions `start` up to `end` to `s`.
pub fn push_range(s: &mut String, from: &[char], start: usize, end: usize)
    requires
        start <= end <= from@.len(),
    ensures
        final(s)@ == old(s)@ + from@.subrange(start as int, end as int),
{
    let ghost before = s@;
    let mut i: usize = start;
    while i < end
        invariant
            start <= i <= end,
            end <= from@.len(),
            s@ == before + from@.subrange(start as int, i as int),
        decreases end - i,
    {
        push_char(s, from[i]);
        assert(before + from@.subrange(start as int, i as int) + seq![from@[i as int]]
            =~= before + from@.subrange(start as int, i + 1));
        i = i + 1;
    }
}

/// A string holding the characters of `from` at positions `start` up to `end`.
pub fn string_of_range(from: &[char], start: usize, end: usize) -> (s: String)
    requires
        start <= end <= from@.len(),
    ensures
        s@ == from@.subrange(start as int, end as int),
{
    let mut s = String::new();
    push_range(&mut s, from, start, end);
    assert(Seq::<char>::empty() + from@.subrange(start as int, end as int) =~= from@.subrange(
        start as int,
        end as int,
    ));
    s
}

/// A vector holding the characters of `from` at positions `start` up to `end`.
pub fn copy_range(from: &[char], start: usize, end: usize) -> (v: Vec<char>)
    requires
        start <= end <= from@.len(),
    ensures
        v@ == from@.subrange(start as int, end as int),
{
    let mut v: Vec<char> = Vec::new();
    let mut i: usize = start;
    while i < end
        invariant
            start <= i <= end,
            end <= from@.len(),
            v@ == from@.subrange(start as int, i as int),
        decreases end - i,
    {
        v.push(from[i]);
        assert(v@ =~= from@.subrange(start as int, i + 1));
        i = i + 1;
    }
    v
}

/// The characters of `s`, in order.
pub fn chars_of(s: &str) -> (v: Vec<char>)
    ensures
        v@ == s@,
{
    let mut v: Vec<char> = Vec::new();
    for c in it: s.chars()
        invariant
            v@ == it.seq().take(it.index() as int),
    {
        v.push(c);
    }
    v
}

/// Whether the characters of `a` at positions `start` up to `start + b.len()` are those of `b`.
pub fn range_matches(a: &[char], start: usize, b: &[char]) -> (r: bool)
    ensures
        r == (start + b@.len() <= a@.len() && a@.subrange(start as int, start + b@.len()) == b@),
{
    if start > a.len() || b.len() > a.len() - start {
        return false;
    }
    let mut i: usize = 0;
    while i < b.len()
        invariant
            0 <= i <= b.len(),
            start + b@.len() <= a.len(),
            forall|j: int| 0 <= j < i ==> a@[start + j] == b@[j],
        decreases b.len() - i,
    {
        if a[start + i] != b[i] {
            assert(a@.subrange(start as int, start + b@.len())[i as int] != b@[i as int]);
            return false;
        }
        i = i + 1;
    }
    assert(a@.subrange(start as int, start + b@.len()) =~= b@);
    true
}

/// Whether `s` holds exactly the characters of `lit`.
pub fn str_equals(s: &[char], lit: &str) -> (r: bool)
    ensures
        r == (s@ == lit@),
{
    let l = chars_of(lit);
    if s.len() != l.len() {
        return false;
    }
    let r = range_matches(s, 0, l.as_slice());
    assert(s@.subrange(0, s@.len() as int) =~= s@);
    r
}

/// Whether the characters of `s` from `start` on begin with those of `lit`.
pub fn starts_with_at(s: &[char], start: usize, lit: &str) -> (r: bool)
    ensures
        r == (start + lit@.len() <= s@.len() && s@.subrange(start as int, start + lit@.len())
            == lit@),
{
    let l = chars_of(lit);
    range_matches(s, start, l.as_slice())
}

/// The pieces of `s` between the separators `sep`, in order; there is always at least one.
pub open spec fn split_on(s: Seq<char>, sep: char) -> Seq<Seq<char>>
    decreases s.len(),
{
    if s.len() == 0 {
        seq![Seq::<char>::empty()]
    } else {
        let p = split_on(s.drop_last(), sep);
        if s.last() == sep {
            p.push(Seq::<char>::empty())
        } else {
            p.update(p.len() - 1, p.last().push(s.last()))
        }
    }
}

/// The pieces joined, with `sep` between each two.
pub open spec fn join_on(p: Seq<Seq<char>>, sep: char) -> Seq<char>
    decreases p.len(),
{
    if p.len() == 0 {
        Seq::<char>::empty()
    } else if p.len() == 1 {
        p[0]
    } else {
        join_on(p.drop_last(), sep) + seq![sep] + p.last()
    }
}

pub proof fn lemma_split_on_len(s: Seq<char>, sep: char)
    ensures
        split_on(s, sep).len() >= 1,
    decreases s.len(),
{
    if s.len() > 0 {
        lemma_split_on_len(s.drop_last(), sep);
    }
}

/// The views of a vector of character vectors.
pub open spec fn views(v: Seq<Vec<char>>) -> Seq<Seq<char>> {
    v.map_values(|x: Vec<char>| x@)
}

/// The pieces of `v` between the separators `sep`.
pub fn split_chars(v: &[char], sep: char) -> (r: Vec<Vec<char>>)
    ensures
        views(r@) == split_on(v@, sep),
        r@.len() >= 1,
{
    let mut pieces: Vec<Vec<char>> = Vec::new();
    let mut cur: Vec<char> = Vec::new();
    let mut i: usize = 0;
    assert(v@.take(0) =~= Seq::<char>::empty());
    assert(views(pieces@).push(cur@) =~= split_on(v@.take(0), sep));
    while i < v.len()
        invariant
            0 <= i <= v.len(),
            views(pieces@).push(cur@) == split_on(v@.take(i as int), sep),
        decreases v.len() - i,
    {
        let c = v[i];
        let ghost before = views(pieces@).push(cur@);
        assert(v@.take(i + 1).drop_last() =~= v@.take(i as int));
        assert(v@.take(i + 1).last() == c);
        if c == sep {
            let done = cur;
            pieces.push(done);
            cur = Vec::new();
            assert(views(pieces@).push(cur@) =~= before.push(Seq::<char>::empty()));
        } else {
            cur.push(c);
            assert(views(pieces@).push(cur@) =~= before.update(
                before.len() - 1,
                before.last().push(c),
            ));
        }
        i = i + 1;
    }
    assert(v@.take(v.len() as int) =~= v@);
    let ghost last = cur@;
    pieces.push(cur);
    assert(views(pieces@) =~= split_on(v@, sep));
    pieces
}

/// The number that std's `from_str` for an unsigned integer type of maximum `max` reads
/// from `s`: an optional `+`, then at least one decimal digit, of value at most `max`.
pub open spec fn unsigned_value(s: Seq<char>, max: nat) -> Option<nat> {
    let d = if s.len() > 0 && s[0] == '+' {
        s.skip(1)
    } else {
        s
    };
    if d.len() == 0 || !all_digits(d) || digits_value(d) > max {
        None
    } else {
        Some(digits_value(d))
    }
}

/// Reads an unsigned number of at most `max` from `v`, as std's `from_str` for an unsigned
/// integer type of that maximum does.
pub fn parse_unsigned(v: &[char], max: u64) -> (r: Option<u64>)
    ensures
        r matches Some(n) ==> unsigned_value(v@, max as nat) == Some(n as nat),
        r is None ==> unsigned_value(v@, max as nat) is None,
{
    let start: usize = if v.len() > 0 && v[0] == '+' {
        1
    } else {
        0
    };
    let ghost d = v@.skip(start as int);
    assert(v@.skip(0) =~= v@);
    assert(d == (if v@.len() > 0 && v@[0] == '+' {
        v@.skip(1)
    } else {
        v@
    }));
    if start == v.len() {
        return None;
    }
    let mut value: u64 = 0;
    let mut overflow = false;
    let mut i: usize = start;
    while i < v.len()
        invariant
            start <= i <= v.len(),
            d == v@.skip(start as int),
            d == (if v@.len() > 0 && v@[0] == '+' {
                v@.skip(1)
            } else {
                v@
            }),
            all_digits(v@.subrange(start as int, i as int)),
            !overflow ==> value as nat == digits_value(v@.subrange(start as int, i as int)),
            !overflow ==> value <= max,
            overflow ==> digits_value(v@.subrange(start as int, i as int)) > max,
        decreases v.len() - i,
    {
        let c = v[i];
        let ghost prev = v@.subrange(start as int, i as int);
        let ghost next = v@.subrange(start as int, i + 1);
        assert(next.drop_last() =~= prev);
        assert(next.last() == c);
        if !(c >= '0' && c <= '9') {
            assert(!all_digits(d)) by {
                assert(d[i - start] == c);
            }
            return None;
        }
        let digit = (c as u32 - '0' as u32) as u64;
        assert(digit as nat == digit_value(c));
        assert(digits_value(next) == digits_value(prev) * 10 + digit);
        assert(all_digits(next)) by {
            assert forall|j: int| 0 <= j < next.len() implies is_digit_char(#[trigger] next[j]) by {
                if j < prev.len() {
                    assert(next[j] == prev[j]);
                }
            }
        }
        if !overflow {
            if digit > max || value > (max - digit) / 10 {
                overflow = true;
                assert(digits_value(next) > max) by (nonlinear_arith)
                    requires
                        digits_value(next) == value * 10 + digit,
                        digit > max || value > (max - digit) / 10,
                        digit <= 9,
                ;
            } else {
                assert(value * 10 + digit <= max) by (nonlinear_arith)
                    requires
                        value <= (max - digit) / 10,
                        digit <= 9,
                ;
                value = value * 10 + digit;
            }
        } else {
            assert(digits_value(next) > max) by (nonlinear_arith)
                requires
                    digits_value(prev) > max,
                    digits_value(next) == digits_value(prev) * 10 + digit,
            ;
        }
        i = i + 1;
    }
    assert(v@.subrange(start as int, v.len() as int) =~= d);
    if overflow {
        None
    } else {
        Some(value)
    }
}

} // verus!
