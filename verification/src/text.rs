//! How register values and default register names are written out.

use vstd::prelude::*;

verus! {

/// Appends `c` to `s` (`String::push`).
#[verifier::external_body]
fn push_char(s: &mut String, c: char)
    ensures
        final(s)@ == old(s)@.push(c),
{
    s.push(c);
}

/// The digit character for `d` in bases up to 16: `0`-`9`, then `A`-`F`.
pub open spec fn digit_char(d: int) -> char {
    if d < 10 {
        (48 + d) as char
    } else {
        (55 + d) as char
    }
}

fn digit(d: u8) -> (c: char)
    requires
        d < 16,
    ensures
        c == digit_char(d as int),
{
    if d < 10 {
        (48 + d) as char
    } else {
        (55 + d) as char
    }
}

/// Decimal digits of `n`, most significant first, without leading zeros.
pub open spec fn decimal_digits(n: nat) -> Seq<char>
    decreases n,
{
    if n < 10 {
        seq![digit_char(n as int)]
    } else {
        decimal_digits(n / 10).push(digit_char((n % 10) as int))
    }
}

/// Appends the decimal form of `n` to `s`.
fn push_decimal(s: &mut String, n: u32)
    ensures
        final(s)@ == old(s)@ + decimal_digits(n as nat),
    decreases n,
{
    if n >= 10 {
        push_decimal(s, n / 10);
    }
    push_char(s, digit((n % 10) as u8));
    proof {
        if n < 10 {
            assert(decimal_digits(n as nat) =~= seq![digit_char(n as int)]);
        }
    }
}

/// `n` in decimal.
pub fn decimal_string(n: u32) -> (s: String)
    ensures
        s@ == decimal_digits(n as nat),
{
    let mut s = String::new();
    push_decimal(&mut s, n);
    assert(s@ =~= decimal_digits(n as nat));
    s
}

/// The four upper-case hexadecimal digits of `v`, zero-padded.
pub open spec fn hex4_digits(v: u16) -> Seq<char> {
    seq![
        digit_char(((v >> 12) & 0xF) as int),
        digit_char(((v >> 8) & 0xF) as int),
        digit_char(((v >> 4) & 0xF) as int),
        digit_char((v & 0xF) as int),
    ]
}

/// `v` written as `0x` and four upper-case hexadecimal digits.
pub open spec fn hex_text(v: u16) -> Seq<char> {
    seq!['0', 'x'] + hex4_digits(v)
}

/// Writes `v` as `0x` and four upper-case hexadecimal digits.
pub fn hex_string(v: u16) -> (s: String)
    ensures
        s@ == hex_text(v),
{
    let mut s = String::new();
    push_char(&mut s, '0');
    push_char(&mut s, 'x');
    let n3: u16 = (v >> 12) & 0xF;
    let n2: u16 = (v >> 8) & 0xF;
    let n1: u16 = (v >> 4) & 0xF;
    let n0: u16 = v & 0xF;
    assert(n3 < 16 && n2 < 16 && n1 < 16 && n0 < 16) by (bit_vector)
        requires
            n3 == (v >> 12) & 0xF,
            n2 == (v >> 8) & 0xF,
            n1 == (v >> 4) & 0xF,
            n0 == v & 0xF,
    ;
    push_char(&mut s, digit(n3 as u8));
    push_char(&mut s, digit(n2 as u8));
    push_char(&mut s, digit(n1 as u8));
    push_char(&mut s, digit(n0 as u8));
    assert(s@ =~= hex_text(v));
    s
}

/// The sixteen binary digits of `v`, most significant first.
pub open spec fn binary_text(v: u16) -> Seq<char> {
    Seq::new(16, |k: int| if (v >> ((15 - k) as u16)) & 1 == 1 { '1' } else { '0' })
}

/// Writes `v` as sixteen binary digits, zero-padded.
pub fn binary_string(v: u16) -> (s: String)
    ensures
        s@ == binary_text(v),
{
    let mut s = String::new();
    let mut k: u16 = 0;
    while k < 16
        invariant
            k <= 16,
            s@ =~= binary_text(v).take(k as int),
        decreases 16 - k,
    {
        let bit: u16 = (v >> (15 - k)) & 1;
        if bit == 1 {
            push_char(&mut s, '1');
        } else {
            push_char(&mut s, '0');
        }
        k = k + 1;
    }
    s
}

/// The number a digit character stands for: `0`-`9`, then `A`-`F`.
pub open spec fn digit_value(c: char) -> int {
    if (c as int) < 58 {
        c as int - 48
    } else {
        c as int - 55
    }
}

/// The number that a string of digits in base `base` stands for.
pub open spec fn digits_value(s: Seq<char>, base: int) -> int
    decreases s.len(),
{
    if s.len() == 0 {
        0
    } else {
        digits_value(s.drop_last(), base) * base + digit_value(s.last())
    }
}

proof fn lemma_digit_roundtrip(d: int)
    requires
        0 <= d < 16,
    ensures
        digit_value(digit_char(d)) == d,
{
}

/// The digit characters, all sixteen of them: `0` to `9`, then `A` to `F`.
pub proof fn lemma_digit_chars()
    ensures
        digit_char(0) == '0',
        digit_char(1) == '1',
        digit_char(2) == '2',
        digit_char(3) == '3',
        digit_char(4) == '4',
        digit_char(5) == '5',
        digit_char(6) == '6',
        digit_char(7) == '7',
        digit_char(8) == '8',
        digit_char(9) == '9',
        digit_char(10) == 'A',
        digit_char(11) == 'B',
        digit_char(12) == 'C',
        digit_char(13) == 'D',
        digit_char(14) == 'E',
        digit_char(15) == 'F',
{
}

/// Whether `c` is one of the decimal digits `0` to `9`.
pub open spec fn is_decimal_digit(c: char) -> bool {
    '0' <= c && c <= '9'
}

/// Whether `c` is one of the upper-case hexadecimal digits.
pub open spec fn is_hex_digit(c: char) -> bool {
    ('0' <= c && c <= '9') || ('A' <= c && c <= 'F')
}

/// Decimal text holds only the digits `0` to `9`, starts with `0` only for
/// zero itself, and each digit stands for its distance from `0`, so that
/// the text reads back as the number.
pub proof fn lemma_decimal_text_shape(n: nat)
    ensures
        decimal_digits(n).len() >= 1,
        forall|k: int| 0 <= k < decimal_digits(n).len() ==> #[trigger] is_decimal_digit(decimal_digits(n)[k]),
        forall|k: int| 0 <= k < decimal_digits(n).len() ==>
            #[trigger] digit_value(decimal_digits(n)[k]) == decimal_digits(n)[k] as int - '0' as int,
        n > 0 ==> decimal_digits(n)[0] != '0',
        digits_value(decimal_digits(n), 10) == n,
    decreases n,
{
    lemma_decimal_roundtrip(n);
    if n >= 10 {
        lemma_decimal_text_shape(n / 10);
        let d = decimal_digits(n);
        assert(d[0] == decimal_digits(n / 10)[0]);
    }
}

/// Hexadecimal text is `0x` followed by four upper-case hexadecimal digits.
pub proof fn lemma_hex_text_shape(v: u16)
    ensures
        hex_text(v).len() == 6,
        hex_text(v)[0] == '0',
        hex_text(v)[1] == 'x',
        forall|k: int| 2 <= k < 6 ==> #[trigger] is_hex_digit(hex_text(v)[k]),
{
    let d3 = (v >> 12) & 0xF;
    let d2 = (v >> 8) & 0xF;
    let d1 = (v >> 4) & 0xF;
    let d0 = v & 0xF;
    assert(d3 < 16 && d2 < 16 && d1 < 16 && d0 < 16) by (bit_vector)
        requires
            d3 == (v >> 12) & 0xF,
            d2 == (v >> 8) & 0xF,
            d1 == (v >> 4) & 0xF,
            d0 == v & 0xF,
    ;
}

/// Binary text is sixteen characters, each `0` or `1`.
pub proof fn lemma_binary_text_shape(v: u16)
    ensures
        binary_text(v).len() == 16,
        forall|k: int| 0 <= k < 16 ==> #[trigger] binary_text(v)[k] == '0' || binary_text(v)[k] == '1',
{
}

/// Decimal text reads back as the number it was written from.
pub proof fn lemma_decimal_roundtrip(n: nat)
    ensures
        digits_value(decimal_digits(n), 10) == n,
    decreases n,
{
    if n < 10 {
        lemma_digit_roundtrip(n as int);
        assert(decimal_digits(n).drop_last() =~= Seq::<char>::empty());
        assert(digits_value(Seq::<char>::empty(), 10) == 0);
        assert(decimal_digits(n).last() == digit_char(n as int));
    } else {
        lemma_decimal_roundtrip(n / 10);
        lemma_digit_roundtrip((n % 10) as int);
        assert(decimal_digits(n).drop_last() =~= decimal_digits(n / 10));
        assert(decimal_digits(n).last() == digit_char((n % 10) as int));
        assert(n == (n / 10) * 10 + n % 10) by (nonlinear_arith);
    }
}

/// The four hexadecimal digits read back as the value they were written from.
pub proof fn lemma_hex_roundtrip(v: u16)
    ensures
        digits_value(hex4_digits(v), 16) == v,
{
    let s = hex4_digits(v);
    let d3 = (v >> 12) & 0xF;
    let d2 = (v >> 8) & 0xF;
    let d1 = (v >> 4) & 0xF;
    let d0 = v & 0xF;
    assert(d3 < 16 && d2 < 16 && d1 < 16 && d0 < 16) by (bit_vector)
        requires
            d3 == (v >> 12) & 0xF,
            d2 == (v >> 8) & 0xF,
            d1 == (v >> 4) & 0xF,
            d0 == v & 0xF,
    ;
    lemma_digit_roundtrip(d3 as int);
    lemma_digit_roundtrip(d2 as int);
    lemma_digit_roundtrip(d1 as int);
    lemma_digit_roundtrip(d0 as int);
    assert(s.drop_last().drop_last().drop_last().drop_last() =~= Seq::<char>::empty());
    assert(s.drop_last().drop_last().drop_last() =~= seq![s[0]]);
    assert(s.drop_last().drop_last() =~= seq![s[0], s[1]]);
    assert(s.drop_last() =~= seq![s[0], s[1], s[2]]);
    assert(digits_value(Seq::<char>::empty(), 16) == 0);
    assert(digits_value(seq![s[0]], 16) == d3) by {
        assert(seq![s[0]].drop_last() =~= Seq::<char>::empty());
    }
    assert(digits_value(seq![s[0], s[1]], 16) == d3 * 16 + d2) by {
        assert(seq![s[0], s[1]].drop_last() =~= seq![s[0]]);
    }
    assert(digits_value(seq![s[0], s[1], s[2]], 16) == (d3 * 16 + d2) * 16 + d1) by {
        assert(seq![s[0], s[1], s[2]].drop_last() =~= seq![s[0], s[1]]);
    }
    assert((((d3 * 16 + d2) * 16 + d1) * 16 + d0) as int == v as int) by (bit_vector)
        requires
            d3 == (v >> 12) & 0xF,
            d2 == (v >> 8) & 0xF,
            d1 == (v >> 4) & 0xF,
            d0 == v & 0xF,
    ;
}

proof fn lemma_binary_prefix(v: u16, k: u16)
    requires
        k <= 16,
    ensures
        digits_value(binary_text(v).take(k as int), 2) == (v >> ((16 - k) as u16)),
    decreases k,
{
    if k == 0 {
        assert(binary_text(v).take(0) =~= Seq::<char>::empty());
        assert(v >> 16u16 == 0) by (bit_vector);
    } else {
        let km1: u16 = (k - 1) as u16;
        lemma_binary_prefix(v, km1);
        let t = binary_text(v).take(k as int);
        assert(t.drop_last() =~= binary_text(v).take(km1 as int));
        let sh: u16 = (16 - k) as u16;
        let bit: u16 = (v >> sh) & 1;
        assert(bit <= 1 && (v >> ((sh + 1) as u16)) * 2 + bit == (v >> sh)) by (bit_vector)
            requires
                sh < 16,
                bit == (v >> sh) & 1,
        ;
        assert(digit_value(t.last()) == bit);
    }
}

/// The sixteen binary digits read back as the value they were written from.
pub proof fn lemma_binary_roundtrip(v: u16)
    ensures
        digits_value(binary_text(v), 2) == v,
{
    lemma_binary_prefix(v, 16);
    assert(binary_text(v).take(16) =~= binary_text(v));
    assert(v >> 0u16 == v) by (bit_vector);
}

/// How register values are shown.
#[derive(Debug, Clone, Copy, PartialEq, Eq, Structural)]
pub enum DisplayStyle {
    Decimal,
    Hexadecimal,
    Binary,
}

impl Default for DisplayStyle {
    fn default() -> (style: DisplayStyle)
        ensures
            style == DisplayStyle::Decimal,
    {
        DisplayStyle::Decimal
    }
}

/// The text a register value is shown with in a given style.
pub open spec fn display_text(value: u16, style: DisplayStyle) -> Seq<char> {
    match style {
        DisplayStyle::Decimal => decimal_digits(value as nat),
        DisplayStyle::Hexadecimal => hex_text(value),
        DisplayStyle::Binary => binary_text(value),
    }
}

/// Writes a register value in the given style: decimal, `0x` and four
/// upper-case hex digits, or sixteen binary digits.
pub fn format_register_value(value: u16, style: DisplayStyle) -> (s: String)
    ensures
        s@ == display_text(value, style),
        style == DisplayStyle::Decimal ==> s@ == decimal_digits(value as nat),
        style == DisplayStyle::Hexadecimal ==> s@ == seq!['0', 'x'] + hex4_digits(value),
        style == DisplayStyle::Binary ==> s@ == binary_text(value),
{
    match style {
        DisplayStyle::Decimal => decimal_string(value as u32),
        DisplayStyle::Hexadecimal => hex_string(value),
        DisplayStyle::Binary => binary_string(value),
    }
}

/// The name a register is shown under when it has no alias.
pub open spec fn default_register_name_text(address: u16) -> Seq<char> {
    "寄存器 "@ + decimal_digits(address as nat)
}

/// The name a register is shown under when it has no alias:
/// "寄存器 " and its address in decimal.
pub fn default_register_name(address: u16) -> (name: String)
    ensures
        name@ == default_register_name_text(address),
        name@ == "寄存器 "@ + decimal_digits(address as nat),
{
    let mut name = String::from_str("寄存器 ");
    push_decimal(&mut name, address as u32);
    name
}

} // verus!
