//! Rendering of numbers as text, and text out of bytes.
use vstd::prelude::*;

verus! {

/// `String::push` appends the given character to the end of the string.
pub assume_specification[ String::push ](s: &mut String, c: char)
    ensures
        final(s)@ == old(s)@.push(c),
;

/// The digit of value `d`, from `0` to `9` and then from `A` to `F`.
pub open spec fn digit_char(d: int) -> char {
    if d < 10 {
        ('0' as int + d) as char
    } else {
        ('A' as int + d - 10) as char
    }
}

/// `n` in base ten, without leading zeros.
pub open spec fn decimal(n: nat) -> Seq<char>
    decreases n,
{
    if n < 10 {
        seq![digit_char(n as int)]
    } else {
        decimal(n / 10).push(digit_char((n % 10) as int))
    }
}

/// `n` in base sixteen with upper-case digits, without leading zeros.
pub open spec fn hex_upper(n: nat) -> Seq<char>
    decreases n,
{
    if n < 16 {
        seq![digit_char(n as int)]
    } else {
        hex_upper(n / 16).push(digit_char((n % 16) as int))
    }
}

/// As many copies of `c` as `s` lacks to reach `width` characters.
pub open spec fn filler(s: Seq<char>, width: nat, c: char) -> Seq<char> {
    Seq::new(if s.len() < width { (width - s.len()) as nat } else { 0 }, |i: int| c)
}

/// `n` in upper-case hexadecimal, padded on the left with zeros to `width`.
pub open spec fn hex_padded(n: nat, width: nat) -> Seq<char> {
    filler(hex_upper(n), width, '0') + hex_upper(n)
}

/// What a digit of base ten or sixteen stands for.
pub open spec fn digit_value(c: char) -> int {
    if '0' <= c <= '9' {
        c as int - '0' as int
    } else if 'A' <= c <= 'F' {
        c as int - 'A' as int + 10
    } else {
        16
    }
}

/// The number that `s` writes in base `base`.
pub open spec fn number(s: Seq<char>, base: int) -> int
    decreases s.len(),
{
    if s.len() == 0 {
        0
    } else {
        base * number(s.drop_last(), base) + digit_value(s.last())
    }
}

/// A number is read back from its decimal digits, and the first of them is a
/// zero only in a zero.
pub proof fn law_decimal_is_the_number(n: nat)
    ensures
        number(decimal(n), 10) == n,
        decimal(n).len() > 0,
        decimal(n)[0] == '0' ==> n == 0,
        n < 10 ==> decimal(n).len() == 1,
        forall|i: int|
            0 <= i < decimal(n).len() ==> 0 <= #[trigger] digit_value(decimal(n)[i]) < 10,
    decreases n,
{
    if n < 10 {
        reveal_with_fuel(number, 2);
        assert(decimal(n).drop_last() =~= Seq::<char>::empty());
    } else {
        law_decimal_is_the_number(n / 10);
        assert(decimal(n).drop_last() =~= decimal(n / 10));
    }
}

/// A number is read back from its hexadecimal digits, and the first of them is a
/// zero only in a zero.
pub proof fn law_hex_is_the_number(n: nat)
    ensures
        number(hex_upper(n), 16) == n,
        hex_upper(n).len() > 0,
        hex_upper(n)[0] == '0' ==> n == 0,
        n < 16 ==> hex_upper(n).len() == 1,
        forall|i: int|
            0 <= i < hex_upper(n).len() ==> 0 <= #[trigger] digit_value(hex_upper(n)[i]) < 16,
    decreases n,
{
    if n < 16 {
        reveal_with_fuel(number, 2);
        assert(hex_upper(n).drop_last() =~= Seq::<char>::empty());
    } else {
        law_hex_is_the_number(n / 16);
        assert(hex_upper(n).drop_last() =~= hex_upper(n / 16));
    }
}

/// Padding with zeros makes a number as wide as asked for, unless it is wider by
/// itself, and leaves its value.
pub proof fn law_padded_hex_is_the_number(n: nat, width: nat)
    ensures
        number(hex_padded(n, width), 16) == n,
        hex_padded(n, width).len() >= width,
        hex_padded(n, width).len() > width ==> hex_padded(n, width)[0] != '0' || n == 0,
        forall|i: int|
            0 <= i < hex_padded(n, width).len() ==> 0 <= #[trigger] digit_value(
                hex_padded(n, width)[i],
            ) < 16,
{
    let digits = hex_upper(n);
    let zeros = filler(digits, width, '0');
    law_hex_is_the_number(n);
    lemma_number_behind_zeros(zeros, digits, 16);
    assert forall|i: int| 0 <= i < hex_padded(n, width).len() implies 0 <= #[trigger] digit_value(
        hex_padded(n, width)[i],
    ) < 16 by {
        if i >= zeros.len() {
            assert(hex_padded(n, width)[i] == digits[i - zeros.len()]);
        }
    }
}

proof fn lemma_number_behind_zeros(zeros: Seq<char>, digits: Seq<char>, base: int)
    requires
        forall|i: int| 0 <= i < zeros.len() ==> zeros[i] == '0',
    ensures
        number(zeros + digits, base) == number(digits, base),
    decreases zeros.len() + digits.len(),
{
    if digits.len() > 0 {
        assert((zeros + digits).drop_last() =~= zeros + digits.drop_last());
        lemma_number_behind_zeros(zeros, digits.drop_last(), base);
    } else if zeros.len() > 0 {
        assert((zeros + digits).drop_last() =~= zeros.drop_last() + digits);
        lemma_number_behind_zeros(zeros.drop_last(), digits, base);
        assert(base * 0 == 0) by (nonlinear_arith);
    }
}

/// A byte takes two hexadecimal digits, the upper half first.
pub proof fn law_hex_of_byte(b: u8)
    ensures
        hex_padded(b as nat, 2).len() == 2,
        16 * digit_value(hex_padded(b as nat, 2)[0]) + digit_value(hex_padded(b as nat, 2)[1])
            == b,
{
    reveal_with_fuel(hex_upper, 3);
}

fn digit(d: u8) -> (c: char)
    requires
        d < 16,
    ensures
        c == digit_char(d as int),
{
    if d < 10 {
        (48 + d) as char
    } else {
        (65 + (d - 10)) as char
    }
}

fn decimal_digits(n: u64) -> (v: Vec<char>)
    ensures
        v@ == decimal(n as nat),
    decreases n,
{
    if n < 10 {
        let mut v: Vec<char> = Vec::new();
        v.push(digit(n as u8));
        v
    } else {
        let mut v = decimal_digits(n / 10);
        v.push(digit((n % 10) as u8));
        v
    }
}

fn hex_digits(n: u64) -> (v: Vec<char>)
    ensures
        v@ == hex_upper(n as nat),
    decreases n,
{
    if n < 16 {
        let mut v: Vec<char> = Vec::new();
        v.push(digit(n as u8));
        v
    } else {
        let mut v = hex_digits(n / 16);
        v.push(digit((n % 16) as u8));
        v
    }
}

fn push_all(out: &mut String, chars: &Vec<char>)
    ensures
        final(out)@ == old(out)@ + chars@,
{
    let mut i: usize = 0;
    while i < chars.len()
        invariant
            i <= chars.len(),
            out@ == old(out)@ + chars@.take(i as int),
        decreases chars.len() - i,
    {
        out.push(chars[i]);
        proof {
            assert(chars@.take(i + 1) =~= chars@.take(i as int).push(chars@[i as int]));
        }
        i += 1;
    }
    proof {
        assert(chars@.take(chars@.len() as int) =~= chars@);
    }
}

/// Appends `count` copies of `c`.
pub fn push_repeated(out: &mut String, c: char, count: usize)
    ensures
        final(out)@ == old(out)@ + Seq::new(count as nat, |i: int| c),
{
    let mut i: usize = 0;
    while i < count
        invariant
            i <= count,
            out@ == old(out)@ + Seq::new(i as nat, |j: int| c),
        decreases count - i,
    {
        out.push(c);
        i += 1;
        proof {
            assert(old(out)@ + Seq::new(i as nat, |j: int| c) =~= (old(out)@ + Seq::new(
                (i - 1) as nat,
                |j: int| c,
            )).push(c));
        }
    }
}

/// Appends `n` in base ten.
pub fn push_decimal(out: &mut String, n: u64)
    ensures
        final(out)@ == old(out)@ + decimal(n as nat),
{
    let digits = decimal_digits(n);
    push_all(out, &digits);
}

/// Appends `n` in upper-case hexadecimal, padded with zeros to `width`.
pub fn push_hex(out: &mut String, n: u64, width: usize)
    ensures
        final(out)@ == old(out)@ + hex_padded(n as nat, width as nat),
{
    let digits = hex_digits(n);
    if digits.len() < width {
        push_repeated(out, '0', width - digits.len());
    }
    push_all(out, &digits);
    proof {
        assert(out@ =~= old(out)@ + hex_padded(n as nat, width as nat));
    }
}

/// Whether two byte slices are equal.
pub fn same_bytes(a: &[u8], b: &[u8]) -> (r: bool)
    ensures
        r == (a@ == b@),
{
    if a.len() != b.len() {
        return false;
    }
    let mut i: usize = 0;
    while i < a.len()
        invariant
            i <= a@.len() == b@.len(),
            forall|j: int| 0 <= j < i ==> a@[j] == b@[j],
        decreases a@.len() - i,
    {
        if a[i] != b[i] {
            return false;
        }
        i += 1;
    }
    proof {
        assert(a@ =~= b@);
    }
    true
}

/// Whether two texts are equal.
pub fn same_text(a: &str, b: &str) -> (r: bool)
    ensures
        r == (a@ == b@),
{
    proof {
        vstd::utf8::encode_utf8_decode_utf8(a@);
        vstd::utf8::encode_utf8_decode_utf8(b@);
    }
    same_bytes(a.as_bytes(), b.as_bytes())
}

/// `push_decimal` and `push_hex` append the digits of the number, and nothing
/// before them changes.
pub proof fn law_digits_are_appended(
    a: &mut String,
    b: &mut String,
    n: u64,
    width: usize,
)
    requires
        call_ensures(push_decimal, (a, n), ()),
        call_ensures(push_hex, (b, n, width), ()),
    ensures
        old(a)@.is_prefix_of(final(a)@),
        number(final(a)@.skip(old(a)@.len() as int), 10) == n,
        old(b)@.is_prefix_of(final(b)@),
        number(final(b)@.skip(old(b)@.len() as int), 16) == n,
        final(b)@.len() >= old(b)@.len() + width,
{
    law_decimal_is_the_number(n as nat);
    law_padded_hex_is_the_number(n as nat, width as nat);
    assert(final(a)@.skip(old(a)@.len() as int) =~= decimal(n as nat));
    assert(final(b)@.skip(old(b)@.len() as int) =~= hex_padded(n as nat, width as nat));
}

} // verus!
