//! Text building: decimal numbers, padding, comparison.

use vstd::prelude::*;

verus! {

/// `String::push` appends one character.
pub assume_specification[ String::push ](s: &mut String, ch: char)
    ensures
        final(s)@ == old(s)@.push(ch),
;

/// The character of a decimal digit.
pub open spec fn digit_char(d: nat) -> char {
    seq!['0', '1', '2', '3', '4', '5', '6', '7', '8', '9'][d as int]
}

/// Decimal notation, without leading zeros.
pub open spec fn decimal(n: nat) -> Seq<char>
    decreases n,
{
    if n < 10 {
        seq![digit_char(n)]
    } else {
        decimal(n / 10).push(digit_char(n % 10))
    }
}

/// Decimal notation with at least two digits.
pub open spec fn decimal2(n: nat) -> Seq<char> {
    if n < 10 {
        seq!['0', digit_char(n)]
    } else {
        decimal(n)
    }
}

fn digit(d: u64) -> (c: char)
    requires
        d < 10,
    ensures
        c == digit_char(d as nat),
{
    match d {
        0 => '0',
        1 => '1',
        2 => '2',
        3 => '3',
        4 => '4',
        5 => '5',
        6 => '6',
        7 => '7',
        8 => '8',
        _ => '9',
    }
}

/// Append `n` in decimal.
pub fn push_decimal(out: &mut String, n: u64)
    ensures
        final(out)@ == old(out)@ + decimal(n as nat),
    decreases n,
{
    if n < 10 {
        out.push(digit(n));
        assert(out@ =~= old(out)@ + decimal(n as nat));
    } else {
        push_decimal(out, n / 10);
        out.push(digit(n % 10));
        assert(out@ =~= old(out)@ + decimal(n as nat));
    }
}

/// Append `n` in decimal, padded to two digits.
pub fn push_decimal2(out: &mut String, n: u64)
    ensures
        final(out)@ == old(out)@ + decimal2(n as nat),
{
    if n < 10 {
        out.push('0');
        out.push(digit(n));
        assert(out@ =~= old(out)@ + decimal2(n as nat));
    } else {
        push_decimal(out, n);
    }
}

/// `n` in decimal.
pub fn decimal_string(n: u64) -> (s: String)
    ensures
        s@ == decimal(n as nat),
{
    let mut out: String = String::new();
    push_decimal(&mut out, n);
    assert(out@ =~= decimal(n as nat));
    out
}

/// Whether two texts are the same.
pub fn same_text(a: &str, b: &str) -> (r: bool)
    ensures
        r == (a@ == b@),
{
    a.to_owned() == b.to_owned()
}

/// Decimal notation with at least six digits.
pub open spec fn decimal6(n: nat) -> Seq<char> {
    if n < 100000 {
        seq![
            digit_char((n / 100000) % 10),
            digit_char((n / 10000) % 10),
            digit_char((n / 1000) % 10),
            digit_char((n / 100) % 10),
            digit_char((n / 10) % 10),
            digit_char(n % 10),
        ]
    } else {
        decimal(n)
    }
}

/// Append `n` in decimal, padded to six digits.
pub fn push_decimal6(out: &mut String, n: u64)
    ensures
        final(out)@ == old(out)@ + decimal6(n as nat),
{
    if n < 100000 {
        out.push(digit((n / 100000) % 10));
        out.push(digit((n / 10000) % 10));
        out.push(digit((n / 1000) % 10));
        out.push(digit((n / 100) % 10));
        out.push(digit((n / 10) % 10));
        out.push(digit(n % 10));
        assert(out@ =~= old(out)@ + decimal6(n as nat));
    } else {
        push_decimal(out, n);
    }
}

/// The character of a hexadecimal digit.
pub open spec fn hex_char(d: nat) -> char {
    seq![
        '0',
        '1',
        '2',
        '3',
        '4',
        '5',
        '6',
        '7',
        '8',
        '9',
        'a',
        'b',
        'c',
        'd',
        'e',
        'f',
    ][d as int]
}

/// Eight hexadecimal digits.
pub open spec fn hex8(n: nat) -> Seq<char> {
    seq![
        hex_char((n / 0x1000_0000) % 16),
        hex_char((n / 0x100_0000) % 16),
        hex_char((n / 0x10_0000) % 16),
        hex_char((n / 0x1_0000) % 16),
        hex_char((n / 0x1000) % 16),
        hex_char((n / 0x100) % 16),
        hex_char((n / 0x10) % 16),
        hex_char(n % 16),
    ]
}

fn hex_digit(d: u32) -> (c: char)
    requires
        d < 16,
    ensures
        c == hex_char(d as nat),
{
    match d {
        10 => 'a',
        11 => 'b',
        12 => 'c',
        13 => 'd',
        14 => 'e',
        15 => 'f',
        _ => digit(d as u64),
    }
}

/// `n` in eight hexadecimal digits.
pub fn hex8_string(n: u32) -> (s: String)
    ensures
        s@ == hex8(n as nat),
{
    let mut s: String = String::new();
    s.push(hex_digit((n / 0x1000_0000) % 16));
    s.push(hex_digit((n / 0x100_0000) % 16));
    s.push(hex_digit((n / 0x10_0000) % 16));
    s.push(hex_digit((n / 0x1_0000) % 16));
    s.push(hex_digit((n / 0x1000) % 16));
    s.push(hex_digit((n / 0x100) % 16));
    s.push(hex_digit((n / 0x10) % 16));
    s.push(hex_digit(n % 16));
    assert(s@ =~= hex8(n as nat));
    s
}

/// Whether a text begins with another.
pub fn has_prefix(text: &str, prefix: &str) -> (b: bool)
    ensures
        b == prefix@.is_prefix_of(text@),
{
    let n: usize = prefix.unicode_len();
    if text.unicode_len() < n {
        return false;
    }
    let mut i: usize = 0;
    while i < n
        invariant
            i <= n == prefix@.len() <= text@.len(),
            forall|k: int| 0 <= k < i ==> prefix@[k] == text@[k],
        decreases n - i,
    {
        if prefix.get_char(i) != text.get_char(i) {
            assert(prefix@[i as int] != text@.subrange(0, n as int)[i as int]);
            return false;
        }
        i = i + 1;
    }
    assert(prefix@ =~= text@.subrange(0, n as int));
    true
}

/// The number that a row of decimal digits stands for.
pub open spec fn number_of(digits: Seq<char>) -> int
    decreases digits.len(),
{
    if digits.len() == 0 {
        0
    } else {
        10 * number_of(digits.drop_last()) + (digits.last() as int - '0' as int)
    }
}

/// A number written in decimal reads as that number. All of it is digits, and the
/// first one is a zero for zero alone.
pub proof fn law_decimal_reads_back(n: nat)
    ensures
        number_of(decimal(n)) == n,
        decimal(n).len() > 0,
        forall|i: int| 0 <= i < decimal(n).len() ==> '0' <= #[trigger] decimal(n)[i] <= '9',
        decimal(n)[0] == '0' <==> n == 0,
    decreases n,
{
    if n < 10 {
        assert(decimal(n).drop_last() =~= Seq::empty());
        assert(number_of(Seq::empty()) == 0);
    } else {
        law_decimal_reads_back(n / 10);
        assert(decimal(n).drop_last() =~= decimal(n / 10));
        assert(decimal(n)[0] == decimal(n / 10)[0]);
    }
}

proof fn lemma_one_digit_more(digits: Seq<char>, d: nat)
    requires
        d < 10,
    ensures
        number_of(digits.push(digit_char(d))) == 10 * number_of(digits) + d,
{
    assert(digits.push(digit_char(d)).drop_last() =~= digits);
}

/// Padding to two or to six digits keeps the number, and gives at least that many.
pub proof fn law_padded_decimal_reads_back(n: nat)
    ensures
        number_of(decimal2(n)) == n,
        decimal2(n).len() >= 2,
        n < 100 ==> decimal2(n).len() == 2,
        n >= 10 ==> decimal2(n) == decimal(n),
        number_of(decimal6(n)) == n,
        decimal6(n).len() >= 6,
        n < 1_000_000 ==> decimal6(n).len() == 6,
{
    law_decimal_reads_back(n);
    lemma_decimal_length(n);
    let none = Seq::<char>::empty();
    if n < 10 {
        lemma_one_digit_more(none, 0);
        lemma_one_digit_more(none.push(digit_char(0)), n);
        assert(decimal2(n) =~= none.push(digit_char(0)).push(digit_char(n)));
    }
    if n < 100000 {
        lemma_six_digits(n);
    }
}

proof fn lemma_six_digits(n: nat)
    requires
        n < 100000,
    ensures
        number_of(decimal6(n)) == n,
{
    let d0 = Seq::<char>::empty();
    let d1 = d0.push(digit_char((n / 100000) % 10));
    let d2 = d1.push(digit_char((n / 10000) % 10));
    let d3 = d2.push(digit_char((n / 1000) % 10));
    let d4 = d3.push(digit_char((n / 100) % 10));
    let d5 = d4.push(digit_char((n / 10) % 10));
    lemma_one_digit_more(d0, (n / 100000) % 10);
    lemma_one_digit_more(d1, (n / 10000) % 10);
    lemma_one_digit_more(d2, (n / 1000) % 10);
    lemma_one_digit_more(d3, (n / 100) % 10);
    lemma_one_digit_more(d4, (n / 10) % 10);
    lemma_one_digit_more(d5, n % 10);
    assert(decimal6(n) =~= d5.push(digit_char(n % 10)));
}

proof fn lemma_decimal_length(n: nat)
    ensures
        10 <= n ==> decimal(n).len() >= 2,
        10 <= n < 100 ==> decimal(n).len() == 2,
        100000 <= n ==> decimal(n).len() >= 6,
        100000 <= n < 1_000_000 ==> decimal(n).len() == 6,
{
    reveal_with_fuel(decimal, 7);
    law_decimal_reads_back(n / 10);
    if n >= 100000 {
        law_decimal_reads_back(n / 100000);
    }
}

/// What a hexadecimal digit in small letters stands for.
pub open spec fn nibble(c: char) -> int {
    if '0' <= c <= '9' {
        c as int - '0' as int
    } else {
        c as int - 'a' as int + 10
    }
}

/// The number that a row of hexadecimal digits stands for.
pub open spec fn hex_number_of(digits: Seq<char>) -> int
    decreases digits.len(),
{
    if digits.len() == 0 {
        0
    } else {
        16 * hex_number_of(digits.drop_last()) + nibble(digits.last())
    }
}

proof fn lemma_nibble(d: nat)
    requires
        d < 16,
    ensures
        nibble(hex_char(d)) == d,
        '0' <= hex_char(d) <= '9' || 'a' <= hex_char(d) <= 'f',
{
}

proof fn lemma_one_nibble_more(digits: Seq<char>, d: nat)
    requires
        d < 16,
    ensures
        hex_number_of(digits.push(hex_char(d))) == 16 * hex_number_of(digits) + d,
{
    lemma_nibble(d);
    assert(digits.push(hex_char(d)).drop_last() =~= digits);
}

/// A number in eight hexadecimal digits reads as that number.
pub proof fn law_hex_reads_back(n: nat)
    requires
        n <= u32::MAX,
    ensures
        hex8(n).len() == 8,
        hex_number_of(hex8(n)) == n,
        forall|i: int|
            0 <= i < 8 ==> '0' <= #[trigger] hex8(n)[i] <= '9' || 'a' <= hex8(n)[i] <= 'f',
{
    let n1 = n / 0x10;
    let n2 = n1 / 0x10;
    let n3 = n2 / 0x10;
    let n4 = n3 / 0x10;
    let n5 = n4 / 0x10;
    let n6 = n5 / 0x10;
    let n7 = n6 / 0x10;
    assert(n / 0x100 == n2);
    assert(n / 0x1000 == n3);
    assert(n / 0x1_0000 == n4);
    assert(n / 0x10_0000 == n5);
    assert(n / 0x100_0000 == n6);
    assert(n / 0x1000_0000 == n7);
    let d0 = Seq::<char>::empty();
    let d1 = d0.push(hex_char(n7 % 16));
    let d2 = d1.push(hex_char(n6 % 16));
    let d3 = d2.push(hex_char(n5 % 16));
    let d4 = d3.push(hex_char(n4 % 16));
    let d5 = d4.push(hex_char(n3 % 16));
    let d6 = d5.push(hex_char(n2 % 16));
    let d7 = d6.push(hex_char(n1 % 16));
    lemma_one_nibble_more(d0, n7 % 16);
    lemma_one_nibble_more(d1, n6 % 16);
    lemma_one_nibble_more(d2, n5 % 16);
    lemma_one_nibble_more(d3, n4 % 16);
    lemma_one_nibble_more(d4, n3 % 16);
    lemma_one_nibble_more(d5, n2 % 16);
    lemma_one_nibble_more(d6, n1 % 16);
    lemma_one_nibble_more(d7, n % 16);
    assert(hex8(n) =~= d7.push(hex_char(n % 16)));
    assert forall|i: int| 0 <= i < 8 implies '0' <= #[trigger] hex8(n)[i] <= '9' || 'a' <= hex8(
        n,
    )[i] <= 'f' by {
        let d = if i == 0 {
            n7 % 16
        } else if i == 1 {
            n6 % 16
        } else if i == 2 {
            n5 % 16
        } else if i == 3 {
            n4 % 16
        } else if i == 4 {
            n3 % 16
        } else if i == 5 {
            n2 % 16
        } else if i == 6 {
            n1 % 16
        } else {
            n % 16
        };
        lemma_nibble(d);
        assert(hex8(n)[i] == hex_char(d));
    }
}

} // verus!
