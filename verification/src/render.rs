//! Text for the report: numbers in decimal, hexadecimal and binary.

use vstd::prelude::*;
use vstd::string::StringExecFns;

verus! {

/// The character of one digit; digits from ten on are letters, in upper or
/// lower case.
pub open spec fn digit(d: int, upper: bool) -> char {
    if d == 0 {
        '0'
    } else if d == 1 {
        '1'
    } else if d == 2 {
        '2'
    } else if d == 3 {
        '3'
    } else if d == 4 {
        '4'
    } else if d == 5 {
        '5'
    } else if d == 6 {
        '6'
    } else if d == 7 {
        '7'
    } else if d == 8 {
        '8'
    } else if d == 9 {
        '9'
    } else if d == 10 {
        if upper { 'A' } else { 'a' }
    } else if d == 11 {
        if upper { 'B' } else { 'b' }
    } else if d == 12 {
        if upper { 'C' } else { 'c' }
    } else if d == 13 {
        if upper { 'D' } else { 'd' }
    } else if d == 14 {
        if upper { 'E' } else { 'e' }
    } else {
        if upper { 'F' } else { 'f' }
    }
}

/// The digits of `n` in the given base, most significant first, without
/// leading zeros; zero is one digit.
pub open spec fn digits(n: nat, base: nat, upper: bool) -> Seq<char>
    decreases n,
{
    if base < 2 || n < base {
        seq![digit(n as int, upper)]
    } else {
        proof {
            assert(n / base < n) by (nonlinear_arith)
                requires
                    n >= base,
                    base >= 2,
            ;
        }
        digits(n / base, base, upper).push(digit((n % base) as int, upper))
    }
}

/// The number that a digit stands for; a character that is no digit stands
/// for none below sixteen.
pub open spec fn digit_value(c: char) -> int {
    if c == '0' {
        0
    } else if c == '1' {
        1
    } else if c == '2' {
        2
    } else if c == '3' {
        3
    } else if c == '4' {
        4
    } else if c == '5' {
        5
    } else if c == '6' {
        6
    } else if c == '7' {
        7
    } else if c == '8' {
        8
    } else if c == '9' {
        9
    } else if c == 'a' || c == 'A' {
        10
    } else if c == 'b' || c == 'B' {
        11
    } else if c == 'c' || c == 'C' {
        12
    } else if c == 'd' || c == 'D' {
        13
    } else if c == 'e' || c == 'E' {
        14
    } else if c == 'f' || c == 'F' {
        15
    } else {
        16
    }
}

/// The number that a text of digits denotes in the given base.
pub open spec fn denoted(text: Seq<char>, base: nat) -> int
    decreases text.len(),
{
    if text.len() == 0 {
        0
    } else {
        denoted(text.drop_last(), base) * base + digit_value(text.last())
    }
}

/// `count` zeros.
pub open spec fn zeros(count: nat) -> Seq<char> {
    Seq::new(count, |i: int| '0')
}

/// The digits of `n`, with zeros in front until there are `width` of them.
pub open spec fn padded(n: nat, base: nat, upper: bool, width: nat) -> Seq<char> {
    let plain = digits(n, base, upper);
    if plain.len() < width {
        zeros((width - plain.len()) as nat) + plain
    } else {
        plain
    }
}

/// A signed number in decimal, with a minus sign in front when it is
/// negative.
pub open spec fn signed_decimal(value: int) -> Seq<char> {
    if value < 0 {
        seq!['-'] + digits((-value) as nat, 10, false)
    } else {
        digits(value as nat, 10, false)
    }
}

/// `true` or `false`.
pub open spec fn truth(value: bool) -> Seq<char> {
    if value {
        seq!['t', 'r', 'u', 'e']
    } else {
        seq!['f', 'a', 'l', 's', 'e']
    }
}

/// One digit as text.
pub fn digit_text(d: u64, upper: bool) -> (text: &'static str)
    requires
        d < 16,
    ensures
        text@ == seq![digit(d as int, upper)],
{
    proof {
        reveal_strlit("0");
        reveal_strlit("1");
        reveal_strlit("2");
        reveal_strlit("3");
        reveal_strlit("4");
        reveal_strlit("5");
        reveal_strlit("6");
        reveal_strlit("7");
        reveal_strlit("8");
        reveal_strlit("9");
        reveal_strlit("a");
        reveal_strlit("b");
        reveal_strlit("c");
        reveal_strlit("d");
        reveal_strlit("e");
        reveal_strlit("f");
        reveal_strlit("A");
        reveal_strlit("B");
        reveal_strlit("C");
        reveal_strlit("D");
        reveal_strlit("E");
        reveal_strlit("F");
    }
    let text: &'static str = if d == 0 {
        "0"
    } else if d == 1 {
        "1"
    } else if d == 2 {
        "2"
    } else if d == 3 {
        "3"
    } else if d == 4 {
        "4"
    } else if d == 5 {
        "5"
    } else if d == 6 {
        "6"
    } else if d == 7 {
        "7"
    } else if d == 8 {
        "8"
    } else if d == 9 {
        "9"
    } else if d == 10 {
        if upper { "A" } else { "a" }
    } else if d == 11 {
        if upper { "B" } else { "b" }
    } else if d == 12 {
        if upper { "C" } else { "c" }
    } else if d == 13 {
        if upper { "D" } else { "d" }
    } else if d == 14 {
        if upper { "E" } else { "e" }
    } else {
        if upper { "F" } else { "f" }
    };
    text
}

/// The number of digits of `n` in the given base.
pub fn count_digits(n: u64, base: u64) -> (count: usize)
    requires
        2 <= base <= 16,
    ensures
        count == digits(n as nat, base as nat, false).len(),
        count == digits(n as nat, base as nat, true).len(),
        1 <= count <= 64,
    decreases n,
{
    if n < base {
        1
    } else {
        assert(n / base < n) by (nonlinear_arith)
            requires
                n >= base,
                base >= 2,
        ;
        let shorter = count_digits(n / base, base);
        proof {
            lemma_digit_count_bound(n as nat, base as nat);
        }
        shorter + 1
    }
}

/// A number of 64 bits has at most 64 digits, and the case of the letters
/// does not change the count.
pub proof fn lemma_digit_count_bound(n: nat, base: nat)
    requires
        2 <= base,
        n <= u64::MAX,
    ensures
        digits(n, base, false).len() <= 64,
        digits(n, base, false).len() == digits(n, base, true).len(),
{
    vstd::arithmetic::power2::lemma2_to64_rest();
    lemma_digit_count(n, base, 64);
}

/// A number below two to the power `k`, `k` at least one, has at most `k`
/// digits in any base from two on.
pub proof fn lemma_digit_count(n: nat, base: nat, k: nat)
    requires
        2 <= base,
        1 <= k,
        n < vstd::arithmetic::power2::pow2(k),
    ensures
        digits(n, base, false).len() <= k,
        digits(n, base, false).len() == digits(n, base, true).len(),
    decreases n,
{
    if n >= base {
        vstd::arithmetic::power2::lemma2_to64();
        vstd::arithmetic::power2::lemma_pow2_unfold(k);
        let j = (k - 1) as nat;
        assert(n / base <= n / 2) by (nonlinear_arith)
            requires
                base >= 2,
        ;
        assert(n / base < n) by (nonlinear_arith)
            requires
                n >= base,
                base >= 2,
        ;
        lemma_digit_count(n / base, base, j);
    }
}

/// The digits of a number denote that number, each digit is below the base,
/// and the first digit is a zero for the number zero only.
pub proof fn lemma_digits_denote(n: nat, base: nat, upper: bool)
    requires
        2 <= base <= 16,
    ensures
        denoted(digits(n, base, upper), base) == n,
        digits(n, base, upper).len() >= 1,
        forall|i: int|
            0 <= i < digits(n, base, upper).len() ==> 0 <= digit_value(
                #[trigger] digits(n, base, upper)[i],
            ) < base,
        digit_value(digits(n, base, upper)[0]) == 0 <==> n == 0,
    decreases n,
{
    let text = digits(n, base, upper);
    if n < base {
        assert(denoted(text.drop_last(), base) == 0);
    } else {
        let head = digits(n / base, base, upper);
        assert(n / base < n) by (nonlinear_arith)
            requires
                n >= base,
                base >= 2,
        ;
        assert(n / base >= 1) by (nonlinear_arith)
            requires
                n >= base,
                base >= 2,
        ;
        lemma_digits_denote(n / base, base, upper);
        assert(text.drop_last() =~= head);
        assert(digit_value(digit((n % base) as int, upper)) == n % base) by {
            assert(0 <= n % base < base) by (nonlinear_arith)
                requires
                    base >= 2,
            ;
        }
        assert((n / base) * base + n % base == n) by (nonlinear_arith)
            requires
                base >= 2,
        ;
        assert forall|i: int| 0 <= i < text.len() implies 0 <= digit_value(#[trigger] text[i])
            < base by {
            assert(0 <= n % base < base) by (nonlinear_arith)
                requires
                    base >= 2,
            ;
        }
    }
}

/// Appends the digits of `n`.
pub fn append_digits(out: &mut String, n: u64, base: u64, upper: bool)
    requires
        2 <= base <= 16,
    ensures
        final(out)@ == old(out)@ + digits(n as nat, base as nat, upper),
    decreases n,
{
    if n < base {
        out.append(digit_text(n, upper));
    } else {
        assert(n / base < n) by (nonlinear_arith)
            requires
                n >= base,
                base >= 2,
        ;
        append_digits(out, n / base, base, upper);
        out.append(digit_text(n % base, upper));
    }
}

/// Appends the digits of `n`, with zeros in front until there are `width`
/// of them.
pub fn append_padded(out: &mut String, n: u64, base: u64, upper: bool, width: usize)
    requires
        2 <= base <= 16,
    ensures
        final(out)@ == old(out)@ + padded(n as nat, base as nat, upper, width as nat),
{
    let count = count_digits(n, base);
    let mut filled: usize = count;
    proof {
        lemma_digit_count_bound(n as nat, base as nat);
    }
    while filled < width
        invariant
            count <= filled,
            filled <= width || filled == count,
            out@ == old(out)@ + zeros((filled - count) as nat),
        decreases width - filled,
    {
        out.append("0");
        proof {
            reveal_strlit("0");
        }
        filled = filled + 1;
    }
    append_digits(out, n, base, upper);
}

/// Appends a signed number in decimal.
pub fn append_signed(out: &mut String, value: i64)
    ensures
        final(out)@ == old(out)@ + signed_decimal(value as int),
{
    if value < 0 {
        out.append("-");
        proof {
            reveal_strlit("-");
        }
        let magnitude: u64 = if value == i64::MIN {
            0x8000_0000_0000_0000
        } else {
            (-value) as u64
        };
        append_digits(out, magnitude, 10, false);
    } else {
        append_digits(out, value as u64, 10, false);
    }
}

/// Appends `true` or `false`.
pub fn append_truth(out: &mut String, value: bool)
    ensures
        final(out)@ == old(out)@ + truth(value),
{
    proof {
        reveal_strlit("true");
        reveal_strlit("false");
    }
    if value {
        out.append("true");
    } else {
        out.append("false");
    }
}

} // verus!
