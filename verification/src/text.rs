//! Decimal numerals as text.

use vstd::prelude::*;

verus! {

/// `String::push` of the standard library: the string afterwards is the
/// string before with the one character appended, as its documentation
/// says. Trusted, not proved.
pub assume_specification[ String::push ](text: &mut String, ch: char)
    ensures
        final(text)@ == old(text)@.push(ch),
;

/// The character of one decimal digit.
pub open spec fn digit_char(d: nat) -> char {
    if d == 0 {
        '0'
    } else if d == 1 {
        '1'
    } else if d == 2 {
        '2'
    } else if d == 3 {
        '3'
    } else if d == 4 {
        '4'
    } else if d == 5 {
        '5'
    } else if d == 6 {
        '6'
    } else if d == 7 {
        '7'
    } else if d == 8 {
        '8'
    } else {
        '9'
    }
}

/// The decimal numeral of `n`, most significant digit first, without
/// leading zeros.
pub open spec fn decimal(n: nat) -> Seq<char>
    decreases n,
{
    if n < 10 {
        seq![digit_char(n)]
    } else {
        decimal(n / 10).push(digit_char(n % 10))
    }
}

/// The decimal numeral of `n`, with a leading zero where it has one digit.
pub open spec fn two_digits(n: nat) -> Seq<char> {
    if n < 10 {
        seq!['0', digit_char(n)]
    } else {
        decimal(n)
    }
}

/// The digit that a digit character stands for.
pub open spec fn digit_value(c: char) -> nat {
    (c as u32 - 0x30) as nat
}

/// The number that a sequence of digit characters stands for, read as a
/// decimal numeral.
pub open spec fn numeral_value(digits: Seq<char>) -> nat
    decreases digits.len(),
{
    if digits.len() == 0 {
        0
    } else {
        numeral_value(digits.drop_last()) * 10 + digit_value(digits.last())
    }
}

/// The decimal numeral of a number stands for that number, and it starts
/// with a zero only where the number is zero.
pub proof fn lemma_decimal_reads_back(n: nat)
    ensures
        numeral_value(decimal(n)) == n,
        decimal(n).len() > 0,
        n > 0 ==> decimal(n)[0] != '0',
    decreases n,
{
    if n < 10 {
        let digits = seq![digit_char(n)];
        assert(digits.drop_last() =~= Seq::<char>::empty());
        assert(numeral_value(digits.drop_last()) == 0);
        assert(digit_value(digit_char(n)) == n);
    } else {
        lemma_decimal_reads_back(n / 10);
        let digits = decimal(n);
        assert(digits.drop_last() =~= decimal(n / 10));
        assert(digits.last() == digit_char(n % 10));
        assert(digit_value(digit_char(n % 10)) == n % 10);
        assert(digits[0] == decimal(n / 10)[0]);
    }
}

/// The digits of `n` that are still to be written in front of those
/// already produced: none once `n` has reached zero.
spec fn leading(n: nat) -> Seq<char> {
    if n == 0 {
        Seq::empty()
    } else {
        decimal(n)
    }
}

proof fn lemma_leading_step(n: nat)
    requires
        n > 0,
    ensures
        leading(n) == leading(n / 10).push(digit_char(n % 10)),
{
    if n < 10 {
        assert(n / 10 == 0);
        assert(n % 10 == n);
        assert(seq![digit_char(n)] =~= Seq::<char>::empty().push(digit_char(n)));
    }
}

fn digit(d: u128) -> (c: char)
    requires
        d < 10,
    ensures
        c == digit_char(d as nat),
{
    if d == 0 {
        '0'
    } else if d == 1 {
        '1'
    } else if d == 2 {
        '2'
    } else if d == 3 {
        '3'
    } else if d == 4 {
        '4'
    } else if d == 5 {
        '5'
    } else if d == 6 {
        '6'
    } else if d == 7 {
        '7'
    } else if d == 8 {
        '8'
    } else {
        '9'
    }
}

/// Appends the decimal numeral of `n` to `text`.
pub fn push_decimal(text: &mut String, n: u128)
    ensures
        final(text)@ == old(text)@ + decimal(n as nat),
{
    if n < 10 {
        text.push(digit(n));
        assert(text@ =~= old(text)@ + decimal(n as nat));
        return;
    }
    // Digits come out least significant first.
    let mut reversed: Vec<char> = Vec::new();
    let mut rest: u128 = n;
    while rest > 0
        invariant
            leading(rest as nat) + reversed@.reverse() == decimal(n as nat),
        decreases rest,
    {
        proof {
            lemma_leading_step(rest as nat);
        }
        let ghost before = reversed@;
        let d = digit(rest % 10);
        reversed.push(d);
        assert(leading((rest / 10) as nat).push(d) + before.reverse() =~= leading(
            (rest / 10) as nat,
        ) + reversed@.reverse());
        rest = rest / 10;
    }
    assert(reversed@.reverse() =~= decimal(n as nat));
    let mut i: usize = reversed.len();
    while i > 0
        invariant
            i <= reversed@.len(),
            text@ == old(text)@ + reversed@.reverse().subrange(0, reversed@.len() - i),
        decreases i,
    {
        i -= 1;
        text.push(reversed[i]);
        assert(text@ =~= old(text)@ + reversed@.reverse().subrange(0, reversed@.len() - i));
    }
    assert(reversed@.reverse().subrange(0, reversed@.len() as int) =~= reversed@.reverse());
}

/// Appends the decimal numeral of `n` to `text`, with a leading zero where
/// it has one digit.
pub fn push_two_digits(text: &mut String, n: u128)
    ensures
        final(text)@ == old(text)@ + two_digits(n as nat),
{
    if n < 10 {
        text.push('0');
        text.push(digit(n));
        assert(text@ =~= old(text)@ + two_digits(n as nat));
    } else {
        push_decimal(text, n);
    }
}

/// The decimal numeral of `n`.
pub fn decimal_text(n: u128) -> (text: String)
    ensures
        text@ == decimal(n as nat),
{
    let mut text = String::new();
    push_decimal(&mut text, n);
    assert(text@ =~= decimal(n as nat));
    text
}

} // verus!
