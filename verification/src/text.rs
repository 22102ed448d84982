//! Decimal notation, as digits, as ASCII bytes and as characters.

use vstd::prelude::*;

verus! {

/// The decimal digits of `n`, the most significant first; one digit for 0.
pub open spec fn decimal_digits(n: nat) -> Seq<u8>
    decreases n,
{
    if n < 10 {
        seq![n as u8]
    } else {
        decimal_digits(n / 10).push((n % 10) as u8)
    }
}

/// The number that digits denote, the most significant first.
pub open spec fn digits_value(digits: Seq<u8>) -> nat
    decreases digits.len(),
{
    if digits.len() == 0 {
        0
    } else {
        digits_value(digits.drop_last()) * 10 + digits.last() as nat
    }
}

/// The digits of a number are digits, at least one, and denote the number.
pub proof fn lemma_decimal_digits(n: nat)
    ensures
        decimal_digits(n).len() >= 1,
        forall|i: int| 0 <= i < decimal_digits(n).len() ==> #[trigger] decimal_digits(n)[i] < 10,
        digits_value(decimal_digits(n)) == n,
        n >= 10 ==> decimal_digits(n).len() >= 2,
    decreases n,
{
    if n < 10 {
        let d = decimal_digits(n);
        assert(d.drop_last().len() == 0);
        assert(digits_value(d) == digits_value(d.drop_last()) * 10 + d.last() as nat);
    } else {
        lemma_decimal_digits(n / 10);
        let d = decimal_digits(n);
        assert(d.drop_last() =~= decimal_digits(n / 10));
        assert(d.last() == (n % 10) as u8);
    }
}

/// The ASCII bytes of digits.
pub open spec fn ascii_of(digits: Seq<u8>) -> Seq<u8> {
    Seq::new(digits.len(), |i: int| (digits[i] + 48) as u8)
}

/// The characters of digits.
pub open spec fn chars_of(digits: Seq<u8>) -> Seq<char> {
    Seq::new(digits.len(), |i: int| ((digits[i] + 48) as u8) as char)
}

/// `n` in decimal notation, as ASCII bytes.
pub open spec fn decimal_ascii(n: nat) -> Seq<u8> {
    ascii_of(decimal_digits(n))
}

/// Computes the decimal digits of `n`.
pub fn digits_of(n: usize) -> (digits: Vec<u8>)
    ensures
        digits@ == decimal_digits(n as nat),
{
    let mut reversed: Vec<u8> = Vec::new();
    let mut rest: usize = n;
    while rest >= 10
        invariant
            decimal_digits(n as nat) == decimal_digits(rest as nat) + reversed@.reverse(),
        decreases rest,
    {
        let digit: u8 = (rest % 10) as u8;
        proof {
            let r = reversed@;
            assert(r.push(digit).reverse() =~= seq![digit] + r.reverse());
            assert(decimal_digits(rest as nat) == decimal_digits((rest / 10) as nat).push(digit));
            assert(decimal_digits((rest / 10) as nat).push(digit) + r.reverse()
                =~= decimal_digits((rest / 10) as nat) + (seq![digit] + r.reverse()));
        }
        reversed.push(digit);
        rest = rest / 10;
    }
    let mut digits: Vec<u8> = Vec::new();
    digits.push(rest as u8);
    let mut i: usize = reversed.len();
    while i > 0
        invariant
            i <= reversed.len(),
            rest < 10,
            digits@ == seq![rest as u8] + reversed@.reverse().take(reversed.len() - i),
        decreases i,
    {
        i -= 1;
        proof {
            let r = reversed@.reverse();
            let done = reversed.len() - i - 1;
            assert(r[done] == reversed@[i as int]);
            assert((seq![rest as u8] + r.take(done)).push(r[done]) =~= seq![rest as u8] + r.take(
                done + 1,
            ));
        }
        digits.push(reversed[i]);
    }
    proof {
        assert(reversed@.reverse().take(reversed.len() as int) =~= reversed@.reverse());
        assert(decimal_digits(rest as nat) =~= seq![rest as u8]);
    }
    digits
}

/// Computes `n` in decimal notation, as ASCII bytes.
pub fn decimal_bytes(n: usize) -> (bytes: Vec<u8>)
    ensures
        bytes@ == decimal_ascii(n as nat),
{
    let digits = digits_of(n);
    proof {
        lemma_decimal_digits(n as nat);
    }
    let mut bytes: Vec<u8> = Vec::new();
    let mut i: usize = 0;
    while i < digits.len()
        invariant
            i <= digits.len(),
            forall|j: int| 0 <= j < digits.len() ==> #[trigger] digits@[j] < 10,
            bytes@ == ascii_of(digits@.take(i as int)),
        decreases digits.len() - i,
    {
        proof {
            assert(ascii_of(digits@.take(i as int)).push((digits@[i as int] + 48) as u8)
                =~= ascii_of(digits@.take(i + 1)));
        }
        bytes.push(digits[i] + 48);
        i += 1;
    }
    proof {
        assert(digits@.take(digits.len() as int) =~= digits@);
    }
    bytes
}

/// The character of a digit, as a string.
pub fn digit_str(digit: u8) -> (s: &'static str)
    requires
        digit < 10,
    ensures
        s@ == seq![((digit + 48) as u8) as char],
{
    proof {
        reveal_strlit("0");
        reveal_strlit("1");
        reveal_strlit("2");
        reveal_strlit("3");
        reveal_strlit("4");
        reveal_strlit("5");
        reveal_strlit("6");
        reveal_strlit("7");
        reveal_strlit("8");
        reveal_strlit("9");
    }
    let s = match digit {
        0 => "0",
        1 => "1",
        2 => "2",
        3 => "3",
        4 => "4",
        5 => "5",
        6 => "6",
        7 => "7",
        8 => "8",
        _ => "9",
    };
    assert(s@ =~= seq![((digit + 48) as u8) as char]);
    s
}

} // verus!
