//! Small verified helpers on text: equality of string slices and decimal
//! numerals.

use vstd::prelude::*;
use vstd::string::*;
use vstd::utf8::*;

verus! {

/// Whether two string slices hold the same characters.
pub fn same_text(a: &str, b: &str) -> (same: bool)
    ensures
        same == (a@ == b@),
{
    let x = a.as_bytes();
    let y = b.as_bytes();
    proof {
        encode_utf8_decode_utf8(a@);
        encode_utf8_decode_utf8(b@);
    }
    if x.len() != y.len() {
        return false;
    }
    let mut i: usize = 0;
    while i < x.len()
        invariant
            i <= x.len(),
            x.len() == y.len(),
            a@ == b@ ==> x@ == y@,
            forall|j: int| 0 <= j < i ==> x@[j] == y@[j],
        decreases x.len() - i,
    {
        if x[i] != y[i] {
            return false;
        }
        i += 1;
    }
    assert(x@ =~= y@);
    true
}

/// The character of the decimal digit `d`.
pub open spec fn digit_char(d: int) -> char {
    if d == 0 {
        '0'
    } else if d == 1 {
        '1'
    } else if d == 2 {
        '2'
    } else if d == 3 {
        '3'
    } else if d == 4 {
        '4'
    } else if d == 5 {
        '5'
    } else if d == 6 {
        '6'
    } else if d == 7 {
        '7'
    } else if d == 8 {
        '8'
    } else {
        '9'
    }
}

/// The decimal numeral of `n`, without leading zeros.
pub open spec fn decimal(n: nat) -> Seq<char>
    decreases n,
{
    if n < 10 {
        seq![digit_char(n as int)]
    } else {
        decimal(n / 10).push(digit_char((n % 10) as int))
    }
}

/// `count` zeros.
pub open spec fn zeros(count: nat) -> Seq<char> {
    Seq::new(count, |i: int| '0')
}

/// The decimal numeral of `n`, with zeros in front up to `width` characters.
pub open spec fn padded_decimal(n: nat, width: nat) -> Seq<char> {
    if decimal(n).len() < width {
        zeros((width - decimal(n).len()) as nat) + decimal(n)
    } else {
        decimal(n)
    }
}

/// A numeral has at least one digit, and as many digits as its magnitude
/// asks for.
pub proof fn lemma_decimal_len(n: nat)
    ensures
        decimal(n).len() >= 1,
        n < 10 ==> decimal(n).len() == 1,
        10 <= n < 100 ==> decimal(n).len() == 2,
        100 <= n < 1000 ==> decimal(n).len() == 3,
        1000 <= n < 10000 ==> decimal(n).len() == 4,
        10000 <= n < 100000 ==> decimal(n).len() == 5,
{
    reveal_with_fuel(decimal, 6);
}

/// Appends the character of the digit `d`.
fn push_digit(out: &mut String, d: u8)
    requires
        d < 10,
    ensures
        final(out)@ == old(out)@.push(digit_char(d as int)),
{
    proof {
        reveal_strlit("0");
        reveal_strlit("1");
        reveal_strlit("2");
        reveal_strlit("3");
        reveal_strlit("4");
        reveal_strlit("5");
        reveal_strlit("6");
        reveal_strlit("7");
        reveal_strlit("8");
        reveal_strlit("9");
    }
    let ghost before = out@;
    let digit: &str = if d == 0 {
        "0"
    } else if d == 1 {
        "1"
    } else if d == 2 {
        "2"
    } else if d == 3 {
        "3"
    } else if d == 4 {
        "4"
    } else if d == 5 {
        "5"
    } else if d == 6 {
        "6"
    } else if d == 7 {
        "7"
    } else if d == 8 {
        "8"
    } else {
        "9"
    };
    assert(digit@ =~= seq![digit_char(d as int)]);
    out.append(digit);
    assert(out@ =~= before.push(digit_char(d as int)));
}

/// The digits of `n`, least significant first.
fn digits_reversed(n: u64) -> (digits: Vec<u8>)
    ensures
        digits@.len() == decimal(n as nat).len(),
        forall|i: int| 0 <= i < digits@.len() ==> digits@[i] < 10,
        forall|i: int|
            0 <= i < digits@.len() ==> digit_char(digits@[i] as int) == decimal(n as nat)[
                digits@.len() - 1 - i],
{
    let mut digits: Vec<u8> = Vec::new();
    let mut rest: u64 = n;
    while rest >= 10
        invariant
            decimal(n as nat).len() == decimal(rest as nat).len() + digits@.len(),
            forall|i: int| 0 <= i < digits@.len() ==> digits@[i] < 10,
            forall|i: int|
                0 <= i < digits@.len() ==> digit_char(digits@[i] as int) == decimal(n as nat)[
                    decimal(n as nat).len() - 1 - i],
            forall|i: int|
                0 <= i < decimal(rest as nat).len() ==> decimal(rest as nat)[i] == decimal(
                    n as nat,
                )[i],
        decreases rest,
    {
        let d: u8 = (rest % 10) as u8;
        digits.push(d);
        rest = rest / 10;
    }
    digits.push(rest as u8);
    digits
}

/// Appends the decimal numeral of `n`, with zeros in front up to `width`
/// characters.
pub fn push_padded(out: &mut String, n: u64, width: usize)
    ensures
        final(out)@ == old(out)@ + padded_decimal(n as nat, width as nat),
{
    let ghost before = out@;
    let digits = digits_reversed(n);
    let mut missing: usize = if digits.len() < width {
        width - digits.len()
    } else {
        0
    };
    let ghost fill = missing as nat;
    while missing > 0
        invariant
            missing <= fill,
            out@ == before + zeros((fill - missing) as nat),
        decreases missing,
    {
        push_digit(out, 0);
        missing -= 1;
        assert(out@ =~= before + zeros((fill - missing) as nat));
    }
    let mut i: usize = digits.len();
    while i > 0
        invariant
            i <= digits.len(),
            digits@.len() == decimal(n as nat).len(),
            forall|k: int| 0 <= k < digits@.len() ==> digits@[k] < 10,
            forall|k: int|
                0 <= k < digits@.len() ==> digit_char(digits@[k] as int) == decimal(n as nat)[
                    digits@.len() - 1 - k],
            out@ == before + zeros(fill) + decimal(n as nat).subrange(
                0,
                digits@.len() - i,
            ),
        decreases i,
    {
        i -= 1;
        push_digit(out, digits[i]);
        assert(out@ =~= before + zeros(fill) + decimal(n as nat).subrange(
            0,
            digits@.len() - i,
        ));
    }
    assert(decimal(n as nat).subrange(0, digits@.len() as int) =~= decimal(n as nat));
    assert(zeros(0) =~= Seq::<char>::empty());
    assert(out@ =~= before + padded_decimal(n as nat, width as nat));
}

/// Appends the decimal numeral of `n`.
pub fn push_decimal(out: &mut String, n: u64)
    ensures
        final(out)@ == old(out)@ + decimal(n as nat),
{
    proof {
        lemma_decimal_len(n as nat);
    }
    push_padded(out, n, 0);
}

} // verus!
