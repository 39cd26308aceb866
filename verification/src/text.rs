//! Text helpers over the UTF-8 bytes of a string.

use vstd::prelude::*;
use vstd::string::*;
use vstd::utf8::*;

verus! {

/// Whether two strings hold the same characters.
pub fn same_text(a: &str, b: &str) -> (r: bool)
    ensures
        r == (a@ == b@),
{
    let x = a.as_bytes();
    let y = b.as_bytes();
    if x.len() != y.len() {
        return false;
    }
    let mut i: usize = 0;
    while i < x.len()
        invariant
            i <= x.len(),
            x.len() == y.len(),
            x@ == encode_utf8(a@),
            y@ == encode_utf8(b@),
            forall|j: int| 0 <= j < i ==> x@[j] == y@[j],
        decreases x.len() - i,
    {
        if x[i] != y[i] {
            return false;
        }
        i = i + 1;
    }
    proof {
        assert(x@ =~= y@);
        encode_utf8_decode_utf8(a@);
        encode_utf8_decode_utf8(b@);
    }
    true
}

/// The character of a decimal digit.
pub open spec fn digit_char(d: int) -> char {
    if d == 0 {
        '0'
    } else if d == 1 {
        '1'
    } else if d == 2 {
        '2'
    } else if d == 3 {
        '3'
    } else if d == 4 {
        '4'
    } else if d == 5 {
        '5'
    } else if d == 6 {
        '6'
    } else if d == 7 {
        '7'
    } else if d == 8 {
        '8'
    } else {
        '9'
    }
}

/// A number written in decimal digits, without leading zeros.
pub open spec fn decimal(n: nat) -> Seq<char>
    decreases n,
{
    if n < 10 {
        seq![digit_char(n as int)]
    } else {
        decimal(n / 10).push(digit_char((n % 10) as int))
    }
}

/// Digits that were taken off a number from its low end, written out from
/// the high end.
spec fn written(digits: Seq<u8>) -> Seq<char>
    decreases digits.len(),
{
    if digits.len() == 0 {
        seq![]
    } else {
        seq![digit_char(digits.last() as int)] + written(digits.drop_last())
    }
}

/// The digits of what is left of a number, none if nothing is left.
spec fn leading(rest: nat) -> Seq<char> {
    if rest > 0 {
        decimal(rest)
    } else {
        seq![]
    }
}

fn digit_text(d: u8) -> (r: &'static str)
    requires
        d < 10,
    ensures
        r@ == seq![digit_char(d as int)],
{
    proof {
        reveal_strlit("0");
        reveal_strlit("1");
        reveal_strlit("2");
        reveal_strlit("3");
        reveal_strlit("4");
        reveal_strlit("5");
        reveal_strlit("6");
        reveal_strlit("7");
        reveal_strlit("8");
        reveal_strlit("9");
    }
    let r = match d {
        0 => "0",
        1 => "1",
        2 => "2",
        3 => "3",
        4 => "4",
        5 => "5",
        6 => "6",
        7 => "7",
        8 => "8",
        _ => "9",
    };
    assert(r@ =~= seq![digit_char(d as int)]);
    r
}

/// Writes a number in decimal digits.
pub fn decimal_text(n: usize) -> (r: String)
    ensures
        r@ == decimal(n as nat),
{
    let mut digits: Vec<u8> = Vec::new();
    digits.push((n % 10) as u8);
    let mut rest: usize = n / 10;
    proof {
        assert(digits@.drop_last() =~= Seq::<u8>::empty());
        assert(written(digits@.drop_last()) =~= Seq::<char>::empty());
        assert(digits@.last() as int == n % 10);
        assert(written(digits@) =~= seq![digit_char((n % 10) as int)]);
        assert(decimal(n as nat) =~= leading(rest as nat) + written(digits@));
    }
    while rest > 0
        invariant
            decimal(n as nat) == leading(rest as nat) + written(digits@),
            forall|j: int| 0 <= j < digits.len() ==> digits[j] < 10,
        decreases rest,
    {
        let ghost before = digits@;
        let ghost taken = rest as nat;
        digits.push((rest % 10) as u8);
        rest = rest / 10;
        proof {
            assert(digits@.drop_last() =~= before);
            assert(written(digits@) =~= seq![digit_char((taken % 10) as int)] + written(before));
            assert(decimal(taken) =~= leading(rest as nat) + seq![digit_char((taken % 10) as int)]);
            assert(leading(taken) + written(before) =~= leading(rest as nat) + written(digits@));
        }
    }
    let mut text = String::new();
    let mut i: usize = digits.len();
    assert(digits@.take(i as int) =~= digits@);
    while i > 0
        invariant
            i <= digits.len(),
            text@ + written(digits@.take(i as int)) == written(digits@),
            forall|j: int| 0 <= j < digits.len() ==> digits[j] < 10,
        decreases i,
    {
        let ghost before = text@;
        i = i - 1;
        text.append(digit_text(digits[i]));
        proof {
            assert(digits@.take(i + 1).drop_last() =~= digits@.take(i as int));
            assert(before + written(digits@.take(i + 1)) =~= text@ + written(
                digits@.take(i as int),
            ));
        }
    }
    assert(text@ + written(digits@.take(0)) =~= text@);
    text
}

} // verus!
