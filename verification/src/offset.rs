//! Where the stops of a gradient lie, written as decimal fractions.
//!
//! The stops of a gradient are spread evenly from 0 to 1. A stop's offset is
//! the quotient of two whole numbers, written out by long division to at most
//! [`PLACES`] digits after the point and cut off there.

use vstd::arithmetic::div_mod::{
    lemma_basic_div,
    lemma_div_basics,
    lemma_div_is_ordered,
    lemma_fundamental_div_mod,
    lemma_hoist_over_denominator,
    lemma_mod_pos_bound,
    lemma_mod_self_0,
    lemma_small_mod,
};
use vstd::prelude::*;
use vstd::string::StringExecFns;

verus! {

/// The most digits that an offset has after the decimal point.
///
/// Twenty are enough to tell the stops of any list apart: a list cannot have
/// more than `usize::MAX` colors, and that is less than ten to the twentieth.
pub const PLACES: u32 = 20;

/// Ten to the power `k`.
pub open spec fn pow10(k: nat) -> nat
    decreases k,
{
    if k == 0 {
        1
    } else {
        10 * pow10((k - 1) as nat)
    }
}

/// The offset 1, counted in steps of the last decimal place.
pub open spec fn unit() -> nat {
    pow10(PLACES as nat)
}

/// The character that is written for the digit `d`.
pub open spec fn digit_char(d: nat) -> char {
    ((48 + d) as u8) as char
}

/// The digit that `c` is written for; 0 where `c` is no digit.
pub open spec fn digit_value(c: char) -> nat {
    if '0' <= c && c <= '9' {
        (c as u8 - 48) as nat
    } else {
        0
    }
}

/// How many equal steps lie between the first and the last of `count` stops.
/// A single stop has nothing to be spaced against; one step stands in, so
/// that nothing is ever divided by zero.
pub open spec fn steps(count: nat) -> nat {
    if count > 1 {
        (count - 1) as nat
    } else {
        1
    }
}

/// The digits after the decimal point of `rest / den`, where `rest < den`:
/// long division, digit by digit, that ends where nothing is left to divide
/// or where `places` digits are written.
pub open spec fn fraction_digits(rest: nat, den: nat, places: nat) -> Seq<char>
    decreases places,
{
    if rest == 0 || places == 0 {
        Seq::empty()
    } else {
        seq![digit_char(10 * rest / den)] + fraction_digits(
            10 * rest % den,
            den,
            (places - 1) as nat,
        )
    }
}

/// `num / den` as a decimal, for `num <= den`: the whole part, and after a
/// point the digits of the fraction where there is one.
pub open spec fn ratio_text(num: nat, den: nat) -> Seq<char> {
    if num % den == 0 {
        seq![digit_char(num / den)]
    } else {
        seq![digit_char(num / den), '.'] + fraction_digits(num % den, den, PLACES as nat)
    }
}

/// The offset of the stop at `index` among `count` stops, as text.
pub open spec fn offset_text(index: nat, count: nat) -> Seq<char> {
    ratio_text(index, steps(count))
}

/// What the digits after a decimal point are worth, counted in steps of the
/// decimal place `places`. Digits beyond that place count for nothing.
pub open spec fn fraction_value(digits: Seq<char>, places: nat) -> nat
    decreases digits.len(),
{
    if digits.len() == 0 || places == 0 {
        0
    } else {
        digit_value(digits.first()) * pow10((places - 1) as nat) + fraction_value(
            digits.drop_first(),
            (places - 1) as nat,
        )
    }
}

/// What a decimal of one digit before the point is worth, counted in steps
/// of the last decimal place: `"0.25"` is worth a quarter of [`unit`].
pub open spec fn decimal_value(text: Seq<char>) -> nat {
    if text.len() == 0 {
        0
    } else if text.len() >= 2 && text[1] == '.' {
        digit_value(text[0]) * unit() + fraction_value(text.skip(2), PLACES as nat)
    } else {
        digit_value(text[0]) * unit()
    }
}

/// Whether `c` may occur in a decimal: a digit or the point.
pub open spec fn decimal_char(c: char) -> bool {
    ('0' <= c && c <= '9') || c == '.'
}

fn digit_str(d: u8) -> (s: &'static str)
    requires
        d < 10,
    ensures
        s@ == seq![digit_char(d as nat)],
{
    proof {
        reveal_strlit("0");
        reveal_strlit("1");
        reveal_strlit("2");
        reveal_strlit("3");
        reveal_strlit("4");
        reveal_strlit("5");
        reveal_strlit("6");
        reveal_strlit("7");
        reveal_strlit("8");
        reveal_strlit("9");
    }
    let s = match d {
        0 => "0",
        1 => "1",
        2 => "2",
        3 => "3",
        4 => "4",
        5 => "5",
        6 => "6",
        7 => "7",
        8 => "8",
        _ => "9",
    };
    assert(s@ =~= seq![digit_char(d as nat)]);
    s
}

/// Writes the offset of the stop at `index` among `count` stops: `0` for the
/// first, `1` for the last of two or more, and a decimal fraction such as
/// `0.5` or `0.33333333333333333333` for those between.
pub fn stop_offset(index: usize, count: usize) -> (text: String)
    requires
        index < count,
    ensures
        text@ == offset_text(index as nat, count as nat),
{
    let den: u128 = if count > 1 {
        (count - 1) as u128
    } else {
        1
    };
    let num: u128 = index as u128;
    let whole: u128 = num / den;
    assert(whole <= 1) by {
        lemma_div_is_ordered(num as int, den as int, den as int);
        lemma_div_basics(den as int);
    }
    let mut text = String::from_str(digit_str(whole as u8));
    let mut rest: u128 = num % den;
    if rest != 0 {
        text.append(".");
        let mut places: u32 = PLACES;
        proof {
            reveal_strlit(".");
            assert(text@ =~= seq![digit_char(whole as nat), '.']);
        }
        while rest != 0 && places > 0
            invariant
                0 < den <= usize::MAX,
                rest < den,
                text@ + fraction_digits(rest as nat, den as nat, places as nat) == ratio_text(
                    num as nat,
                    den as nat,
                ),
            decreases places,
        {
            let scaled: u128 = rest * 10;
            let digit: u128 = scaled / den;
            assert(digit < 10) by {
                lemma_quotient_below(scaled as int, den as int, 10);
            }
            let ghost before = text@;
            text.append(digit_str(digit as u8));
            rest = scaled % den;
            places = places - 1;
            proof {
                let tail = fraction_digits(rest as nat, den as nat, places as nat);
                assert((before + seq![digit_char(digit as nat)]) + tail =~= before + (
                seq![digit_char(digit as nat)] + tail));
            }
        }
    }
    text
}

/// A quotient is below `bound` where the dividend is below `bound` times the
/// divisor.
proof fn lemma_quotient_below(x: int, d: int, bound: int)
    requires
        0 < d,
        0 <= x < bound * d,
    ensures
        0 <= x / d < bound,
{
    lemma_fundamental_div_mod(x, d);
    assert(0 <= x % d < d) by {
        lemma_mod_pos_bound(x, d);
    }
    assert(x / d < bound) by (nonlinear_arith)
        requires
            x == d * (x / d) + (x % d),
            0 <= x % d,
            0 < d,
            x < bound * d,
    ;
    assert(0 <= x / d) by (nonlinear_arith)
        requires
            x == d * (x / d) + (x % d),
            x % d < d,
            0 < d,
            0 <= x,
    ;
}

/// [`unit`] written out, and the reason for [`PLACES`]: no list has as many
/// colors as there are steps in a unit.
pub proof fn lemma_unit()
    ensures
        unit() == 100_000_000_000_000_000_000nat,
        usize::MAX < unit(),
{
    reveal_with_fuel(pow10, 21);
}

/// Long division is division: the digits that [`fraction_digits`] writes for
/// `rest / den` are worth that quotient, counted in steps of the last place
/// and rounded down to a whole number of steps.
pub proof fn lemma_fraction_value(rest: nat, den: nat, places: nat)
    requires
        rest < den,
    ensures
        fraction_value(fraction_digits(rest, den, places), places) == rest * pow10(places) / den,
    decreases places,
{
    let digits = fraction_digits(rest, den, places);
    if rest == 0 || places == 0 {
        assert(rest * pow10(places) / den == 0) by {
            if rest == 0 {
                assert(rest * pow10(places) == 0) by (nonlinear_arith)
                    requires
                        rest == 0,
                ;
            } else {
                assert(rest * pow10(places) == rest) by (nonlinear_arith)
                    requires
                        pow10(places) == 1,
                ;
            }
            lemma_basic_div((rest * pow10(places)) as int, den as int);
        }
    } else {
        let below = (places - 1) as nat;
        let digit = 10 * rest / den;
        let left = 10 * rest % den;
        let tail = fraction_digits(left, den, below);
        let scale = pow10(below);
        lemma_quotient_below((10 * rest) as int, den as int, 10);
        lemma_fundamental_div_mod((10 * rest) as int, den as int);
        lemma_mod_pos_bound((10 * rest) as int, den as int);
        lemma_fraction_value(left, den, below);
        assert(digits.first() == digit_char(digit));
        assert(digits.drop_first() =~= tail);
        assert(digit_value(digit_char(digit)) == digit);
        assert(fraction_value(digits, places) == digit * scale + left * scale / den);
        assert(rest * pow10(places) == left * scale + (digit * scale) * den) by (nonlinear_arith)
            requires
                pow10(places) == 10 * scale,
                10 * rest == den * digit + left,
        ;
        lemma_hoist_over_denominator((left * scale) as int, (digit * scale) as int, den);
    }
}

/// What an offset is worth: the stop's index over the number of steps,
/// counted in steps of the last decimal place and rounded down to a whole
/// number of them. So the written offset is never above the exact quotient
/// and falls short of it by less than one step of the last place.
pub proof fn lemma_offset_value(index: nat, count: nat)
    requires
        index < count,
    ensures
        decimal_value(offset_text(index, count)) == index * unit() / steps(count),
        decimal_value(offset_text(index, count)) * steps(count) <= index * unit(),
        index * unit() < (decimal_value(offset_text(index, count)) + 1) * steps(count),
{
    let den = steps(count);
    let text = offset_text(index, count);
    let whole = index / den;
    let rest = index % den;
    lemma_fundamental_div_mod(index as int, den as int);
    lemma_mod_pos_bound(index as int, den as int);
    lemma_quotient_below(index as int, den as int, 2);
    assert(digit_value(digit_char(whole)) == whole);
    if rest == 0 {
        assert(text[0] == digit_char(whole));
        assert(decimal_value(text) == whole * unit());
    } else {
        let digits = fraction_digits(rest, den, PLACES as nat);
        assert(text[0] == digit_char(whole));
        assert(text[1] == '.');
        assert(text.skip(2) =~= digits);
        lemma_fraction_value(rest, den, PLACES as nat);
        assert(decimal_value(text) == whole * unit() + rest * unit() / den);
    }
    assert(rest * unit() / den + whole * unit() == index * unit() / den) by {
        lemma_hoist_over_denominator((rest * unit()) as int, (whole * unit()) as int, den);
        assert(rest * unit() + (whole * unit()) * den == index * unit()) by (nonlinear_arith)
            requires
                index == den * whole + rest,
        ;
    }
    if rest == 0 {
        assert(rest * unit() / den == 0) by {
            assert(rest * unit() == 0) by (nonlinear_arith)
                requires
                    rest == 0,
            ;
            lemma_basic_div(0, den as int);
        }
    }
    let value = index * unit() / den;
    lemma_fundamental_div_mod((index * unit()) as int, den as int);
    lemma_mod_pos_bound((index * unit()) as int, den as int);
    assert(value * den <= index * unit() < (value + 1) * den) by (nonlinear_arith)
        requires
            index * unit() == den * value + (index * unit()) % den,
            0 <= (index * unit()) % den < den,
    ;
}

/// The first stop lies at 0 and, where there are two stops or more, the last
/// lies at 1; both are written without a decimal point.
pub proof fn lemma_offset_ends(count: nat)
    requires
        count >= 1,
    ensures
        offset_text(0, count) == seq!['0'],
        decimal_value(offset_text(0, count)) == 0,
        count >= 2 ==> offset_text((count - 1) as nat, count) == seq!['1'],
        count >= 2 ==> decimal_value(offset_text((count - 1) as nat, count)) == unit(),
{
    let den = steps(count);
    lemma_basic_div(0, den as int);
    lemma_small_mod(0, den);
    assert(offset_text(0, count) =~= seq!['0']);
    assert(digit_value('0') * unit() == 0) by (nonlinear_arith)
        requires
            digit_value('0') == 0,
    ;
    if count >= 2 {
        lemma_div_basics(den as int);
        lemma_mod_self_0(den as int);
        assert(offset_text(den, count) =~= seq!['1']);
        assert(digit_value('1') * unit() == unit()) by (nonlinear_arith)
            requires
                digit_value('1') == 1,
        ;
    }
}

/// Offsets grow with the index: of two stops of one list, the later one has
/// the greater offset.
pub proof fn lemma_offsets_increase(earlier: nat, later: nat, count: nat)
    requires
        earlier < later < count,
        count <= usize::MAX,
    ensures
        decimal_value(offset_text(earlier, count)) < decimal_value(offset_text(later, count)),
{
    let den = steps(count);
    lemma_unit();
    lemma_offset_value(earlier, count);
    lemma_offset_value(later, count);
    assert(earlier * unit() + 1 * den <= later * unit()) by (nonlinear_arith)
        requires
            earlier + 1 <= later,
            den <= unit(),
    ;
    lemma_hoist_over_denominator((earlier * unit()) as int, 1, den);
    lemma_div_is_ordered((earlier * unit() + 1 * den) as int, (later * unit()) as int, den as int);
}

/// An offset is made of digits and at most a decimal point.
pub proof fn lemma_offset_chars(index: nat, count: nat)
    requires
        index < count,
    ensures
        forall|i: int|
            0 <= i < offset_text(index, count).len() ==> decimal_char(
                #[trigger] offset_text(index, count)[i],
            ),
{
    let den = steps(count);
    lemma_quotient_below(index as int, den as int, 2);
    lemma_mod_pos_bound(index as int, den as int);
    lemma_fraction_chars(index % den, den, PLACES as nat);
}

/// Long division writes digits only.
proof fn lemma_fraction_chars(rest: nat, den: nat, places: nat)
    requires
        rest < den,
    ensures
        forall|i: int|
            0 <= i < fraction_digits(rest, den, places).len() ==> '0' <= #[trigger] fraction_digits(
                rest,
                den,
                places,
            )[i] <= '9',
    decreases places,
{
    if rest != 0 && places != 0 {
        let digits = fraction_digits(rest, den, places);
        let tail = fraction_digits(10 * rest % den, den, (places - 1) as nat);
        lemma_quotient_below((10 * rest) as int, den as int, 10);
        lemma_mod_pos_bound((10 * rest) as int, den as int);
        lemma_fraction_chars(10 * rest % den, den, (places - 1) as nat);
        assert forall|i: int| 0 <= i < digits.len() implies '0' <= #[trigger] digits[i] <= '9' by {
            if i > 0 {
                assert(digits[i] == tail[i - 1]);
            }
        }
    }
}

} // verus!
