//! What a number in decimal is.
use vstd::arithmetic::div_mod::lemma_div_denominator;
use vstd::arithmetic::power::{lemma_pow0, lemma_pow1, lemma_pow_positive, pow};
use vstd::prelude::*;

use crate::number::{decimal, number_of, value_of};

verus! {

/// A number in decimal has its digits in their places: the ones last, the tens before them, and so
/// on, as many as the number needs and no more.
pub proof fn law_decimal_has_its_digits_in_place(n: nat)
    ensures
        ({
            let text = decimal(n);
            &&& text.len() > 0
            &&& n < pow(10, text.len())
            &&& text.len() > 1 ==> pow(10, (text.len() - 1) as nat) <= n
            &&& forall|k: nat|
                k < text.len() ==> #[trigger] text[text.len() - 1 - k] as int == 48 + (n as int
                    / pow(10, k)) % 10
        }),
    decreases n,
{
    reveal(pow);
    lemma_pow0(10);
    lemma_pow1(10);
    let text = decimal(n);
    if n < 10 {
        assert forall|k: nat| k < text.len() implies #[trigger] text[text.len() - 1 - k] as int
            == 48 + (n as int / pow(10, k)) % 10 by {
            assert(text[0] as int == 48 + n);
        }
    } else {
        let head = decimal(n / 10);
        law_decimal_has_its_digits_in_place(n / 10);
        assert(pow(10, text.len()) == 10 * pow(10, head.len()));
        assert(pow(10, head.len()) == 10 * pow(10, (head.len() - 1) as nat));
        assert forall|k: nat| k < text.len() implies #[trigger] text[text.len() - 1 - k] as int
            == 48 + (n as int / pow(10, k)) % 10 by {
            if k == 0 {
                assert(text[text.len() - 1] as int == 48 + n % 10);
            } else {
                let j = (k - 1) as nat;
                assert(text[text.len() - 1 - k] == head[head.len() - 1 - j]);
                lemma_pow_positive(10, j);
                lemma_div_denominator(n as int, 10, pow(10, j));
                assert(pow(10, k) == 10 * pow(10, j));
            }
        }
    }
}

/// A digit writes itself, no digits write nothing, and digits that follow others shift them to the
/// left by as many places as there are.
pub proof fn law_value_is_positional(a: Seq<char>, b: Seq<char>, c: char)
    requires
        '0' <= c <= '9',
    ensures
        value_of(Seq::empty()) == 0,
        value_of(seq![c]) == c as int - 48,
        value_of(a + b) == value_of(a) * pow(10, b.len()) + value_of(b),
    decreases b.len(),
{
    reveal(pow);
    reveal_with_fuel(value_of, 2);
    assert(seq![c].drop_last() =~= Seq::<char>::empty());
    if b.len() == 0 {
        assert(a + b =~= a);
        assert(pow(10, 0) == 1);
    } else {
        let shorter = b.drop_last();
        law_value_is_positional(a, shorter, c);
        assert((a + b).drop_last() =~= a + shorter);
        assert((a + b).last() == b.last());
        let p = pow(10, shorter.len());
        assert(pow(10, b.len()) == 10 * p);
        let v = value_of(a) as int;
        assert((v * p) * 10 == v * (10 * p)) by (nonlinear_arith);
    }
}

/// Decimal digits, one or more, are read as the number they write where 64 bits hold it, with or
/// without one `+` before them.
pub proof fn law_digits_are_read_as_what_they_write(digits: Seq<char>)
    requires
        digits.len() > 0,
        forall|i: int| 0 <= i < digits.len() ==> '0' <= #[trigger] digits[i] <= '9',
    ensures
        value_of(digits) <= 18446744073709551615 ==> {
            &&& number_of(digits) == Some(value_of(digits) as u64)
            &&& number_of(seq!['+'] + digits) == Some(value_of(digits) as u64)
        },
        value_of(digits) > 18446744073709551615 ==> {
            &&& number_of(digits) is None
            &&& number_of(seq!['+'] + digits) is None
        },
{
    assert('0' <= digits[0] <= '9');
    let signed = seq!['+'] + digits;
    assert(signed.skip(1) =~= digits);
}

/// Nothing but decimal digits, one or more, behind one `+` or none, is read as a number.
pub proof fn law_only_digits_are_read(text: Seq<char>)
    ensures
        number_of(text) is Some ==> {
            let from: int = if text[0] == '+' {
                1
            } else {
                0
            };
            &&& text.len() > from
            &&& forall|i: int| from <= i < text.len() ==> '0' <= #[trigger] text[i] <= '9'
        },
{
    if number_of(text) is Some && text.len() > 0 && text[0] == '+' {
        assert forall|i: int| 1 <= i < text.len() implies '0' <= #[trigger] text[i] <= '9' by {
            assert(text[i] == text.skip(1)[i - 1]);
        }
    }
}

} // verus!
