//! What holds of every number that is written or read.

use vstd::arithmetic::{div_mod, power};
use vstd::prelude::*;

use crate::text;
use crate::text::{char_vec, decimal_text, parse_usize, same_text};

verus! {

/// `digits` has nothing but digits, those of `value` from the highest power of ten down, and enough
/// of them.
pub open spec fn has_digits(digits: Seq<char>, value: int) -> bool {
    &&& digits.len() > 0
    &&& 0 <= value < power::pow(10, digits.len())
    &&& forall|i: int|
        0 <= i < digits.len() ==> '0' <= #[trigger] digits[i] <= '9'
            && digits[i] as int - '0' as int
            == (value / power::pow(10, (digits.len() - 1 - i) as nat)) % 10
}

proof fn lemma_pow_step(n: nat)
    ensures
        power::pow(10, n + 1) == 10 * power::pow(10, n),
        power::pow(10, n) > 0,
        power::pow(10, 0) == 1,
{
    reveal(power::pow);
    power::lemma_pow_positive(10, n);
    power::lemma_pow0(10);
}

/// The digits of a number with one more digit are those of its tenth, and that digit.
proof fn lemma_digits_push(digits: Seq<char>, value: int, last: char)
    requires
        digits.len() > 0 ==> has_digits(digits, value),
        digits.len() == 0 ==> value == 0,
        '0' <= last <= '9',
    ensures
        has_digits(digits.push(last), value * 10 + (last as int - '0' as int)),
{
    let longer = digits.push(last);
    let d = last as int - '0' as int;
    let whole = value * 10 + d;
    let n = digits.len();
    lemma_pow_step(n);
    lemma_pow_step(0);
    div_mod::lemma_fundamental_div_mod_converse(whole, 10, value, d);
    assert forall|i: int| 0 <= i < longer.len() implies '0' <= #[trigger] longer[i] <= '9'
        && longer[i] as int - '0' as int == (whole / power::pow(10, (longer.len() - 1 - i) as nat))
        % 10 by {
        if i < n {
            let k = (n - 1 - i) as nat;
            lemma_pow_step(k);
            assert(digits[i] == longer[i]);
            div_mod::lemma_div_denominator(whole, 10, power::pow(10, k));
            assert((longer.len() - 1 - i) as nat == k + 1);
            assert(digits[i] as int - '0' as int == (value / power::pow(10, k)) % 10);
            assert(whole / power::pow(10, k + 1) == value / power::pow(10, k));
        } else {
            assert(longer[i] == last);
            assert((longer.len() - 1 - i) as nat == 0);
            assert(whole / power::pow(10, 0) == whole);
        }
    }
}

proof fn lemma_value_has_digits(digits: Seq<char>)
    requires
        digits.len() > 0,
        forall|i: int| 0 <= i < digits.len() ==> '0' <= #[trigger] digits[i] <= '9',
    ensures
        has_digits(digits, text::decimal_value(digits) as int),
    decreases digits.len(),
{
    let shorter = digits.drop_last();
    assert(digits =~= shorter.push(digits.last()));
    assert forall|i: int| 0 <= i < shorter.len() implies '0' <= #[trigger] shorter[i] <= '9' by {
        assert(shorter[i] == digits[i]);
    }
    assert('0' <= digits[digits.len() - 1] <= '9');
    if shorter.len() > 0 {
        lemma_value_has_digits(shorter);
    } else {
        assert(text::decimal_value(shorter) == 0);
    }
    lemma_digits_push(shorter, text::decimal_value(shorter) as int, digits.last());
}

/// The first digits of a number are those of its tenth.
proof fn lemma_digits_pop(digits: Seq<char>, value: int)
    requires
        has_digits(digits, value),
    ensures
        digits.len() > 1 ==> has_digits(digits.drop_last(), value / 10),
        digits.len() == 1 ==> value / 10 == 0,
        digits.last() as int - '0' as int == value % 10,
        value == (value / 10) * 10 + value % 10,
{
    let n = digits.len();
    lemma_pow_step((n - 1) as nat);
    lemma_pow_step(0);
    div_mod::lemma_fundamental_div_mod(value, 10);
    assert(digits.last() as int - '0' as int == value % 10) by {
        assert(digits[n - 1] as int - '0' as int == (value / power::pow(10, 0)) % 10);
    }
    assert(value / 10 < power::pow(10, (n - 1) as nat)) by (nonlinear_arith)
        requires
            value < 10 * power::pow(10, (n - 1) as nat),
            value == 10 * (value / 10) + value % 10,
            0 <= value % 10 < 10,
    ;
    if n > 1 {
        let shorter = digits.drop_last();
        assert forall|i: int| 0 <= i < shorter.len() implies '0' <= #[trigger] shorter[i] <= '9'
            && shorter[i] as int - '0' as int == ((value / 10) / power::pow(
            10,
            (shorter.len() - 1 - i) as nat,
        )) % 10 by {
            let k = (shorter.len() - 1 - i) as nat;
            lemma_pow_step(k);
            assert(shorter[i] == digits[i]);
            assert((n - 1 - i) as nat == k + 1);
            div_mod::lemma_div_denominator(value, 10, power::pow(10, k));
        }
    }
}

proof fn lemma_digits_determine(digits: Seq<char>, a: int, b: int)
    requires
        has_digits(digits, a),
        has_digits(digits, b),
    ensures
        a == b,
    decreases digits.len(),
{
    lemma_digits_pop(digits, a);
    lemma_digits_pop(digits, b);
    if digits.len() > 1 {
        lemma_digits_determine(digits.drop_last(), a / 10, b / 10);
    }
}

proof fn lemma_no_leading_zero(n: nat)
    ensures
        text::decimal(n).len() > 0,
        text::decimal(n).len() > 1 ==> text::decimal(n)[0] != '0',
        n > 0 ==> text::decimal(n)[0] != '0',
    decreases n,
{
    if n >= 10 {
        lemma_no_leading_zero(n / 10);
        assert(text::decimal(n)[0] == text::decimal(n / 10)[0]);
    }
}

/// The numeral of a number has its digits.
pub proof fn lemma_decimal_has_digits(n: nat)
    ensures
        has_digits(text::decimal(n), n as int),
    decreases n,
{
    if n < 10 {
        let none: Seq<char> = seq![];
        lemma_digits_push(none, 0, text::digit_char(n));
        assert(text::decimal(n) =~= none.push(text::digit_char(n)));
    } else {
        lemma_decimal_has_digits(n / 10);
        lemma_digits_push(text::decimal(n / 10), (n / 10) as int, text::digit_char(n % 10));
    }
}

/// A number that is written down has its digits, place by place, and no zero in front.
pub proof fn written_numbers_have_their_digits(n: usize, written: String)
    requires
        call_ensures(decimal_text, (n,), written),
    ensures
        written@.len() > 0,
        n < power::pow(10, written@.len()),
        forall|i: int|
            0 <= i < written@.len() ==> '0' <= #[trigger] written@[i] <= '9' && written@[i] as int
                - '0' as int == (n as int / power::pow(10, (written@.len() - 1 - i) as nat)) % 10,
        written@.len() > 1 ==> written@[0] != '0',
{
    text::numeral_reads_back(n);
    lemma_no_leading_zero(n as nat);
    text::numeral_has_digits_alone(n as nat);
    let digits = text::decimal(n as nat);
    assert forall|i: int| 0 <= i < digits.len() implies '0' <= #[trigger] digits[i] <= '9' by {
        assert(digits.contains(digits[i]));
    }
    lemma_value_has_digits(digits);
    assert(digits[0] != '+');
    assert(has_digits(written@, n as int));
}

/// What a run of digits is read as.
pub proof fn lemma_parsed_digits(written: Seq<char>, digits: Seq<char>, value: int)
    requires
        written == digits || written == seq!['+'] + digits,
        has_digits(digits, value),
    ensures
        value <= usize::MAX ==> text::parsed_usize(written) == Some(value as usize),
        value > usize::MAX ==> text::parsed_usize(written) is None,
{
    assert('0' <= digits[0] <= '9');
    if written != digits {
        assert(written.skip(1) =~= digits);
    }
    assert(text::unsigned_part(written) =~= digits);
    lemma_value_has_digits(digits);
    lemma_digits_determine(digits, value, text::decimal_value(digits) as int);
}

/// What is read as a number has its digits, after an optional plus sign.
pub proof fn lemma_parsed_has_digits(written: Seq<char>) -> (digits: Seq<char>)
    requires
        text::parsed_usize(written) is Some,
    ensures
        written == digits || written == seq!['+'] + digits,
        has_digits(digits, text::parsed_usize(written)->Some_0 as int),
{
    let digits = text::unsigned_part(written);
    lemma_value_has_digits(digits);
    if written[0] == '+' {
        assert(written =~= seq!['+'] + digits);
    }
    digits
}

/// A text is read as the number whose digits it has, after an optional plus sign, where that number
/// fits; leading zeros are fine.
pub proof fn digits_are_read_as_their_number(
    written: &[char],
    digits: Seq<char>,
    value: int,
    read: Option<usize>,
)
    requires
        call_ensures(parse_usize, (written,), read),
        written@ == digits || written@ == seq!['+'] + digits,
        digits.len() > 0,
        0 <= value < power::pow(10, digits.len()),
        forall|i: int|
            0 <= i < digits.len() ==> '0' <= #[trigger] digits[i] <= '9' && digits[i] as int
                - '0' as int == (value / power::pow(10, (digits.len() - 1 - i) as nat)) % 10,
    ensures
        value <= usize::MAX ==> read == Some(value as usize),
        value > usize::MAX ==> read is None,
{
    assert(has_digits(digits, value));
    lemma_parsed_digits(written@, digits, value);
}

/// What is not a run of digits, after an optional plus sign, is no number.
pub proof fn only_digits_are_read(written: &[char], read: Option<usize>)
    requires
        call_ensures(parse_usize, (written,), read),
        read is Some,
    ensures
        written@.len() > 0,
        forall|i: int|
            0 <= i < written@.len() ==> '0' <= #[trigger] written@[i] <= '9' || (i == 0
                && written@[i] == '+'),
        written@[0] == '+' ==> written@.len() > 1,
{
    assert forall|i: int| 0 <= i < written@.len() implies '0' <= #[trigger] written@[i] <= '9' || (i
        == 0 && written@[i] == '+') by {
        let digits = text::unsigned_part(written@);
        if written@[0] == '+' {
            if i > 0 {
                assert(digits[i - 1] == written@[i]);
            }
        } else {
            assert(digits[i] == written@[i]);
        }
    }
}

/// Two texts are the same exactly where no place tells them apart; the characters of a text are
/// those in its places.
pub proof fn texts_are_told_apart_by_their_places(
    a: &str,
    b: &str,
    same: bool,
    chars: Vec<char>,
)
    requires
        call_ensures(same_text, (a, b), same),
        call_ensures(char_vec, (a,), chars),
    ensures
        same <==> a@.len() == b@.len() && forall|i: int|
            0 <= i < a@.len() ==> #[trigger] a@[i] == b@[i],
        chars@.len() == a@.len(),
        forall|i: int| 0 <= i < a@.len() ==> #[trigger] chars@[i] == a@[i],
{
    if a@.len() == b@.len() && forall|i: int| 0 <= i < a@.len() ==> #[trigger] a@[i] == b@[i] {
        assert(a@ =~= b@);
    }
}

} // verus!
