//! Task ids, which are UUIDs.

use uuid::Uuid;
use vstd::arithmetic::div_mod::lemma_div_denominator;
use vstd::arithmetic::power::{lemma_pow0, lemma_pow1, lemma_pow_adds, lemma_pow_positive, pow};
use vstd::prelude::*;

verus! {

/// `uuid::Error`, which says why a text is no UUID.
#[verifier::external_type_specification]
#[verifier::external_body]
pub struct ExUuidError(uuid::Error);

/// The lower-case hexadecimal digit of `digit`.
pub open spec fn hex_digit(digit: int) -> char {
    if digit < 10 {
        (48 + digit) as char
    } else {
        (87 + digit) as char
    }
}

/// The hexadecimal digit of `value` that has `place` digits behind it.
pub open spec fn digit_at(value: int, place: nat) -> int {
    (value / pow(16, place)) % 16
}

/// How many digits of a hyphenated UUID stand behind the one at `index`.
pub open spec fn digits_behind(index: int) -> nat {
    if index < 8 {
        (31 - index) as nat
    } else if index < 13 {
        (32 - index) as nat
    } else if index < 18 {
        (33 - index) as nat
    } else if index < 23 {
        (34 - index) as nat
    } else {
        (35 - index) as nat
    }
}

/// A UUID in its hyphenated form: 32 digits in groups of 8, 4, 4, 4 and 12.
pub open spec fn hyphenated_uuid(value: u128) -> Seq<char> {
    Seq::new(
        36,
        |i: int|
            if i == 8 || i == 13 || i == 18 || i == 23 {
                '-'
            } else {
                hex_digit(digit_at(value as int, digits_behind(i)))
            },
    )
}

/// A UUID in its simple form: 32 digits.
pub open spec fn simple_uuid(value: u128) -> Seq<char> {
    Seq::new(32, |i: int| hex_digit(digit_at(value as int, (31 - i) as nat)))
}

/// A hexadecimal digit in lower case; any other character as it is.
pub open spec fn lower_digit(c: char) -> char {
    if 'A' <= c <= 'F' {
        (c as int + 32) as char
    } else {
        c
    }
}

/// A text with its hexadecimal digits in lower case.
pub open spec fn lower_digits(text: Seq<char>) -> Seq<char> {
    text.map_values(|c: char| lower_digit(c))
}

/// Whether `text` writes the UUID with the number `value`: in its hyphenated form, in its
/// simple form, or in its hyphenated form behind `urn:uuid:`, with digits in either case.
pub open spec fn writes_uuid(text: Seq<char>, value: u128) -> bool {
    ||| lower_digits(text) == hyphenated_uuid(value)
    ||| lower_digits(text) == simple_uuid(value)
    ||| {
        &&& text.len() == 45
        &&& text.take(9) == "urn:uuid:"@
        &&& lower_digits(text.skip(9)) == hyphenated_uuid(value)
    }
}

/// `uuid::Uuid::parse_str`: the UUID that `text` writes, as a number, or an error where it
/// writes none.
#[verifier::external_body]
pub(crate) fn parse_uuid(text: &str) -> (parsed: Result<u128, uuid::Error>)
    ensures
        match parsed {
            Ok(value) => writes_uuid(text@, value),
            Err(_) => forall|value: u128| !#[trigger] writes_uuid(text@, value),
        },
{
    Uuid::parse_str(text).map(|id| id.as_u128())
}

/// `uuid::Uuid::to_hyphenated_ref`, printed: the UUID with the number `value` in its
/// hyphenated form.
#[verifier::external_body]
pub(crate) fn format_uuid(value: u128) -> (text: String)
    ensures
        text@ == hyphenated_uuid(value),
{
    format!("{}", Uuid::from_u128(value).to_hyphenated_ref())
}

/// Numbers below a power of 16 with the same digits are the same.
proof fn lemma_same_digits(a: int, b: int, count: nat)
    requires
        0 <= a < pow(16, count),
        0 <= b < pow(16, count),
        forall|place: nat| place < count ==> #[trigger] digit_at(a, place) == digit_at(b, place),
    ensures
        a == b,
    decreases count,
{
    lemma_pow0(16);
    if count > 0 {
        let fewer = (count - 1) as nat;
        lemma_pow1(16);
        lemma_pow_adds(16, 1, fewer);
        assert(a / 16 < pow(16, fewer) && b / 16 < pow(16, fewer)) by (nonlinear_arith)
            requires
                a < 16 * pow(16, fewer),
                b < 16 * pow(16, fewer),
        ;
        assert forall|place: nat| place < fewer implies #[trigger] digit_at(a / 16, place)
            == digit_at(b / 16, place) by {
            lemma_pow_adds(16, 1, place);
            lemma_pow_positive(16, place);
            lemma_div_denominator(a, 16, pow(16, place));
            lemma_div_denominator(b, 16, pow(16, place));
            assert(digit_at(a, place + 1) == digit_at(b, place + 1));
        }
        lemma_same_digits(a / 16, b / 16, fewer);
        assert(digit_at(a, 0) == digit_at(b, 0));
    }
}

/// Numbers with the same 32 digits are the same.
proof fn lemma_same_value(a: u128, b: u128)
    requires
        forall|place: nat|
            place < 32 ==> hex_digit(#[trigger] digit_at(a as int, place)) == hex_digit(
                digit_at(b as int, place),
            ),
    ensures
        a == b,
{
    assert(pow(16, 32) == 0x1_0000_0000_0000_0000_0000_0000_0000_0000) by {
        lemma_pow1(16);
        lemma_pow_adds(16, 1, 1);
        assert(pow(16, 2) == 0x100);
        lemma_pow_adds(16, 2, 2);
        assert(pow(16, 4) == 0x1_0000);
        lemma_pow_adds(16, 4, 4);
        assert(pow(16, 8) == 0x1_0000_0000);
        lemma_pow_adds(16, 8, 8);
        assert(pow(16, 16) == 0x1_0000_0000_0000_0000);
        lemma_pow_adds(16, 16, 16);
    }
    assert forall|place: nat| place < 32 implies #[trigger] digit_at(a as int, place) == digit_at(
        b as int,
        place,
    ) by {
        let (x, y) = (digit_at(a as int, place), digit_at(b as int, place));
        assert(hex_digit(x) as int == hex_digit(y) as int);
        assert(0 <= x < 16 && 0 <= y < 16);
    }
    lemma_same_digits(a as int, b as int, 32);
}

/// Different UUIDs have different hyphenated forms.
pub proof fn law_hyphenated_uuid_is_injective(a: u128, b: u128)
    requires
        hyphenated_uuid(a) == hyphenated_uuid(b),
    ensures
        a == b,
{
    let (left, right) = (hyphenated_uuid(a), hyphenated_uuid(b));
    assert forall|place: nat| place < 32 implies hex_digit(#[trigger] digit_at(a as int, place))
        == hex_digit(digit_at(b as int, place)) by {
        let index: int = if place < 12 {
            35 - place
        } else if place < 16 {
            34 - place
        } else if place < 20 {
            33 - place
        } else if place < 24 {
            32 - place
        } else {
            31 - place
        };
        assert(digits_behind(index) == place);
        assert(left[index] == right[index]);
    }
    lemma_same_value(a, b);
}

/// Different UUIDs have different simple forms.
pub proof fn law_simple_uuid_is_injective(a: u128, b: u128)
    requires
        simple_uuid(a) == simple_uuid(b),
    ensures
        a == b,
{
    let (left, right) = (simple_uuid(a), simple_uuid(b));
    assert forall|place: nat| place < 32 implies hex_digit(#[trigger] digit_at(a as int, place))
        == hex_digit(digit_at(b as int, place)) by {
        assert(left[31 - place] == right[31 - place]);
    }
    lemma_same_value(a, b);
}

/// No text writes two UUIDs.
pub proof fn law_text_writes_one_uuid(text: Seq<char>, a: u128, b: u128)
    requires
        writes_uuid(text, a),
        writes_uuid(text, b),
    ensures
        a == b,
{
    assert(lower_digits(text).len() == text.len());
    assert(hyphenated_uuid(a).len() == 36 && hyphenated_uuid(b).len() == 36);
    assert(simple_uuid(a).len() == 32 && simple_uuid(b).len() == 32);
    if text.len() == 32 {
        law_simple_uuid_is_injective(a, b);
    } else {
        law_hyphenated_uuid_is_injective(a, b);
    }
}

/// What is printed of a UUID is read as that UUID again.
pub proof fn law_printed_uuid_is_read_back(value: u128)
    ensures
        writes_uuid(hyphenated_uuid(value), value),
{
    let text = hyphenated_uuid(value);
    assert forall|i: int| 0 <= i < 36 implies #[trigger] lower_digits(text)[i] == text[i] by {
        let digit = digit_at(value as int, digits_behind(i));
        assert(0 <= digit < 16);
        assert(hex_digit(digit) as int == (if digit < 10 {
            48 + digit
        } else {
            87 + digit
        }));
    }
    assert(lower_digits(text) =~= text);
}

} // verus!
