//! Session tokens and pairing PINs.

use vstd::prelude::*;
use vstd::string::*;

use crate::text::{
    decimal, decimal_is_digits, decimal_text, is_digit, trimmed, trimmed_already,
};

verus! {

/// The length of a session token.
pub const TOKEN_LENGTH: usize = 32;

/// The number of different PINs.
pub const PIN_COUNT: u32 = 1_000_000;

/// The length of a PIN.
pub const PIN_LENGTH: usize = 6;

/// Whether the character is an ASCII letter or digit.
pub open spec fn is_alphanumeric(c: char) -> bool {
    'a' <= c <= 'z' || 'A' <= c <= 'Z' || '0' <= c <= '9'
}

/// Whether the text can be a session token.
pub open spec fn is_token(s: Seq<char>) -> bool {
    &&& s.len() == TOKEN_LENGTH
    &&& forall|i: int| 0 <= i < s.len() ==> is_alphanumeric(#[trigger] s[i])
}

/// The text with zeros in front, up to `width` characters.
pub open spec fn zero_padded(s: Seq<char>, width: nat) -> Seq<char>
    decreases width - s.len(),
{
    if s.len() >= width {
        s
    } else {
        zero_padded(seq!['0'] + s, width)
    }
}

/// The PIN with this number: six digits.
pub open spec fn pin_of(number: nat) -> Seq<char> {
    zero_padded(decimal(number), PIN_LENGTH as nat)
}

/// Whether the text can be a PIN.
pub open spec fn is_pin(s: Seq<char>) -> bool {
    exists|number: nat| number < PIN_COUNT && s == #[trigger] pin_of(number)
}

/// A random character, by `fastrand::alphanumeric`: an ASCII letter or digit.
pub assume_specification[ fastrand::alphanumeric ]() -> (c: char)
    ensures
        is_alphanumeric(c),
;

/// A random number below `limit`, by `fastrand::u32`.
#[verifier::external_body]
fn random_below(limit: u32) -> (r: u32)
    requires
        limit > 0,
    ensures
        r < limit,
{
    fastrand::u32(0..limit)
}

/// Appends a character, by `String::push`.
pub assume_specification[ String::push ](s: &mut String, c: char)
    ensures
        final(s)@ == old(s)@.push(c),
;

/// A new session token.
pub fn generate_token() -> (r: String)
    ensures
        is_token(r@),
{
    let mut out = String::new();
    let mut i: usize = 0;
    while i < TOKEN_LENGTH
        invariant
            i <= TOKEN_LENGTH,
            out@.len() == i,
            forall|j: int| 0 <= j < i ==> is_alphanumeric(#[trigger] out@[j]),
        decreases TOKEN_LENGTH - i,
    {
        out.push(fastrand::alphanumeric());
        i += 1;
    }
    out
}

/// The PIN with this number.
pub fn pin_text(number: u32) -> (r: String)
    ensures
        r@ == pin_of(number as nat),
{
    let digits = decimal_text(number);
    let mut width: usize = digits.as_str().unicode_len();
    let mut out = digits;
    while width < PIN_LENGTH
        invariant
            out@.len() == width,
            zero_padded(out@, PIN_LENGTH as nat) == pin_of(number as nat),
        decreases PIN_LENGTH - width,
    {
        proof {
            reveal_strlit("0");
            assert("0"@ =~= seq!['0']);
        }
        let mut longer = "0".to_string();
        longer.append(out.as_str());
        out = longer;
        width += 1;
    }
    out
}

/// A new pairing PIN.
pub fn generate_pin() -> (r: String)
    ensures
        is_pin(r@),
{
    let number = random_below(PIN_COUNT);
    assert(pin_of(number as nat) == pin_of(number as nat));
    pin_text(number)
}

/// Every PIN has six digits, and different numbers give different PINs.
pub proof fn pins_are_six_digits(a: nat, b: nat)
    requires
        a < PIN_COUNT,
        b < PIN_COUNT,
    ensures
        pin_of(a).len() == PIN_LENGTH,
        forall|i: int| 0 <= i < pin_of(a).len() ==> is_digit(#[trigger] pin_of(a)[i]),
        pin_of(a) == pin_of(b) ==> a == b,
{
    pin_value(a);
    pin_value(b);
}

/// No token and no PIN has white space around it.
pub proof fn secrets_are_trimmed(secret: Seq<char>)
    requires
        is_token(secret) || is_pin(secret),
    ensures
        trimmed(secret) == secret,
{
    if is_pin(secret) {
        let number = choose|number: nat| number < PIN_COUNT && secret == #[trigger] pin_of(number);
        pins_are_six_digits(number, number);
    }
    trimmed_already(secret);
}

/// The number that a row of digits spells.
spec fn value(s: Seq<char>) -> int
    decreases s.len(),
{
    if s.len() == 0 {
        0
    } else {
        value(s.drop_last()) * 10 + (s.last() as int - '0' as int)
    }
}

spec fn all_digits(s: Seq<char>) -> bool {
    forall|i: int| 0 <= i < s.len() ==> is_digit(#[trigger] s[i])
}

spec fn power_of_ten(n: nat) -> nat
    decreases n,
{
    if n == 0 {
        1
    } else {
        10 * power_of_ten((n - 1) as nat)
    }
}

proof fn decimal_value(n: nat, width: nat)
    requires
        n < power_of_ten(width),
        width > 0,
    ensures
        value(decimal(n)) == n,
        decimal(n).len() <= width,
    decreases n,
{
    let s = decimal(n);
    if n < 10 {
        assert(s.drop_last() =~= Seq::<char>::empty());
        reveal_with_fuel(value, 2);
    } else {
        reveal_with_fuel(power_of_ten, 2);
        if width == 1 {
            assert(false);
        }
        decimal_value(n / 10, (width - 1) as nat);
        assert(s.drop_last() =~= decimal(n / 10));
        assert(s.last() as int - '0' as int == n % 10);
    }
}

proof fn leading_zero(s: Seq<char>)
    requires
        all_digits(s),
    ensures
        value(seq!['0'] + s) == value(s),
        all_digits(seq!['0'] + s),
    decreases s.len(),
{
    let longer = seq!['0'] + s;
    if s.len() == 0 {
        assert(longer.drop_last() =~= Seq::<char>::empty());
        reveal_with_fuel(value, 2);
    } else {
        assert(longer.drop_last() =~= seq!['0'] + s.drop_last());
        leading_zero(s.drop_last());
    }
}

proof fn padded_value(s: Seq<char>, width: nat)
    requires
        all_digits(s),
        s.len() <= width,
    ensures
        value(zero_padded(s, width)) == value(s),
        all_digits(zero_padded(s, width)),
        zero_padded(s, width).len() == width,
    decreases width - s.len(),
{
    if s.len() < width {
        leading_zero(s);
        padded_value(seq!['0'] + s, width);
    }
}

proof fn pin_value(n: nat)
    requires
        n < PIN_COUNT,
    ensures
        value(pin_of(n)) == n,
        all_digits(pin_of(n)),
        pin_of(n).len() == PIN_LENGTH,
{
    reveal_with_fuel(power_of_ten, 7);
    decimal_value(n, 6);
    decimal_is_digits(n);
    padded_value(decimal(n), 6);
}

} // verus!
