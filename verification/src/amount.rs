//! 256-bit token amounts and their fixed-point decimal text.

use ethers::abi::AbiDecode;
use ethers::types::U256;
use vstd::arithmetic::div_mod::{lemma_basic_div, lemma_small_mod};
use vstd::prelude::*;
use vstd::string::*;

verus! {

/// An unsigned 256-bit amount, as four 64-bit limbs, the least significant
/// first.
#[derive(Clone, Copy, Debug)]
pub struct Amount(pub [u64; 4]);

impl View for Amount {
    type V = nat;

    /// The number that the limbs stand for.
    open spec fn view(&self) -> nat {
        (self.0@[0] as nat) + (self.0@[1] as nat) * 0x1_0000_0000_0000_0000nat
            + (self.0@[2] as nat) * 0x1_0000_0000_0000_0000_0000_0000_0000_0000nat
            + (self.0@[3] as nat) * 0x1_0000_0000_0000_0000_0000_0000_0000_0000_0000_0000_0000_0000nat
    }
}

/// Two to the power 256: one more than the largest amount.
pub open spec fn amount_limit() -> nat {
    0x1_0000_0000_0000_0000_0000_0000_0000_0000_0000_0000_0000_0000_0000_0000_0000_0000nat
}

/// Ten to the power `n`.
pub open spec fn pow10(n: nat) -> nat
    decreases n,
{
    if n == 0 {
        1
    } else {
        10 * pow10((n - 1) as nat)
    }
}

/// The ten decimal digits, by value.
pub open spec fn decimal_digit_chars() -> Seq<char> {
    seq!['0', '1', '2', '3', '4', '5', '6', '7', '8', '9']
}

/// The decimal digits of `n`, most significant first, without leading zeros;
/// `0` for zero.
pub open spec fn decimal_digits(n: nat) -> Seq<char>
    decreases n,
{
    if n < 10 {
        seq![decimal_digit_chars()[n as int]]
    } else {
        decimal_digits(n / 10).push(decimal_digit_chars()[(n % 10) as int])
    }
}

/// `digits` with zeros put in front until it is `width` long; unchanged where
/// it is that long already.
pub open spec fn zero_padded(digits: Seq<char>, width: nat) -> Seq<char> {
    if digits.len() < width {
        Seq::new((width - digits.len()) as nat, |i: int| '0') + digits
    } else {
        digits
    }
}

/// The fraction part of `amount` at `decimals` decimal places: the remainder
/// by ten to the power `decimals`, in exactly `decimals` digits.
pub open spec fn fraction_digits(amount: nat, decimals: nat) -> Seq<char> {
    if decimals == 0 {
        Seq::empty()
    } else {
        zero_padded(decimal_digits(amount % pow10(decimals)), decimals)
    }
}

/// The fixed-point text of `amount` at `decimals` decimal places: the integer
/// part, the separator, the fraction part.
pub open spec fn fixed_point(amount: nat, decimals: nat, separator: Seq<char>) -> Seq<char> {
    decimal_digits(amount / pow10(decimals)) + separator + fraction_digits(amount, decimals)
}

/// The number that `bytes` spell in base 256, the most significant byte first.
pub open spec fn be_value(bytes: Seq<u8>) -> nat
    decreases bytes.len(),
{
    if bytes.len() == 0 {
        0
    } else {
        be_value(bytes.drop_last()) * 256 + bytes.last() as nat
    }
}

/// The amount that the data of a transfer record carries: the number that its
/// first 32 bytes spell, the most significant first; zero where the data is
/// shorter than that.
pub open spec fn log_amount(data: Seq<u8>) -> nat {
    if data.len() >= 32 {
        be_value(data.subrange(0, 32))
    } else {
        0
    }
}

/// The error with which the ABI decoder rejects its input.
#[verifier::external_type_specification]
#[verifier::external_body]
pub struct ExAbiError(ethers::abi::AbiError);

/// Calls `U256::exp10`. Trusted: the result is ten to the power `n`; the
/// outside function panics where that does not fit, from 78 on.
#[verifier::external_body]
fn u256_exp10(n: usize) -> (power: Amount)
    requires
        n <= 77,
    ensures
        power@ == pow10(n as nat),
{
    Amount(U256::exp10(n).0)
}

/// Calls the `/` of `U256`. Trusted: the result is the quotient, rounded
/// down; the outside function panics on a zero divisor.
#[verifier::external_body]
fn u256_div(a: &Amount, b: &Amount) -> (quotient: Amount)
    requires
        b@ != 0,
    ensures
        quotient@ == a@ / b@,
{
    Amount((U256(a.0) / U256(b.0)).0)
}

/// Calls the `%` of `U256`. Trusted: the result is the remainder; the outside
/// function panics on a zero divisor.
#[verifier::external_body]
fn u256_rem(a: &Amount, b: &Amount) -> (remainder: Amount)
    requires
        b@ != 0,
    ensures
        remainder@ == a@ % b@,
{
    Amount((U256(a.0) % U256(b.0)).0)
}

/// Calls the `Display` formatting of `U256`. Trusted: the text is the number
/// in decimal digits without leading zeros.
#[verifier::external_body]
fn u256_to_string(a: &Amount) -> (text: String)
    ensures
        text@ == decimal_digits(a@),
{
    U256(a.0).to_string()
}

/// Calls `U256::from_big_endian`. Trusted: the result is the number that the
/// bytes spell, the most significant first; the outside function panics on
/// more than 32 bytes.
#[verifier::external_body]
fn u256_from_big_endian(bytes: &[u8]) -> (amount: Amount)
    requires
        bytes@.len() <= 32,
    ensures
        amount@ == be_value(bytes@),
{
    Amount(U256::from_big_endian(bytes).0)
}

/// Calls `U256::decode` of `AbiDecode`. Trusted: input of at least 32 bytes
/// decodes to the number that its first 32 bytes spell, the most significant
/// first; shorter input is an error.
#[verifier::external_body]
fn u256_abi_decode(data: &[u8]) -> (decoded: Result<Amount, ethers::abi::AbiError>)
    ensures
        decoded is Ok <==> data@.len() >= 32,
        decoded matches Ok(amount) ==> amount@ == be_value(data@.subrange(0, 32)),
{
    match U256::decode(data) {
        Ok(value) => Ok(Amount(value.0)),
        Err(error) => Err(error),
    }
}

/// Every amount is below two to the power 256.
pub proof fn lemma_amount_below_limit(a: Amount)
    ensures
        a@ < amount_limit(),
{
}

/// A power of ten is positive.
pub proof fn lemma_pow10_positive(n: nat)
    ensures
        pow10(n) > 0,
    decreases n,
{
    if n > 0 {
        lemma_pow10_positive((n - 1) as nat);
    }
}

/// Powers of ten grow with the exponent.
pub proof fn lemma_pow10_monotonic(a: nat, b: nat)
    requires
        a <= b,
    ensures
        pow10(a) <= pow10(b),
    decreases b,
{
    if a < b {
        lemma_pow10_monotonic(a, (b - 1) as nat);
        lemma_pow10_positive((b - 1) as nat);
    }
}

/// Ten to the power 78 is beyond every amount.
proof fn lemma_pow10_78()
    ensures
        pow10(78) >= amount_limit(),
{
    assert(pow10(13) == 10_000_000_000_000nat) by {
        reveal_with_fuel(pow10, 14);
    }
    assert(pow10(26) == 10_000_000_000_000nat * pow10(13)) by {
        reveal_with_fuel(pow10, 14);
    }
    assert(pow10(39) == 10_000_000_000_000nat * pow10(26)) by {
        reveal_with_fuel(pow10, 14);
    }
    assert(pow10(52) == 10_000_000_000_000nat * pow10(39)) by {
        reveal_with_fuel(pow10, 14);
    }
    assert(pow10(65) == 10_000_000_000_000nat * pow10(52)) by {
        reveal_with_fuel(pow10, 14);
    }
    assert(pow10(78) == 10_000_000_000_000nat * pow10(65)) by {
        reveal_with_fuel(pow10, 14);
    }
}

/// A number below ten to the power `width` has at most `width` decimal digits.
pub proof fn lemma_decimal_digits_len(n: nat, width: nat)
    requires
        width >= 1,
        n < pow10(width),
    ensures
        1 <= decimal_digits(n).len() <= width,
    decreases n,
{
    if n >= 10 {
        assert(pow10(1) == 10) by {
            reveal_with_fuel(pow10, 2);
        }
        assert(width >= 2);
        assert(n / 10 < pow10((width - 1) as nat));
        lemma_decimal_digits_len(n / 10, (width - 1) as nat);
    }
}

/// The fraction part has exactly as many digits as there are decimal places.
pub proof fn lemma_fraction_width(amount: nat, decimals: nat)
    ensures
        fraction_digits(amount, decimals).len() == decimals,
{
    if decimals > 0 {
        lemma_pow10_positive(decimals);
        lemma_decimal_digits_len(amount % pow10(decimals), decimals);
    }
}

/// The text of one decimal digit.
fn digit_str(d: u64) -> (text: &'static str)
    requires
        d < 10,
    ensures
        text@ == seq![decimal_digit_chars()[d as int]],
{
    proof {
        reveal_strlit("0");
        reveal_strlit("1");
        reveal_strlit("2");
        reveal_strlit("3");
        reveal_strlit("4");
        reveal_strlit("5");
        reveal_strlit("6");
        reveal_strlit("7");
        reveal_strlit("8");
        reveal_strlit("9");
    }
    let text = if d == 0 {
        "0"
    } else if d == 1 {
        "1"
    } else if d == 2 {
        "2"
    } else if d == 3 {
        "3"
    } else if d == 4 {
        "4"
    } else if d == 5 {
        "5"
    } else if d == 6 {
        "6"
    } else if d == 7 {
        "7"
    } else if d == 8 {
        "8"
    } else {
        "9"
    };
    assert(text@ =~= seq![decimal_digit_chars()[d as int]]);
    text
}

/// Appends the decimal digits of `n` to `text`.
pub fn append_decimal(text: &mut String, n: u64)
    ensures
        final(text)@ == old(text)@ + decimal_digits(n as nat),
    decreases n,
{
    if n >= 10 {
        append_decimal(text, n / 10);
    }
    text.append(digit_str(n % 10));
    assert(text@ =~= old(text)@ + decimal_digits(n as nat));
}

/// The decimal digits of `n` as a string.
pub fn decimal_string(n: u64) -> (text: String)
    ensures
        text@ == decimal_digits(n as nat),
{
    let mut text = String::new();
    append_decimal(&mut text, n);
    assert(text@ =~= decimal_digits(n as nat));
    text
}

impl Amount {
    /// The amount zero.
    pub fn zero() -> (amount: Amount)
        ensures
            amount@ == 0,
    {
        Amount([0, 0, 0, 0])
    }

    /// Reads the amount that the data of a transfer record carries.
    pub fn from_log_data(data: &[u8]) -> (amount: Amount)
        ensures
            amount@ == log_amount(data@),
    {
        match u256_abi_decode(data) {
            Ok(amount) => amount,
            Err(_) => {
                let zero: [u8; 1] = [0];
                assert(be_value(zero@) == 0) by {
                    reveal_with_fuel(be_value, 2);
                }
                u256_from_big_endian(zero.as_slice())
            },
        }
    }
}

/// The fixed-point text of `amount` with the given separator between the
/// integer part and the fraction part.
fn format_with_separator(amount: &Amount, decimals: u8, separator: &str) -> (text: String)
    ensures
        text@ == fixed_point(amount@, decimals as nat, separator@),
{
    let units: usize = decimals as usize;
    let (integer, fraction) = if units <= 77 {
        let scale = u256_exp10(units);
        proof {
            lemma_pow10_positive(units as nat);
        }
        (u256_div(amount, &scale), u256_rem(amount, &scale))
    } else {
        proof {
            lemma_amount_below_limit(*amount);
            lemma_pow10_78();
            lemma_pow10_monotonic(78, units as nat);
            lemma_basic_div(amount@ as int, pow10(units as nat) as int);
            lemma_small_mod(amount@, pow10(units as nat));
        }
        (Amount::zero(), *amount)
    };
    let mut text = u256_to_string(&integer);
    text.append(separator);
    if units > 0 {
        let digits = u256_to_string(&fraction);
        let len = digits.as_str().unicode_len();
        let ghost head = text@;
        let mut width = len;
        assert(text@ =~= head + Seq::new(0, |i: int| '0'));
        while width < units
            invariant
                len <= width,
                width == len || width <= units,
                text@ == head + Seq::new((width - len) as nat, |i: int| '0'),
            decreases units - width,
        {
            proof {
                reveal_strlit("0");
            }
            text.append("0");
            width += 1;
            assert(text@ =~= head + Seq::new((width - len) as nat, |i: int| '0'));
        }
        text.append(digits.as_str());
        assert(text@ =~= fixed_point(amount@, decimals as nat, separator@));
    } else {
        assert(text@ =~= fixed_point(amount@, decimals as nat, separator@));
    }
    text
}

/// The fixed-point decimal text of `amount` at `decimals` decimal places:
/// integer part, a point, and the fraction part in exactly `decimals` digits.
pub fn format_amount(amount: Amount, decimals: u8) -> (text: String)
    ensures
        text@ == fixed_point(amount@, decimals as nat, seq!['.']),
{
    proof {
        reveal_strlit(".");
    }
    assert("."@ =~= seq!['.']);
    format_with_separator(&amount, decimals, ".")
}

/// The fixed-point decimal text of `amount` for a message in which a literal
/// point has to be escaped: as `format_amount`, with a backslash before the
/// point.
pub fn format_amount_escaped(amount: Amount, decimals: u8) -> (text: String)
    ensures
        text@ == fixed_point(amount@, decimals as nat, seq!['\\', '.']),
{
    proof {
        reveal_strlit("\\.");
    }
    assert("\\."@ =~= seq!['\\', '.']);
    format_with_separator(&amount, decimals, "\\.")
}

} // verus!
