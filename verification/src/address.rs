//! Addresses and 32-byte words, with their hexadecimal text form.

use std::str::FromStr;
use vstd::prelude::*;
use vstd::std_specs::cmp::PartialEqSpecImpl;

verus! {

/// A 20-byte account or contract address.
#[derive(Clone, Copy, Debug, Eq)]
pub struct Address(pub [u8; 20]);

/// A 32-byte word: a transaction hash or an indexed event topic.
#[derive(Clone, Copy, Debug)]
pub struct Bytes32(pub [u8; 32]);

impl PartialEq for Address {
    fn eq(&self, other: &Self) -> (r: bool) {
        let mut i: usize = 0;
        while i < 20
            invariant
                i <= 20,
                forall|j: int| 0 <= j < i ==> self.0@[j] == other.0@[j],
            decreases 20 - i,
        {
            if self.0[i] != other.0[i] {
                return false;
            }
            i += 1;
        }
        assert(self.0 =~= other.0);
        true
    }
}

impl PartialEqSpecImpl for Address {
    open spec fn obeys_eq_spec() -> bool {
        true
    }

    open spec fn eq_spec(&self, other: &Self) -> bool {
        *self == *other
    }
}

/// The sixteen lower-case hexadecimal digits, by value.
pub open spec fn hex_digits() -> Seq<char> {
    seq!['0', '1', '2', '3', '4', '5', '6', '7', '8', '9', 'a', 'b', 'c', 'd', 'e', 'f']
}

/// Two lower-case hexadecimal digits for each byte, the first byte first.
pub open spec fn lower_hex(bytes: Seq<u8>) -> Seq<char>
    decreases bytes.len(),
{
    if bytes.len() == 0 {
        Seq::empty()
    } else {
        lower_hex(bytes.drop_last()) + seq![
            hex_digits()[bytes.last() as int / 16],
            hex_digits()[bytes.last() as int % 16],
        ]
    }
}

/// `0x` followed by the lower-case hexadecimal digits of `bytes`.
pub open spec fn prefixed_hex(bytes: Seq<u8>) -> Seq<char> {
    seq!['0', 'x'] + lower_hex(bytes)
}

/// The address that a 32-byte word carries: its last twenty bytes.
pub open spec fn word_address(word: Bytes32) -> Address {
    Address(
        [
            word.0[12],
            word.0[13],
            word.0[14],
            word.0[15],
            word.0[16],
            word.0[17],
            word.0[18],
            word.0[19],
            word.0[20],
            word.0[21],
            word.0[22],
            word.0[23],
            word.0[24],
            word.0[25],
            word.0[26],
            word.0[27],
            word.0[28],
            word.0[29],
            word.0[30],
            word.0[31],
        ],
    )
}

/// What `H160::from_str` makes of a text: the twenty bytes it reads, or `None`
/// where it rejects the text.
pub uninterp spec fn h160_from_str(text: Seq<char>) -> Option<Seq<u8>>;

/// The address that a text spells: the one whose bytes `h160_from_str` reads
/// from it.
pub open spec fn parsed_address(text: Seq<char>) -> Option<Address> {
    match h160_from_str(text) {
        Some(bytes) => Some(
            Address(
                [
                    bytes[0],
                    bytes[1],
                    bytes[2],
                    bytes[3],
                    bytes[4],
                    bytes[5],
                    bytes[6],
                    bytes[7],
                    bytes[8],
                    bytes[9],
                    bytes[10],
                    bytes[11],
                    bytes[12],
                    bytes[13],
                    bytes[14],
                    bytes[15],
                    bytes[16],
                    bytes[17],
                    bytes[18],
                    bytes[19],
                ],
            ),
        ),
        None => None,
    }
}

/// Calls the `LowerHex` formatting of `ethers::types::H160` in its alternate
/// form. Trusted: the text is `0x` and then two lower-case digits per byte.
#[verifier::external_body]
fn h160_lower_hex(bytes: &[u8; 20]) -> (text: String)
    ensures
        text@ == prefixed_hex(bytes@),
{
    format!("{:#x}", ethers::types::H160(*bytes))
}

/// Calls the `LowerHex` formatting of `ethers::types::H256` in its alternate
/// form. Trusted: the text is `0x` and then two lower-case digits per byte.
#[verifier::external_body]
fn h256_lower_hex(bytes: &[u8; 32]) -> (text: String)
    ensures
        text@ == prefixed_hex(bytes@),
{
    format!("{:#x}", ethers::types::H256(*bytes))
}

/// Calls `H160::from(H256)`. Trusted: the result holds the last twenty bytes
/// of the word.
#[verifier::external_body]
fn h160_from_h256(word: &[u8; 32]) -> (bytes: [u8; 20])
    ensures
        bytes@ == word@.subrange(12, 32),
{
    ethers::types::H160::from(ethers::types::H256(*word)).0
}

/// Calls `H160::from_str`. Trusted: the outcome is a function of the text
/// alone, named `h160_from_str`.
#[verifier::external_body]
fn h160_parse(text: &str) -> (parsed: Option<[u8; 20]>)
    ensures
        match parsed {
            Some(bytes) => h160_from_str(text@) == Some(bytes@),
            None => h160_from_str(text@) is None,
        },
{
    match ethers::types::H160::from_str(text) {
        Ok(address) => Some(address.0),
        Err(_) => None,
    }
}

impl Address {
    /// The address as text: `0x` and forty lower-case hexadecimal digits.
    pub fn to_hex(&self) -> (text: String)
        ensures
            text@ == prefixed_hex(self.0@),
    {
        h160_lower_hex(&self.0)
    }

    /// Reads an address from text: the address that the text spells, if it
    /// spells one.
    pub fn parse(text: &str) -> (parsed: Option<Address>)
        ensures
            parsed == parsed_address(text@),
    {
        match h160_parse(text) {
            Some(bytes) => {
                let address = Address(bytes);
                assert(parsed_address(text@) is Some);
                assert(address.0 =~= parsed_address(text@)->Some_0.0);
                Some(address)
            },
            None => None,
        }
    }

    /// The address that an indexed event topic carries: its last twenty bytes.
    pub fn from_word(word: &Bytes32) -> (address: Address)
        ensures
            address == word_address(*word),
            address.0@ == word.0@.subrange(12, 32),
    {
        let address = Address(h160_from_h256(&word.0));
        assert(address.0@ =~= word_address(*word).0@);
        assert(address.0 =~= word_address(*word).0);
        address
    }
}

impl Bytes32 {
    /// The word as text: `0x` and sixty-four lower-case hexadecimal digits.
    pub fn to_hex(&self) -> (text: String)
        ensures
            text@ == prefixed_hex(self.0@),
    {
        h256_lower_hex(&self.0)
    }
}

} // verus!
