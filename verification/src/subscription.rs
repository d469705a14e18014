//! Subscribers and what they subscribe to.

use crate::address::{prefixed_hex, Address};
use crate::amount::{append_decimal, decimal_digits};
use vstd::prelude::*;
use vstd::std_specs::cmp::PartialEqSpecImpl;
use vstd::string::*;

verus! {

/// Identity of a subscriber: the chat that notifications go to.
#[derive(Clone, Copy, Debug, PartialEq, Eq, Structural, Hash)]
pub struct ChatId(pub i64);

/// Interest in the transfers of one token, on one chain, that involve one
/// watched address as sender or receiver.
#[derive(Clone, Copy, Debug, Eq)]
pub struct Subscription {
    pub chain_id: u32,
    pub token_address: Address,
    pub token_sender_receiver: Address,
}

impl PartialEq for Subscription {
    fn eq(&self, other: &Self) -> (r: bool) {
        self.chain_id == other.chain_id && self.token_address == other.token_address
            && self.token_sender_receiver == other.token_sender_receiver
    }
}

impl PartialEqSpecImpl for Subscription {
    open spec fn obeys_eq_spec() -> bool {
        true
    }

    open spec fn eq_spec(&self, other: &Self) -> bool {
        *self == *other
    }
}

/// A subscription as text: its three parts by name, the chain in decimal
/// digits and the addresses in hexadecimal.
pub open spec fn subscription_text(sub: Subscription) -> Seq<char> {
    "Subscription { chain_id: "@ + decimal_digits(sub.chain_id as nat) + ", token_address: "@
        + prefixed_hex(sub.token_address.0@) + ", token_sender_receiver: "@ + prefixed_hex(
        sub.token_sender_receiver.0@,
    ) + " }"@
}

impl Subscription {
    /// The subscription as text.
    pub fn to_text(&self) -> (text: String)
        ensures
            text@ == subscription_text(*self),
    {
        let mut text = "Subscription { chain_id: ".to_owned();
        append_decimal(&mut text, self.chain_id as u64);
        text.append(", token_address: ");
        text.append(self.token_address.to_hex().as_str());
        text.append(", token_sender_receiver: ");
        text.append(self.token_sender_receiver.to_hex().as_str());
        text.append(" }");
        text
    }
}

} // verus!
