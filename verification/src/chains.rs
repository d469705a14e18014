//! The chains that are watched, and where their explorer pages are.

use crate::address::{prefixed_hex, Address, Bytes32};
use vstd::prelude::*;
use vstd::string::*;

verus! {

/// One chain: its identifier, its name for display, the base address of its
/// explorer and the endpoint of its node.
#[derive(Clone, Copy, Debug)]
pub struct ChainInfo {
    pub id: u32,
    pub name: &'static str,
    pub scanner_url: &'static str,
    pub ws: &'static str,
}

/// The identifier of the Sepolia test network.
pub const SEPOLIA: u32 = 11155111;

impl ChainInfo {
    /// The explorer page of a transaction: the explorer's base address,
    /// `tx/`, and the hash in hexadecimal.
    pub fn tx_url(&self, hash: &Bytes32) -> (url: String)
        ensures
            url@ == self.scanner_url@ + "tx/"@ + prefixed_hex(hash.0@),
    {
        let mut url = self.scanner_url.to_owned();
        url.append("tx/");
        url.append(hash.to_hex().as_str());
        url
    }

    /// The explorer page of an account or a contract: the explorer's base
    /// address, `address/`, and the address in hexadecimal.
    pub fn address_url(&self, address: &Address) -> (url: String)
        ensures
            url@ == self.scanner_url@ + "address/"@ + prefixed_hex(address.0@),
    {
        let mut url = self.scanner_url.to_owned();
        url.append("address/");
        url.append(address.to_hex().as_str());
        url
    }
}

/// The table of chains, made once at startup and handed to whoever needs it.
/// It is a list, searched in order: chains are few, they are looked up by
/// name as well as by identifier, and a name is no key of which vstd's
/// specification of the hash collections says anything.
#[derive(Clone, Debug)]
pub struct Chains {
    pub list: Vec<ChainInfo>,
}

/// Place `i` is the first in `list` whose chain has the identifier.
pub open spec fn first_with_id(list: Seq<ChainInfo>, id: u32, i: int) -> bool {
    &&& 0 <= i < list.len()
    &&& list[i].id == id
    &&& forall|j: int| 0 <= j < i ==> (#[trigger] list[j]).id != id
}

/// Place `i` is the first in `list` whose chain has the name.
pub open spec fn first_with_name(list: Seq<ChainInfo>, name: Seq<char>, i: int) -> bool {
    &&& 0 <= i < list.len()
    &&& list[i].name@ == name
    &&& forall|j: int| 0 <= j < i ==> (#[trigger] list[j]).name@ != name
}

impl Chains {
    /// The chains that are watched: the Sepolia test network.
    pub fn configured() -> (chains: Chains)
        ensures
            chains.list@.len() == 1,
            chains.list@[0].id == SEPOLIA,
            chains.list@[0].name@ == "ETH Sepolia"@,
            chains.list@[0].scanner_url@ == "https://sepolia.etherscan.io/"@,
            chains.list@[0].ws@ == "wss://sepolia.gateway.tenderly.co"@,
    {
        let mut list: Vec<ChainInfo> = Vec::new();
        list.push(
            ChainInfo {
                id: SEPOLIA,
                name: "ETH Sepolia",
                scanner_url: "https://sepolia.etherscan.io/",
                ws: "wss://sepolia.gateway.tenderly.co",
            },
        );
        Chains { list }
    }

    /// The chain with the identifier: the first in the table that has it.
    pub fn get(&self, id: u32) -> (found: Option<&ChainInfo>)
        ensures
            match found {
                Some(chain) => exists|i: int|
                    first_with_id(self.list@, id, i) && *chain == self.list@[i],
                None => forall|i: int| 0 <= i < self.list@.len() ==> (#[trigger] self.list@[i]).id != id,
            },
    {
        let mut i: usize = 0;
        while i < self.list.len()
            invariant
                i <= self.list@.len(),
                forall|j: int| 0 <= j < i ==> (#[trigger] self.list@[j]).id != id,
            decreases self.list@.len() - i,
        {
            if self.list[i].id == id {
                assert(first_with_id(self.list@, id, i as int));
                return Some(&self.list[i]);
            }
            i += 1;
        }
        None
    }

    /// The identifier of the chain with the name: that of the first in the
    /// table that has it.
    pub fn id_by_name(&self, name: &str) -> (found: Option<u32>)
        ensures
            match found {
                Some(id) => exists|i: int|
                    first_with_name(self.list@, name@, i) && id == self.list@[i].id,
                None => forall|i: int|
                    0 <= i < self.list@.len() ==> (#[trigger] self.list@[i]).name@ != name@,
            },
    {
        let wanted = name.to_owned();
        let mut i: usize = 0;
        while i < self.list.len()
            invariant
                i <= self.list@.len(),
                wanted@ == name@,
                forall|j: int| 0 <= j < i ==> (#[trigger] self.list@[j]).name@ != name@,
            decreases self.list@.len() - i,
        {
            if self.list[i].name.to_owned() == wanted {
                assert(first_with_name(self.list@, name@, i as int));
                return Some(self.list[i].id);
            }
            i += 1;
        }
        None
    }
}

} // verus!
