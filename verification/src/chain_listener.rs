//! From a transfer record to the notifications to send: the token's cached
//! metadata, the message, and who is notified.

use crate::address::{prefixed_hex, word_address, Address, Bytes32};
use crate::amount::{fixed_point, format_amount_escaped, log_amount, Amount};
use crate::chains::ChainInfo;
use crate::model::StoreModel;
use crate::state::State;
use crate::subscription::{ChatId, Subscription};
use vstd::prelude::*;
use vstd::seq_lib::{lemma_multiset_commutative, to_multiset_contains};
use vstd::string::*;

verus! {

/// A transfer as the node reports it: the token contract that logged it, the
/// transaction, the indexed sender and receiver, and the amount as data.
#[derive(Clone, Debug)]
pub struct TransferRecord {
    pub address: Address,
    pub transaction_hash: Bytes32,
    pub from_topic: Bytes32,
    pub to_topic: Bytes32,
    pub data: Vec<u8>,
}

/// A log entry as the node hands it over. It may lack the transaction hash,
/// and it has the indexed sender and receiver only if it has three topics.
#[derive(Clone, Debug)]
pub struct TransferLog {
    pub address: Address,
    pub transaction_hash: Option<Bytes32>,
    pub topics: Vec<Bytes32>,
    pub data: Vec<u8>,
}

/// A transfer made ready for display.
#[derive(Clone, Debug)]
pub struct TransferEvent {
    pub chain_name: String,
    pub tx_on_scanner: String,
    pub token_on_scanner: String,
    pub name: String,
    pub from: Address,
    pub sender_on_scanner: String,
    pub to: Address,
    pub receiver_on_scanner: String,
    pub amount: String,
}

/// A message for one subscriber.
#[derive(Clone, Debug)]
pub struct Notification {
    pub chat: ChatId,
    pub text: String,
}

/// A transfer with its message and the subscribers it concerns: those who
/// watch its receiver and those who watch its sender.
#[derive(Clone, Debug)]
pub struct MatchedTransfer {
    pub message: String,
    pub receiver_matches: Vec<ChatId>,
    pub sender_matches: Vec<ChatId>,
}

/// Whether a chain's listener is at work.
#[derive(Clone, Copy, Debug, PartialEq, Eq, Structural)]
pub enum ListenerState {
    /// The live stream of transfer records is being read.
    Connected,
    /// The stream could not be opened or was lost; the listener has stopped.
    Failed,
}

/// What the node's stream hands to a listener.
#[derive(Clone, Debug)]
pub enum ListenerEvent {
    /// The next log entry.
    Log(TransferLog),
    /// The stream has ended.
    Lost,
}

/// The transfer record that a log entry holds: its transaction hash, its
/// second topic as the sender and its third as the receiver. There is none
/// where the log lacks the hash or has fewer than three topics.
pub open spec fn log_record(log: TransferLog) -> Option<TransferRecord> {
    if log.transaction_hash is Some && log.topics@.len() >= 3 {
        Some(
            TransferRecord {
                address: log.address,
                transaction_hash: log.transaction_hash->Some_0,
                from_topic: log.topics@[1],
                to_topic: log.topics@[2],
                data: log.data,
            },
        )
    } else {
        None
    }
}

/// The explorer page of an address.
pub open spec fn address_page(chain: ChainInfo, address: Address) -> Seq<char> {
    chain.scanner_url@ + "address/"@ + prefixed_hex(address.0@)
}

/// The explorer page of a transaction.
pub open spec fn tx_page(chain: ChainInfo, hash: Bytes32) -> Seq<char> {
    chain.scanner_url@ + "tx/"@ + prefixed_hex(hash.0@)
}

/// The message for a transfer of a token with the given name and decimal
/// places.
pub open spec fn message_text(
    chain: ChainInfo,
    name: Seq<char>,
    decimals: u8,
    record: TransferRecord,
) -> Seq<char> {
    "\n        Tokens transfered on "@ + chain.name@ + "\n        Token: ["@ + name + "]("@
        + address_page(chain, record.address) + ")\n        From: ["@ + prefixed_hex(
        word_address(record.from_topic).0@,
    ) + "]("@ + address_page(chain, word_address(record.from_topic)) + ")\n        To: ["@
        + prefixed_hex(word_address(record.to_topic).0@) + "]("@ + address_page(
        chain,
        word_address(record.to_topic),
    ) + ")\n        Amount: "@ + fixed_point(
        log_amount(record.data@),
        decimals as nat,
        seq!['\\', '.'],
    ) + "\n        View tx on [explorer]("@ + tx_page(chain, record.transaction_hash)
        + ")\n        "@
}

/// The subscription that watches the receiver of a transfer.
pub open spec fn receiver_sub(chain: ChainInfo, record: TransferRecord) -> Subscription {
    Subscription {
        chain_id: chain.id,
        token_address: record.address,
        token_sender_receiver: word_address(record.to_topic),
    }
}

/// The subscription that watches the sender of a transfer.
pub open spec fn sender_sub(chain: ChainInfo, record: TransferRecord) -> Subscription {
    Subscription {
        chain_id: chain.id,
        token_address: record.address,
        token_sender_receiver: word_address(record.from_topic),
    }
}

/// The subscribers that a list of notifications goes to, in order.
pub open spec fn chats(plan: Seq<Notification>) -> Seq<ChatId> {
    plan.map_values(|notification: Notification| notification.chat)
}

/// How many of the notifications go to `chat`.
pub open spec fn times_notified(plan: Seq<Notification>, chat: ChatId) -> nat {
    chats(plan).to_multiset().count(chat)
}

/// One if `chat` is among `holders`, else zero.
pub open spec fn one_if_among(holders: Set<ChatId>, chat: ChatId) -> nat {
    if holders.contains(chat) {
        1
    } else {
        0
    }
}

/// `plan` is what a store with contents `store` owes for a transfer on
/// `chain`. Without cached metadata for the token: nothing. With it: the
/// message, once to each holder of the subscription that watches the receiver
/// and once to each holder of the one that watches the sender, so twice to
/// who holds both.
pub open spec fn is_plan_for(
    plan: Seq<Notification>,
    store: StoreModel,
    chain: ChainInfo,
    record: TransferRecord,
) -> bool {
    let token = (chain.id, record.address);
    if store.metadata.contains_key(token) {
        &&& forall|i: int|
            0 <= i < plan.len() ==> (#[trigger] plan[i]).text@ == message_text(
                chain,
                store.metadata[token].0,
                store.metadata[token].2,
                record,
            )
        &&& forall|chat: ChatId| #[trigger]
            times_notified(plan, chat) == one_if_among(
                store.watchers_of(receiver_sub(chain, record)),
                chat,
            ) + one_if_among(store.watchers_of(sender_sub(chain, record)), chat)
    } else {
        plan.len() == 0
    }
}

impl TransferEvent {
    /// The message that shows the event.
    pub open spec fn text(&self) -> Seq<char> {
        "\n        Tokens transfered on "@ + self.chain_name@ + "\n        Token: ["@ + self.name@
            + "]("@ + self.token_on_scanner@ + ")\n        From: ["@ + prefixed_hex(self.from.0@)
            + "]("@ + self.sender_on_scanner@ + ")\n        To: ["@ + prefixed_hex(self.to.0@)
            + "]("@ + self.receiver_on_scanner@ + ")\n        Amount: "@ + self.amount@
            + "\n        View tx on [explorer]("@ + self.tx_on_scanner@ + ")\n        "@
    }

    /// The event shows `record`, a transfer on `chain` of a token with the
    /// given name and decimal places.
    pub open spec fn describes(
        &self,
        chain: ChainInfo,
        name: Seq<char>,
        decimals: u8,
        record: TransferRecord,
    ) -> bool {
        &&& self.chain_name@ == chain.name@
        &&& self.tx_on_scanner@ == tx_page(chain, record.transaction_hash)
        &&& self.token_on_scanner@ == address_page(chain, record.address)
        &&& self.name@ == name
        &&& self.from == word_address(record.from_topic)
        &&& self.sender_on_scanner@ == address_page(chain, word_address(record.from_topic))
        &&& self.to == word_address(record.to_topic)
        &&& self.receiver_on_scanner@ == address_page(chain, word_address(record.to_topic))
        &&& self.amount@ == fixed_point(log_amount(record.data@), decimals as nat, seq!['\\', '.'])
    }

    /// Makes a record ready for display.
    pub fn parse(chain: &ChainInfo, name: &String, decimals: u8, record: &TransferRecord) -> (event:
        TransferEvent)
        ensures
            event.describes(*chain, name@, decimals, *record),
            event.text() == message_text(*chain, name@, decimals, *record),
    {
        let from = Address::from_word(&record.from_topic);
        let to = Address::from_word(&record.to_topic);
        TransferEvent {
            chain_name: chain.name.to_owned(),
            tx_on_scanner: chain.tx_url(&record.transaction_hash),
            token_on_scanner: chain.address_url(&record.address),
            name: name.clone(),
            from,
            sender_on_scanner: chain.address_url(&from),
            to,
            receiver_on_scanner: chain.address_url(&to),
            amount: format_amount_escaped(Amount::from_log_data(record.data.as_slice()), decimals),
        }
    }

    /// Writes the message that shows the event.
    pub fn format(&self) -> (message: String)
        ensures
            message@ == self.text(),
    {
        let mut message = "\n        Tokens transfered on ".to_owned();
        message.append(self.chain_name.as_str());
        message.append("\n        Token: [");
        message.append(self.name.as_str());
        message.append("](");
        message.append(self.token_on_scanner.as_str());
        message.append(")\n        From: [");
        message.append(self.from.to_hex().as_str());
        message.append("](");
        message.append(self.sender_on_scanner.as_str());
        message.append(")\n        To: [");
        message.append(self.to.to_hex().as_str());
        message.append("](");
        message.append(self.receiver_on_scanner.as_str());
        message.append(")\n        Amount: ");
        message.append(self.amount.as_str());
        message.append("\n        View tx on [explorer](");
        message.append(self.tx_on_scanner.as_str());
        message.append(")\n        ");
        message
    }
}

/// Looks a transfer up in the store. Without cached metadata for its token
/// there is no match. With it, the match holds the message and, each once,
/// the holders of the subscription that watches the receiver and those of
/// the one that watches the sender.
pub fn match_transfer(state: &State, chain: &ChainInfo, record: &TransferRecord) -> (matched:
    Option<MatchedTransfer>)
    requires
        state.wf(),
    ensures
        match matched {
            Some(found) => {
                let token = (chain.id, record.address);
                &&& state@.metadata.contains_key(token)
                &&& found.message@ == message_text(
                    *chain,
                    state@.metadata[token].0,
                    state@.metadata[token].2,
                    *record,
                )
                &&& found.receiver_matches@.no_duplicates()
                &&& found.receiver_matches@.to_set() == state@.watchers_of(
                    receiver_sub(*chain, *record),
                )
                &&& found.sender_matches@.no_duplicates()
                &&& found.sender_matches@.to_set() == state@.watchers_of(
                    sender_sub(*chain, *record),
                )
            },
            None => !state@.metadata.contains_key((chain.id, record.address)),
        },
{
    match state.get_token_metadata(&chain.id, &record.address) {
        Some(metadata) => {
            let event = TransferEvent::parse(chain, &metadata.0, metadata.2, record);
            let message = event.format();
            let receiver_matches = holders(state, chain.id, &record.address, &event.to);
            let sender_matches = holders(state, chain.id, &record.address, &event.from);
            Some(MatchedTransfer { message, receiver_matches, sender_matches })
        },
        None => None,
    }
}

/// The holders of a subscription, each once; none where nobody ever held it.
fn holders(state: &State, chain_id: u32, token_address: &Address, watched: &Address) -> (users:
    Vec<ChatId>)
    requires
        state.wf(),
    ensures
        users@.no_duplicates(),
        users@.to_set() == state@.watchers_of(
            Subscription {
                chain_id,
                token_address: *token_address,
                token_sender_receiver: *watched,
            },
        ),
{
    match state.get_sub_users(&chain_id, token_address, watched) {
        Some(users) => users,
        None => {
            let users: Vec<ChatId> = Vec::new();
            assert(users@.to_set() =~= Set::<ChatId>::empty());
            users
        },
    }
}

/// The notifications that a matched transfer asks for: its message to each
/// subscriber who watches the receiver, then to each who watches the sender.
pub fn plan_notifications(matched: &MatchedTransfer) -> (plan: Vec<Notification>)
    ensures
        chats(plan@) == matched.receiver_matches@ + matched.sender_matches@,
        forall|i: int| 0 <= i < plan@.len() ==> (#[trigger] plan@[i]).text@ == matched.message@,
{
    let mut plan: Vec<Notification> = Vec::new();
    let mut i: usize = 0;
    while i < matched.receiver_matches.len()
        invariant
            i <= matched.receiver_matches@.len(),
            chats(plan@) == matched.receiver_matches@.take(i as int),
            forall|j: int| 0 <= j < plan@.len() ==> (#[trigger] plan@[j]).text@ == matched.message@,
        decreases matched.receiver_matches@.len() - i,
    {
        let ghost before = plan@;
        plan.push(Notification { chat: matched.receiver_matches[i], text: matched.message.clone() });
        assert(chats(plan@) =~= chats(before).push(matched.receiver_matches@[i as int]));
        i += 1;
        assert(matched.receiver_matches@.take(i as int) =~= matched.receiver_matches@.take(
            i - 1,
        ).push(matched.receiver_matches@[i - 1]));
    }
    assert(matched.receiver_matches@.take(i as int) =~= matched.receiver_matches@);
    assert(matched.receiver_matches@ + matched.sender_matches@.take(0) =~= matched.receiver_matches@);
    let mut k: usize = 0;
    while k < matched.sender_matches.len()
        invariant
            k <= matched.sender_matches@.len(),
            chats(plan@) == matched.receiver_matches@ + matched.sender_matches@.take(k as int),
            forall|j: int| 0 <= j < plan@.len() ==> (#[trigger] plan@[j]).text@ == matched.message@,
        decreases matched.sender_matches@.len() - k,
    {
        let ghost before = plan@;
        plan.push(Notification { chat: matched.sender_matches[k], text: matched.message.clone() });
        assert(chats(plan@) =~= chats(before).push(matched.sender_matches@[k as int]));
        k += 1;
        assert(matched.sender_matches@.take(k as int) =~= matched.sender_matches@.take(k - 1).push(
            matched.sender_matches@[k - 1],
        ));
        assert(chats(plan@) =~= matched.receiver_matches@ + matched.sender_matches@.take(
            k as int,
        ));
    }
    assert(matched.sender_matches@.take(k as int) =~= matched.sender_matches@);
    plan
}

/// In a list without repeats, a value occurs once or not at all.
proof fn lemma_count_once(list: Seq<ChatId>, chat: ChatId)
    requires
        list.no_duplicates(),
    ensures
        list.to_multiset().count(chat) == one_if_among(list.to_set(), chat),
{
    to_multiset_contains(list, chat);
    list.lemma_multiset_has_no_duplicates();
}

/// The notifications that a transfer on `chain` asks for. Nothing where the
/// store has no metadata for the token. Otherwise the message goes once to
/// each subscriber who watches the receiver and once to each who watches the
/// sender: who watches both is notified twice.
pub fn notifications_for(state: &State, chain: &ChainInfo, record: &TransferRecord) -> (plan: Vec<
    Notification,
>)
    requires
        state.wf(),
    ensures
        is_plan_for(plan@, state@, *chain, *record),
{
    match match_transfer(state, chain, record) {
        Some(matched) => {
            let plan = plan_notifications(&matched);
            proof {
                let receivers = matched.receiver_matches@;
                let senders = matched.sender_matches@;
                lemma_multiset_commutative(receivers, senders);
                assert forall|chat: ChatId| #[trigger]
                    times_notified(plan@, chat) == one_if_among(
                        state@.watchers_of(receiver_sub(*chain, *record)),
                        chat,
                    ) + one_if_among(
                        state@.watchers_of(sender_sub(*chain, *record)),
                        chat,
                    ) by {
                    lemma_count_once(receivers, chat);
                    lemma_count_once(senders, chat);
                }
            }
            plan
        },
        None => Vec::new(),
    }
}

/// A transfer of a token without cached metadata is dropped: nothing is sent.
pub proof fn lemma_dropped_without_metadata(
    plan: Seq<Notification>,
    store: StoreModel,
    chain: ChainInfo,
    record: TransferRecord,
)
    requires
        is_plan_for(plan, store, chain, record),
        !store.metadata.contains_key((chain.id, record.address)),
    ensures
        plan.len() == 0,
        forall|chat: ChatId| times_notified(plan, chat) == 0,
{
    assert(chats(plan) =~= Seq::<ChatId>::empty());
    assert forall|chat: ChatId| times_notified(plan, chat) == 0 by {
        to_multiset_contains(chats(plan), chat);
    }
}

/// For a transfer of a token with cached metadata, a subscriber who watches
/// the receiver alone or the sender alone is sent the message once, each
/// whatever the other holds; one who watches both is sent it twice; one who
/// watches neither is sent nothing.
pub proof fn lemma_times_notified(
    plan: Seq<Notification>,
    store: StoreModel,
    chain: ChainInfo,
    record: TransferRecord,
    chat: ChatId,
)
    requires
        is_plan_for(plan, store, chain, record),
        store.metadata.contains_key((chain.id, record.address)),
    ensures
        ({
            let as_receiver = store.watches(receiver_sub(chain, record), chat);
            let as_sender = store.watches(sender_sub(chain, record), chat);
            times_notified(plan, chat) == if as_receiver && as_sender {
                2nat
            } else if as_receiver || as_sender {
                1nat
            } else {
                0nat
            }
        }),
{
}

impl ListenerState {
    /// The state in which a listener starts: at work if the stream could be
    /// opened, stopped if not.
    pub fn start(connected: bool) -> (listener: ListenerState)
        ensures
            listener == if connected {
                ListenerState::Connected
            } else {
                ListenerState::Failed
            },
    {
        if connected {
            ListenerState::Connected
        } else {
            ListenerState::Failed
        }
    }
}

impl TransferLog {
    /// Reads the log entry as a transfer record, if it holds one.
    pub fn into_record(self) -> (record: Option<TransferRecord>)
        ensures
            record == log_record(self),
    {
        match self.transaction_hash {
            Some(transaction_hash) => {
                if self.topics.len() >= 3 {
                    Some(
                        TransferRecord {
                            address: self.address,
                            transaction_hash,
                            from_topic: self.topics[1],
                            to_topic: self.topics[2],
                            data: self.data,
                        },
                    )
                } else {
                    None
                }
            },
            None => None,
        }
    }
}

/// One step of a chain's listener: the state after the event and the
/// notifications to send. A stopped listener stays stopped and sends nothing.
/// One at work stops when the stream ends. On a log entry of a token without
/// cached metadata it stays at work and sends nothing, whatever the entry
/// holds. On one of a token with cached metadata it sends what the entry's
/// transfer record asks for and stays at work; where the entry holds no
/// record, the listener cannot go on and stops.
pub fn listener_step(
    listener: ListenerState,
    state: &State,
    chain: &ChainInfo,
    event: ListenerEvent,
) -> (next: (ListenerState, Vec<Notification>))
    requires
        state.wf(),
    ensures
        match (listener, event) {
            (ListenerState::Connected, ListenerEvent::Log(log)) => {
                if !state@.metadata.contains_key((chain.id, log.address)) {
                    next.0 == ListenerState::Connected && next.1@.len() == 0
                } else {
                    match log_record(log) {
                        Some(record) => next.0 == ListenerState::Connected && is_plan_for(
                            next.1@,
                            state@,
                            *chain,
                            record,
                        ),
                        None => next.0 == ListenerState::Failed && next.1@.len() == 0,
                    }
                }
            },
            _ => next.0 == ListenerState::Failed && next.1@.len() == 0,
        },
{
    match listener {
        ListenerState::Failed => (ListenerState::Failed, Vec::new()),
        ListenerState::Connected => match event {
            ListenerEvent::Log(log) => {
                if state.get_token_metadata(&chain.id, &log.address).is_none() {
                    return (ListenerState::Connected, Vec::new());
                }
                match log.into_record() {
                    Some(record) => (
                        ListenerState::Connected,
                        notifications_for(state, chain, &record),
                    ),
                    None => (ListenerState::Failed, Vec::new()),
                }
            },
            ListenerEvent::Lost => (ListenerState::Failed, Vec::new()),
        },
    }
}

} // verus!
