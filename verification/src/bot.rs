//! The conversation with a subscriber: which handler takes an update, what
//! it answers, and where the conversation goes next.

use crate::address::{parsed_address, Address};
use crate::chains::{first_with_name, Chains};
use crate::state::{listing_text, State};
use crate::subscription::{subscription_text, ChatId, Subscription};
use vstd::prelude::*;
use vstd::string::*;

verus! {

/// Where a conversation stands.
#[derive(Clone, Copy, Debug, PartialEq, Eq)]
pub enum ChatState {
    Start,
    ReceiveChainId,
    ReceiveTokenAddress { chain_id: u32 },
    ReceiveUser { chain_id: u32, token_address: Address },
}

/// What a subscriber can ask for.
#[derive(Clone, Copy, Debug, PartialEq, Eq, Structural)]
pub enum Command {
    Help,
    Subscribe,
    Unsubscribe(u32),
    Subs,
    Cancel,
}

/// What arrives from the messaging front-end.
#[derive(Clone, Debug, PartialEq, Eq)]
pub enum Update {
    /// A message: its text, if it has one, and the command that the text
    /// spells, if it spells one.
    Message { text: Option<String>, command: Option<Command> },
    /// A press on a button: the data that the button carries.
    CallbackQuery { data: Option<String> },
}

/// The handler that takes an update.
#[derive(Clone, Copy, Debug, PartialEq, Eq)]
pub enum Endpoint {
    Help,
    Subscribe,
    Unsubscribe(u32),
    Subs,
    Cancel,
    ReceiveChainId,
    ReceiveTokenAddress { chain_id: u32 },
    ReceiveUser { chain_id: u32, token_address: Address },
    InvalidState,
    /// No handler takes the update.
    Unhandled,
}

/// One message to the subscriber.
#[derive(Clone, Debug, PartialEq, Eq)]
pub enum Reply {
    /// A text.
    Text(String),
    /// The list of commands with what each is for.
    Descriptions,
    /// A text with one button for each chain, which shows and carries the
    /// chain's name.
    ChainKeyboard { text: String, chains: Vec<String> },
}

/// What becomes of the conversation.
#[derive(Clone, Copy, Debug, PartialEq, Eq)]
pub enum Next {
    /// It stays where it is.
    Stay,
    /// It ends; the next update finds it at the start.
    Exit,
    /// It moves on.
    Update(ChatState),
}

/// What a handler asks for: messages to send, in order, and the
/// conversation's next state.
#[derive(Clone, Debug, PartialEq, Eq)]
pub struct Outcome {
    pub replies: Vec<Reply>,
    pub next: Next,
}

/// What the handler of a token address asks for.
#[derive(Clone, Debug, PartialEq, Eq)]
pub enum TokenAddressStep {
    /// Nothing more is needed.
    Done(Outcome),
    /// The token's metadata is not cached: it has to be fetched from the
    /// chain's node.
    Fetch { chain_id: u32, token_address: Address },
}

pub open spec fn invalid_state_text() -> Seq<char> {
    "Unable to handle the message. Type /help to see the usage."@
}

pub open spec fn cancel_text() -> Seq<char> {
    "Cancelling the subscription process."@
}

pub open spec fn subscribe_text() -> Seq<char> {
    "Let's start! Select desired chain."@
}

pub open spec fn select_chain_text() -> Seq<char> {
    "Select a chain:"@
}

pub open spec fn invalid_index_text() -> Seq<char> {
    "Error invalid index."@
}

pub open spec fn no_subs_text() -> Seq<char> {
    "You currently have no subs"@
}

pub open spec fn invalid_address_text() -> Seq<char> {
    "Invalid address. Please insert a valid address."@
}

pub open spec fn send_token_address_text() -> Seq<char> {
    "Please, send the token address."@
}

pub open spec fn not_a_token_text() -> Seq<char> {
    "Address given does not correspond to a token, please insert an ERC20 token address."@
}

pub open spec fn send_address_text() -> Seq<char> {
    "Please send an address"@
}

pub open spec fn all_set_text() -> Seq<char> {
    "Everything is set."@
}

/// The answer to an unsubscription that went through.
pub open spec fn unsubscribed_text(sub: Subscription) -> Seq<char> {
    "Succesfully unsubscribed from "@ + subscription_text(sub)
}

/// The answer that lists what a subscriber holds.
pub open spec fn your_subs_text(subs: Seq<Subscription>) -> Seq<char> {
    "Your subs \""@ + listing_text(subs) + "\""@
}

/// The answer to the choice of a chain.
pub open spec fn chain_selected_text(chain_name: Seq<char>) -> Seq<char> {
    "You've selected "@ + chain_name + " chain.\n Please insert the token address."@
}

/// The answer to a token address that names a token.
pub open spec fn token_found_text(name: Seq<char>, symbol: Seq<char>) -> Seq<char> {
    "Target token has name: "@ + name + ", and symbol: "@ + symbol
        + " .\n Please insert the user address."@
}

/// The outcome is one text and the given next state.
pub open spec fn says(outcome: Outcome, text: Seq<char>, next: Next) -> bool {
    &&& outcome.replies@.len() == 1
    &&& outcome.replies@[0] matches Reply::Text(reply)
    &&& reply@ == text
    &&& outcome.next == next
}

/// The handler that takes `update` in a conversation at `state`.
///
/// A message that spells a command goes, at the start of a conversation, to
/// the command's handler, and a cancel command does so anywhere. Any other
/// message goes to the handler that waits for a token address or for a user
/// address, if the conversation is there, and else to the handler of what
/// cannot be handled. A press on a button goes to the handler of the chain
/// choice if the conversation waits for it; otherwise nothing takes it.
pub open spec fn routed(state: ChatState, update: Update) -> Endpoint {
    match update {
        Update::Message { text, command } => match (command, state) {
            (Some(Command::Help), ChatState::Start) => Endpoint::Help,
            (Some(Command::Subscribe), ChatState::Start) => Endpoint::Subscribe,
            (Some(Command::Unsubscribe(index)), ChatState::Start) => Endpoint::Unsubscribe(index),
            (Some(Command::Subs), ChatState::Start) => Endpoint::Subs,
            (Some(Command::Cancel), _) => Endpoint::Cancel,
            (_, ChatState::ReceiveTokenAddress { chain_id }) => Endpoint::ReceiveTokenAddress {
                chain_id,
            },
            (_, ChatState::ReceiveUser { chain_id, token_address }) => Endpoint::ReceiveUser {
                chain_id,
                token_address,
            },
            _ => Endpoint::InvalidState,
        },
        Update::CallbackQuery { data } => match state {
            ChatState::ReceiveChainId => Endpoint::ReceiveChainId,
            _ => Endpoint::Unhandled,
        },
    }
}

/// Finds the handler that takes `update` in a conversation at `state`.
pub fn route(state: &ChatState, update: &Update) -> (endpoint: Endpoint)
    ensures
        endpoint == routed(*state, *update),
{
    match update {
        Update::Message { text: _, command } => {
            match command {
                Some(Command::Cancel) => {
                    return Endpoint::Cancel;
                },
                Some(command) => {
                    if let ChatState::Start = state {
                        return match command {
                            Command::Help => Endpoint::Help,
                            Command::Subscribe => Endpoint::Subscribe,
                            Command::Unsubscribe(index) => Endpoint::Unsubscribe(*index),
                            Command::Subs => Endpoint::Subs,
                            Command::Cancel => Endpoint::Cancel,
                        };
                    }
                },
                None => {},
            }
            match state {
                ChatState::ReceiveTokenAddress { chain_id } => Endpoint::ReceiveTokenAddress {
                    chain_id: *chain_id,
                },
                ChatState::ReceiveUser { chain_id, token_address } => Endpoint::ReceiveUser {
                    chain_id: *chain_id,
                    token_address: *token_address,
                },
                _ => Endpoint::InvalidState,
            }
        },
        Update::CallbackQuery { data: _ } => match state {
            ChatState::ReceiveChainId => Endpoint::ReceiveChainId,
            _ => Endpoint::Unhandled,
        },
    }
}

/// An outcome of one text.
fn say(text: &str, next: Next) -> (outcome: Outcome)
    ensures
        says(outcome, text@, next),
{
    say_owned(text.to_owned(), next)
}

/// An outcome of one text.
fn say_owned(text: String, next: Next) -> (outcome: Outcome)
    ensures
        says(outcome, text@, next),
{
    let mut replies: Vec<Reply> = Vec::new();
    replies.push(Reply::Text(text));
    Outcome { replies, next }
}

/// Answers a message that no other handler takes.
pub fn invalid_state() -> (outcome: Outcome)
    ensures
        says(outcome, invalid_state_text(), Next::Stay),
{
    say("Unable to handle the message. Type /help to see the usage.", Next::Stay)
}

/// Ends the conversation.
pub fn cancel() -> (outcome: Outcome)
    ensures
        says(outcome, cancel_text(), Next::Exit),
{
    say("Cancelling the subscription process.", Next::Exit)
}

/// Answers with the list of commands.
pub fn help() -> (outcome: Outcome)
    ensures
        outcome.replies@.len() == 1,
        outcome.replies@[0] == Reply::Descriptions,
        outcome.next == Next::Stay,
{
    let mut replies: Vec<Reply> = Vec::new();
    replies.push(Reply::Descriptions);
    Outcome { replies, next: Next::Stay }
}

/// Opens a subscription: offers the chains of the table, each by its name and
/// in the table's order, and waits for the choice.
pub fn subscribe(chains: &Chains) -> (outcome: Outcome)
    ensures
        outcome.replies@.len() == 2,
        outcome.replies@[0] matches Reply::Text(text) && text@ == subscribe_text(),
        outcome.replies@[1] matches Reply::ChainKeyboard { text, chains: names } && text@
            == select_chain_text() && names@.len() == chains.list@.len() && forall|i: int|
            0 <= i < names@.len() ==> (#[trigger] names@[i])@ == chains.list@[i].name@,
        outcome.next == Next::Update(ChatState::ReceiveChainId),
{
    let mut names: Vec<String> = Vec::new();
    let mut i: usize = 0;
    while i < chains.list.len()
        invariant
            i <= chains.list@.len(),
            names@.len() == i,
            forall|j: int| 0 <= j < i ==> (#[trigger] names@[j])@ == chains.list@[j].name@,
        decreases chains.list@.len() - i,
    {
        names.push(chains.list[i].name.to_owned());
        i += 1;
    }
    let mut replies: Vec<Reply> = Vec::new();
    replies.push(Reply::Text("Let's start! Select desired chain.".to_owned()));
    replies.push(Reply::ChainKeyboard { text: "Select a chain:".to_owned(), chains: names });
    Outcome { replies, next: Next::Update(ChatState::ReceiveChainId) }
}

/// Takes the subscription at position `index` from what `chat` holds, and
/// says which it was; says that the position is not valid where it is not,
/// and then changes nothing.
pub fn unsubscribe(state: &mut State, chat: ChatId, index: u32) -> (outcome: Outcome)
    requires
        old(state).wf(),
    ensures
        final(state).wf(),
        final(state)@ == old(state)@.remove_sub(chat, index as int),
        old(state)@.valid_index(chat, index as int) ==> says(
            outcome,
            unsubscribed_text(old(state)@.subscriptions[chat][index as int]),
            Next::Stay,
        ),
        !old(state)@.valid_index(chat, index as int) ==> says(
            outcome,
            invalid_index_text(),
            Next::Stay,
        ),
{
    match state.remove_sub(&chat, index as usize) {
        Ok(subscription) => {
            let mut text = "Succesfully unsubscribed from ".to_owned();
            text.append(subscription.to_text().as_str());
            say_owned(text, Next::Stay)
        },
        Err(_) => say("Error invalid index.", Next::Stay),
    }
}

/// Lists what `chat` holds, or says that they hold nothing.
pub fn subs(state: &State, chat: ChatId) -> (outcome: Outcome)
    requires
        state.wf(),
    ensures
        says(
            outcome,
            if state@.subscriptions_of(chat).len() > 0 {
                your_subs_text(state@.subscriptions_of(chat))
            } else {
                no_subs_text()
            },
            Next::Stay,
        ),
{
    match state.get_user_subscriptions_formated(&chat) {
        Some(listing) => {
            let mut text = "Your subs \"".to_owned();
            text.append(listing.as_str());
            text.append("\"");
            say_owned(text, Next::Stay)
        },
        None => say("You currently have no subs", Next::Stay),
    }
}

/// Takes the choice of a chain. A press that carries the name of a chain of
/// the table is answered, and the conversation goes on to wait for a token
/// address on that chain, the first of that name. Any other press is passed
/// over: no answer, and the conversation stays.
pub fn receive_chain_id(chains: &Chains, data: Option<&str>) -> (outcome: Outcome)
    ensures
        match data {
            Some(chain_name) => {
                if exists|i: int| first_with_name(chains.list@, chain_name@, i) {
                    exists|i: int|
                        first_with_name(chains.list@, chain_name@, i) && says(
                            outcome,
                            chain_selected_text(chain_name@),
                            Next::Update(
                                ChatState::ReceiveTokenAddress { chain_id: chains.list@[i].id },
                            ),
                        )
                } else {
                    outcome.replies@.len() == 0 && outcome.next == Next::Stay
                }
            },
            None => outcome.replies@.len() == 0 && outcome.next == Next::Stay,
        },
{
    if let Some(chain_name) = data {
        if let Some(chain_id) = chains.id_by_name(chain_name) {
            let mut text = "You've selected ".to_owned();
            text.append(chain_name);
            text.append(" chain.\n Please insert the token address.");
            return say_owned(text, Next::Update(ChatState::ReceiveTokenAddress { chain_id }));
        }
    }
    Outcome { replies: Vec::new(), next: Next::Stay }
}

/// The answer to a token address that names a token, and the move to wait
/// for the address to watch.
fn token_found(chain_id: u32, token_address: Address, name: &str, symbol: &str) -> (outcome:
    Outcome)
    ensures
        says(
            outcome,
            token_found_text(name@, symbol@),
            Next::Update(ChatState::ReceiveUser { chain_id, token_address }),
        ),
{
    let mut text = "Target token has name: ".to_owned();
    text.append(name);
    text.append(", and symbol: ");
    text.append(symbol);
    text.append(" .\n Please insert the user address.");
    say_owned(text, Next::Update(ChatState::ReceiveUser { chain_id, token_address }))
}

/// What follows from a message in a conversation that waits for a token
/// address, once the message's text has been read as an address. Without a
/// text, and with a text that spells no address, the subscriber is asked
/// again. With an address whose token has cached metadata, the token is
/// named and the conversation goes on; with any other address, the metadata
/// has to be fetched.
pub fn token_address_received(
    state: &State,
    chain_id: u32,
    has_text: bool,
    parsed: Option<Address>,
) -> (step: TokenAddressStep)
    requires
        state.wf(),
    ensures
        match (has_text, parsed) {
            (false, _) => step matches TokenAddressStep::Done(outcome) && says(
                outcome,
                send_token_address_text(),
                Next::Stay,
            ),
            (true, None) => step matches TokenAddressStep::Done(outcome) && says(
                outcome,
                invalid_address_text(),
                Next::Stay,
            ),
            (true, Some(token_address)) => {
                let token = (chain_id, token_address);
                if state@.metadata.contains_key(token) {
                    step matches TokenAddressStep::Done(outcome) && says(
                        outcome,
                        token_found_text(state@.metadata[token].0, state@.metadata[token].1),
                        Next::Update(ChatState::ReceiveUser { chain_id, token_address }),
                    )
                } else {
                    step == (TokenAddressStep::Fetch { chain_id, token_address })
                }
            },
        },
{
    if !has_text {
        return TokenAddressStep::Done(say("Please, send the token address.", Next::Stay));
    }
    match parsed {
        Some(token_address) => match state.get_token_metadata(&chain_id, &token_address) {
            Some(metadata) => TokenAddressStep::Done(
                token_found(chain_id, token_address, metadata.0.as_str(), metadata.1.as_str()),
            ),
            None => TokenAddressStep::Fetch { chain_id, token_address },
        },
        None => TokenAddressStep::Done(
            say("Invalid address. Please insert a valid address.", Next::Stay),
        ),
    }
}

/// Takes a message in a conversation that waits for a token address: reads
/// the text as an address and goes on as `token_address_received` says.
pub fn receive_token_address(state: &State, chain_id: u32, text: Option<&str>) -> (step:
    TokenAddressStep)
    requires
        state.wf(),
    ensures
        match text {
            Some(text) => match parsed_address(text@) {
                None => step matches TokenAddressStep::Done(outcome) && says(
                    outcome,
                    invalid_address_text(),
                    Next::Stay,
                ),
                Some(token_address) => {
                    let token = (chain_id, token_address);
                    if state@.metadata.contains_key(token) {
                        step matches TokenAddressStep::Done(outcome) && says(
                            outcome,
                            token_found_text(state@.metadata[token].0, state@.metadata[token].1),
                            Next::Update(ChatState::ReceiveUser { chain_id, token_address }),
                        )
                    } else {
                        step == (TokenAddressStep::Fetch { chain_id, token_address })
                    }
                },
            },
            None => step matches TokenAddressStep::Done(outcome) && says(
                outcome,
                send_token_address_text(),
                Next::Stay,
            ),
        },
{
    match text {
        Some(text) => token_address_received(state, chain_id, true, Address::parse(text)),
        None => token_address_received(state, chain_id, false, None),
    }
}

/// Takes what the chain's node says of a token address. Metadata that was
/// fetched is cached, unless the token has some already, the token is named
/// as fetched, and the conversation goes on to wait for the address to
/// watch. Where nothing could be fetched the address is no token's: the
/// subscriber is asked again and nothing changes.
pub fn token_metadata_fetched(
    state: &mut State,
    chain_id: u32,
    token_address: Address,
    fetched: Option<(String, String, u8)>,
) -> (outcome: Outcome)
    requires
        old(state).wf(),
    ensures
        final(state).wf(),
        match fetched {
            Some(metadata) => final(state)@ == old(state)@.insert_metadata(
                chain_id,
                token_address,
                (metadata.0@, metadata.1@, metadata.2),
            ) && says(
                outcome,
                token_found_text(metadata.0@, metadata.1@),
                Next::Update(ChatState::ReceiveUser { chain_id, token_address }),
            ),
            None => final(state)@ == old(state)@ && says(outcome, not_a_token_text(), Next::Stay),
        },
{
    match fetched {
        Some(metadata) => {
            let outcome = token_found(
                chain_id,
                token_address,
                metadata.0.as_str(),
                metadata.1.as_str(),
            );
            state.insert_token_metadata(&chain_id, token_address, metadata.0, metadata.1, metadata.2);
            outcome
        },
        None => say(
            "Address given does not correspond to a token, please insert an ERC20 token address.",
            Next::Stay,
        ),
    }
}

/// What follows from a message in a conversation that waits for the address
/// to watch, once the message's text has been read as an address. With an
/// address, `chat` is subscribed to it for the token on the chain, and the
/// conversation ends. Without a text, and with a text that spells no
/// address, the subscriber is asked again and nothing changes.
pub fn user_address_received(
    state: &mut State,
    chat: ChatId,
    chain_id: u32,
    token_address: Address,
    has_text: bool,
    parsed: Option<Address>,
) -> (outcome: Outcome)
    requires
        old(state).wf(),
    ensures
        final(state).wf(),
        match (has_text, parsed) {
            (false, _) => final(state)@ == old(state)@ && says(
                outcome,
                send_address_text(),
                Next::Stay,
            ),
            (true, None) => final(state)@ == old(state)@ && says(
                outcome,
                invalid_address_text(),
                Next::Stay,
            ),
            (true, Some(user_address)) => final(state)@ == old(state)@.insert_sub(
                Subscription { chain_id, token_address, token_sender_receiver: user_address },
                chat,
            ) && says(outcome, all_set_text(), Next::Exit),
        },
{
    if !has_text {
        return say("Please send an address", Next::Stay);
    }
    match parsed {
        Some(user_address) => {
            state.insert_sub(chain_id, token_address, user_address, chat);
            say("Everything is set.", Next::Exit)
        },
        None => say("Invalid address. Please insert a valid address.", Next::Stay),
    }
}

/// Takes a message in a conversation that waits for the address to watch:
/// reads the text as an address and goes on as `user_address_received` says.
pub fn receive_user(
    state: &mut State,
    chat: ChatId,
    chain_id: u32,
    token_address: Address,
    text: Option<&str>,
) -> (outcome: Outcome)
    requires
        old(state).wf(),
    ensures
        final(state).wf(),
        match text {
            Some(text) => match parsed_address(text@) {
                Some(user_address) => final(state)@ == old(state)@.insert_sub(
                    Subscription { chain_id, token_address, token_sender_receiver: user_address },
                    chat,
                ) && says(outcome, all_set_text(), Next::Exit),
                None => final(state)@ == old(state)@ && says(
                    outcome,
                    invalid_address_text(),
                    Next::Stay,
                ),
            },
            None => final(state)@ == old(state)@ && says(outcome, send_address_text(), Next::Stay),
        },
{
    match text {
        Some(text) => user_address_received(
            state,
            chat,
            chain_id,
            token_address,
            true,
            Address::parse(text),
        ),
        None => user_address_received(state, chat, chain_id, token_address, false, None),
    }
}

} // verus!
