use transfer_notifier::address::Address;
use transfer_notifier::bot::{
    cancel, help, invalid_state, receive_chain_id, receive_token_address, receive_user, route,
    subs, subscribe, token_address_received, token_metadata_fetched, unsubscribe,
    user_address_received, ChatState, Command, Endpoint, Next, Outcome, Reply, TokenAddressStep,
    Update,
};
use transfer_notifier::chains::{ChainInfo, Chains};
use transfer_notifier::state::State;
use transfer_notifier::subscription::{ChatId, Subscription};

const CHAIN: u32 = 11155111;
const TOKEN_TEXT: &str = "0x1111111111111111111111111111111111111111";
const USER_TEXT: &str = "0x2222222222222222222222222222222222222222";

fn token() -> Address {
    Address([0x11; 20])
}

fn user_address() -> Address {
    Address([0x22; 20])
}

fn text_outcome(text: &str, next: Next) -> Outcome {
    Outcome { replies: vec![Reply::Text(text.to_string())], next }
}

fn message(text: &str, command: Option<Command>) -> Update {
    Update::Message { text: Some(text.to_string()), command }
}

#[test]
fn commands_are_taken_at_the_start() {
    let start = ChatState::Start;
    assert_eq!(route(&start, &message("/help", Some(Command::Help))), Endpoint::Help);
    assert_eq!(
        route(&start, &message("/subscribe", Some(Command::Subscribe))),
        Endpoint::Subscribe
    );
    assert_eq!(
        route(&start, &message("/unsubscribe 3", Some(Command::Unsubscribe(3)))),
        Endpoint::Unsubscribe(3)
    );
    assert_eq!(route(&start, &message("/subs", Some(Command::Subs))), Endpoint::Subs);
    assert_eq!(route(&start, &message("/cancel", Some(Command::Cancel))), Endpoint::Cancel);
}

#[test]
fn cancel_is_taken_anywhere() {
    let cancel = message("/cancel", Some(Command::Cancel));
    assert_eq!(route(&ChatState::ReceiveChainId, &cancel), Endpoint::Cancel);
    assert_eq!(
        route(&ChatState::ReceiveTokenAddress { chain_id: 1 }, &cancel),
        Endpoint::Cancel
    );
    assert_eq!(
        route(&ChatState::ReceiveUser { chain_id: 1, token_address: token() }, &cancel),
        Endpoint::Cancel
    );
}

#[test]
fn other_commands_are_plain_messages_outside_the_start() {
    let subs = message("/subs", Some(Command::Subs));
    assert_eq!(route(&ChatState::ReceiveChainId, &subs), Endpoint::InvalidState);
    assert_eq!(
        route(&ChatState::ReceiveTokenAddress { chain_id: 4 }, &subs),
        Endpoint::ReceiveTokenAddress { chain_id: 4 }
    );
    assert_eq!(
        route(&ChatState::ReceiveUser { chain_id: 4, token_address: token() }, &subs),
        Endpoint::ReceiveUser { chain_id: 4, token_address: token() }
    );
}

#[test]
fn plain_messages_go_to_the_waiting_handler() {
    let plain = message("hello", None);
    assert_eq!(route(&ChatState::Start, &plain), Endpoint::InvalidState);
    assert_eq!(route(&ChatState::ReceiveChainId, &plain), Endpoint::InvalidState);
    assert_eq!(
        route(&ChatState::ReceiveTokenAddress { chain_id: 4 }, &plain),
        Endpoint::ReceiveTokenAddress { chain_id: 4 }
    );
    let no_text = Update::Message { text: None, command: None };
    assert_eq!(
        route(&ChatState::ReceiveUser { chain_id: 4, token_address: token() }, &no_text),
        Endpoint::ReceiveUser { chain_id: 4, token_address: token() }
    );
}

#[test]
fn button_presses_are_taken_only_while_a_chain_is_chosen() {
    let press = Update::CallbackQuery { data: Some("ETH Sepolia".to_string()) };
    assert_eq!(route(&ChatState::ReceiveChainId, &press), Endpoint::ReceiveChainId);
    assert_eq!(route(&ChatState::Start, &press), Endpoint::Unhandled);
    assert_eq!(
        route(&ChatState::ReceiveTokenAddress { chain_id: 4 }, &press),
        Endpoint::Unhandled
    );
    assert_eq!(
        route(&ChatState::ReceiveUser { chain_id: 4, token_address: token() }, &press),
        Endpoint::Unhandled
    );
}

#[test]
fn fixed_answers() {
    assert_eq!(
        invalid_state(),
        text_outcome("Unable to handle the message. Type /help to see the usage.", Next::Stay)
    );
    assert_eq!(cancel(), text_outcome("Cancelling the subscription process.", Next::Exit));
    assert_eq!(help(), Outcome { replies: vec![Reply::Descriptions], next: Next::Stay });
}

#[test]
fn subscribing_offers_the_chains() {
    let chains = Chains {
        list: vec![
            ChainInfo { id: 1, name: "Main", scanner_url: "a/", ws: "ws://a" },
            ChainInfo { id: 2, name: "Test", scanner_url: "b/", ws: "ws://b" },
        ],
    };
    assert_eq!(
        subscribe(&chains),
        Outcome {
            replies: vec![
                Reply::Text("Let's start! Select desired chain.".to_string()),
                Reply::ChainKeyboard {
                    text: "Select a chain:".to_string(),
                    chains: vec!["Main".to_string(), "Test".to_string()],
                },
            ],
            next: Next::Update(ChatState::ReceiveChainId),
        }
    );
}

#[test]
fn choosing_a_chain_asks_for_the_token() {
    let chains = Chains::configured();
    assert_eq!(
        receive_chain_id(&chains, Some("ETH Sepolia")),
        text_outcome(
            "You've selected ETH Sepolia chain.\n Please insert the token address.",
            Next::Update(ChatState::ReceiveTokenAddress { chain_id: CHAIN })
        )
    );
}

#[test]
fn a_press_without_a_known_chain_is_passed_over() {
    let chains = Chains::configured();
    let nothing = Outcome { replies: vec![], next: Next::Stay };
    assert_eq!(receive_chain_id(&chains, None), nothing);
    assert_eq!(receive_chain_id(&chains, Some("Local")), nothing);
    assert_eq!(receive_chain_id(&chains, Some("")), nothing);
}

#[test]
fn token_with_cached_metadata_is_named() {
    let mut state = State::new();
    state.insert_token_metadata(&CHAIN, token(), "Tether".to_string(), "USDT".to_string(), 6);
    assert_eq!(
        receive_token_address(&state, CHAIN, Some(TOKEN_TEXT)),
        TokenAddressStep::Done(text_outcome(
            "Target token has name: Tether, and symbol: USDT .\n Please insert the user address.",
            Next::Update(ChatState::ReceiveUser { chain_id: CHAIN, token_address: token() })
        ))
    );
}

#[test]
fn token_without_cached_metadata_has_to_be_fetched() {
    let mut state = State::new();
    state.insert_token_metadata(&1, token(), "Tether".to_string(), "USDT".to_string(), 6);
    assert_eq!(
        receive_token_address(&state, CHAIN, Some(TOKEN_TEXT)),
        TokenAddressStep::Fetch { chain_id: CHAIN, token_address: token() }
    );
    assert_eq!(
        token_address_received(&state, CHAIN, true, Some(user_address())),
        TokenAddressStep::Fetch { chain_id: CHAIN, token_address: user_address() }
    );
}

#[test]
fn token_address_is_asked_for_again() {
    let state = State::new();
    assert_eq!(
        receive_token_address(&state, CHAIN, None),
        TokenAddressStep::Done(text_outcome("Please, send the token address.", Next::Stay))
    );
    let invalid = TokenAddressStep::Done(text_outcome(
        "Invalid address. Please insert a valid address.",
        Next::Stay,
    ));
    assert_eq!(receive_token_address(&state, CHAIN, Some("not an address")), invalid);
    assert_eq!(receive_token_address(&state, CHAIN, Some("/subs")), invalid);
    assert_eq!(token_address_received(&state, CHAIN, true, None), invalid);
    assert_eq!(
        token_address_received(&state, CHAIN, false, Some(token())),
        TokenAddressStep::Done(text_outcome("Please, send the token address.", Next::Stay))
    );
}

#[test]
fn fetched_metadata_is_cached_and_named() {
    let mut state = State::new();
    let fetched = Some(("Tether".to_string(), "USDT".to_string(), 6));
    assert_eq!(
        token_metadata_fetched(&mut state, CHAIN, token(), fetched),
        text_outcome(
            "Target token has name: Tether, and symbol: USDT .\n Please insert the user address.",
            Next::Update(ChatState::ReceiveUser { chain_id: CHAIN, token_address: token() })
        )
    );
    assert_eq!(
        state.get_token_metadata(&CHAIN, &token()),
        Some(&("Tether".to_string(), "USDT".to_string(), 6))
    );
}

#[test]
fn fetched_metadata_does_not_replace_what_is_cached() {
    let mut state = State::new();
    state.insert_token_metadata(&CHAIN, token(), "Tether".to_string(), "USDT".to_string(), 6);
    let fetched = Some(("Other".to_string(), "OTH".to_string(), 18));
    token_metadata_fetched(&mut state, CHAIN, token(), fetched);
    assert_eq!(
        state.get_token_metadata(&CHAIN, &token()),
        Some(&("Tether".to_string(), "USDT".to_string(), 6))
    );
}

#[test]
fn address_that_is_no_token_changes_nothing() {
    let mut state = State::new();
    assert_eq!(
        token_metadata_fetched(&mut state, CHAIN, token(), None),
        text_outcome(
            "Address given does not correspond to a token, please insert an ERC20 token address.",
            Next::Stay
        )
    );
    assert_eq!(state.get_token_metadata(&CHAIN, &token()), None);
}

#[test]
fn user_address_completes_the_subscription() {
    let mut state = State::new();
    assert_eq!(
        receive_user(&mut state, ChatId(5), CHAIN, token(), Some(USER_TEXT)),
        text_outcome("Everything is set.", Next::Exit)
    );
    assert_eq!(
        state.list_subscriptions(&ChatId(5)),
        Some(&vec![Subscription {
            chain_id: CHAIN,
            token_address: token(),
            token_sender_receiver: user_address(),
        }])
    );
    assert_eq!(
        state.get_sub_users(&CHAIN, &token(), &user_address()),
        Some(vec![ChatId(5)])
    );
}

#[test]
fn user_address_is_asked_for_again() {
    let mut state = State::new();
    assert_eq!(
        receive_user(&mut state, ChatId(5), CHAIN, token(), None),
        text_outcome("Please send an address", Next::Stay)
    );
    let invalid = text_outcome("Invalid address. Please insert a valid address.", Next::Stay);
    assert_eq!(receive_user(&mut state, ChatId(5), CHAIN, token(), Some("0x22")), invalid);
    assert_eq!(
        user_address_received(&mut state, ChatId(5), CHAIN, token(), true, None),
        invalid
    );
    assert_eq!(
        user_address_received(&mut state, ChatId(5), CHAIN, token(), false, Some(user_address())),
        text_outcome("Please send an address", Next::Stay)
    );
    assert_eq!(state.list_subscriptions(&ChatId(5)), None);
    assert_eq!(state.get_sub_users(&CHAIN, &token(), &user_address()), None);
}

#[test]
fn parsed_user_address_is_subscribed() {
    let mut state = State::new();
    assert_eq!(
        user_address_received(&mut state, ChatId(5), CHAIN, token(), true, Some(user_address())),
        text_outcome("Everything is set.", Next::Exit)
    );
    assert_eq!(
        state.get_sub_users(&CHAIN, &token(), &user_address()),
        Some(vec![ChatId(5)])
    );
}

#[test]
fn subs_lists_what_is_held() {
    let mut state = State::new();
    assert_eq!(subs(&state, ChatId(5)), text_outcome("You currently have no subs", Next::Stay));
    state.insert_sub(CHAIN, token(), user_address(), ChatId(5));
    let listing = "[(0, Subscription { chain_id: 11155111, \
                   token_address: 0x1111111111111111111111111111111111111111, \
                   token_sender_receiver: 0x2222222222222222222222222222222222222222 })]";
    assert_eq!(
        subs(&state, ChatId(5)),
        text_outcome(&format!("Your subs {:?}", listing), Next::Stay)
    );
    assert_eq!(
        subs(&state, ChatId(5)),
        text_outcome(&format!("Your subs \"{}\"", listing), Next::Stay)
    );
    assert_eq!(subs(&state, ChatId(6)), text_outcome("You currently have no subs", Next::Stay));
}

#[test]
fn unsubscribing_names_what_was_removed() {
    let mut state = State::new();
    state.insert_sub(CHAIN, token(), user_address(), ChatId(5));
    state.insert_sub(CHAIN, token(), token(), ChatId(5));
    assert_eq!(
        unsubscribe(&mut state, ChatId(5), 1),
        text_outcome(
            "Succesfully unsubscribed from Subscription { chain_id: 11155111, \
             token_address: 0x1111111111111111111111111111111111111111, \
             token_sender_receiver: 0x1111111111111111111111111111111111111111 }",
            Next::Stay
        )
    );
    assert_eq!(state.list_subscriptions(&ChatId(5)).unwrap().len(), 1);
    assert_eq!(state.get_sub_users(&CHAIN, &token(), &token()), Some(vec![]));
}

#[test]
fn unsubscribing_at_an_invalid_position_is_refused() {
    let mut state = State::new();
    state.insert_sub(CHAIN, token(), user_address(), ChatId(5));
    let refused = text_outcome("Error invalid index.", Next::Stay);
    assert_eq!(unsubscribe(&mut state, ChatId(5), 1), refused);
    assert_eq!(unsubscribe(&mut state, ChatId(5), u32::MAX), refused);
    assert_eq!(unsubscribe(&mut state, ChatId(6), 0), refused);
    assert_eq!(state.list_subscriptions(&ChatId(5)).unwrap().len(), 1);
}
