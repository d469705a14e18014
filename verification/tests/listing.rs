use ethers::types::H160;
use transfer_notifier::address::Address;
use transfer_notifier::state::State;
use transfer_notifier::subscription::ChatId;

/// The shape that a listing spells out, with the formatting of the address
/// type that the node's client uses.
#[derive(Debug)]
struct Subscription {
    chain_id: u32,
    token_address: H160,
    token_sender_receiver: H160,
}

fn expected(subs: &[Subscription]) -> String {
    format!(
        "{:?}",
        subs.iter()
            .enumerate()
            .collect::<Vec<(usize, &Subscription)>>()
    )
}

#[test]
fn listing_of_one_subscription() {
    let mut state = State::new();
    state.insert_sub(11155111, Address([0x11; 20]), Address([0x22; 20]), ChatId(5));
    assert_eq!(
        state.get_user_subscriptions_formated(&ChatId(5)).unwrap(),
        "[(0, Subscription { chain_id: 11155111, \
         token_address: 0x1111111111111111111111111111111111111111, \
         token_sender_receiver: 0x2222222222222222222222222222222222222222 })]"
    );
}

#[test]
fn listing_numbers_the_subscriptions_from_zero() {
    let mut state = State::new();
    let mut subs = Vec::new();
    for i in 0..12u8 {
        let token = [i; 20];
        let mut watched = [0xf0; 20];
        watched[19] = i;
        state.insert_sub(1000 + i as u32, Address(token), Address(watched), ChatId(-9));
        subs.push(Subscription {
            chain_id: 1000 + i as u32,
            token_address: H160(token),
            token_sender_receiver: H160(watched),
        });
    }
    let listing = state.get_user_subscriptions_formated(&ChatId(-9)).unwrap();
    assert_eq!(listing, expected(&subs));
    assert!(listing.starts_with("[(0, Subscription { chain_id: 1000, "));
    assert!(listing.contains("}), (11, Subscription { chain_id: 1011, "));
    assert!(listing.ends_with("f00b })]"));
}

#[test]
fn listing_follows_removals() {
    let mut state = State::new();
    state.insert_sub(1, Address([1; 20]), Address([2; 20]), ChatId(5));
    state.insert_sub(2, Address([3; 20]), Address([4; 20]), ChatId(5));
    state.remove_sub(&ChatId(5), 0).unwrap();
    let left = [Subscription {
        chain_id: 2,
        token_address: H160([3; 20]),
        token_sender_receiver: H160([4; 20]),
    }];
    assert_eq!(
        state.get_user_subscriptions_formated(&ChatId(5)).unwrap(),
        expected(&left)
    );
    assert_eq!(left[0].chain_id, 2);
    assert_eq!(left[0].token_address, H160([3; 20]));
    assert_eq!(left[0].token_sender_receiver, H160([4; 20]));
}
