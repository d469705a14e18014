use transfer_notifier::address::Address;
use transfer_notifier::state::{State, StoreError};
use transfer_notifier::subscription::{ChatId, Subscription};

const CHAIN: u32 = 11155111;

fn addr(byte: u8) -> Address {
    Address([byte; 20])
}

fn sub(chain_id: u32, token: u8, watched: u8) -> Subscription {
    Subscription {
        chain_id,
        token_address: addr(token),
        token_sender_receiver: addr(watched),
    }
}

fn holders(state: &State, chain_id: u32, token: u8, watched: u8) -> Option<Vec<i64>> {
    state
        .get_sub_users(&chain_id, &addr(token), &addr(watched))
        .map(|users| {
            let mut numbers: Vec<i64> = users.iter().map(|user| user.0).collect();
            numbers.sort();
            numbers
        })
}

fn listed(state: &State, user: i64) -> Vec<Subscription> {
    state
        .list_subscriptions(&ChatId(user))
        .cloned()
        .unwrap_or_default()
}

/// Both indexes say the same of every subscriber and subscription in sight.
fn assert_consistent(state: &State, users: &[i64], subs: &[Subscription]) {
    for user in users {
        let list = listed(state, *user);
        for (i, a) in list.iter().enumerate() {
            for b in list.iter().skip(i + 1) {
                assert!(a != b);
            }
        }
        for s in subs {
            let forward = state
                .get_sub_users(&s.chain_id, &s.token_address, &s.token_sender_receiver)
                .map(|holders| holders.contains(&ChatId(*user)))
                .unwrap_or(false);
            assert_eq!(forward, list.contains(s));
        }
    }
}

#[test]
fn new_store_is_empty() {
    let state = State::new();
    assert_eq!(state.list_subscriptions(&ChatId(1)), None);
    assert_eq!(state.get_user_subscriptions_formated(&ChatId(1)), None);
    assert_eq!(holders(&state, CHAIN, 1, 2), None);
    assert_eq!(state.get_token_metadata(&CHAIN, &addr(1)), None);
}

#[test]
fn subscribing_fills_both_indexes() {
    let mut state = State::new();
    state.insert_sub(CHAIN, addr(1), addr(2), ChatId(7));
    assert_eq!(holders(&state, CHAIN, 1, 2), Some(vec![7]));
    assert_eq!(listed(&state, 7), vec![sub(CHAIN, 1, 2)]);
}

#[test]
fn subscribing_twice_is_subscribing_once() {
    let mut state = State::new();
    state.insert_sub(CHAIN, addr(1), addr(2), ChatId(7));
    state.insert_sub(CHAIN, addr(1), addr(2), ChatId(7));
    assert_eq!(holders(&state, CHAIN, 1, 2), Some(vec![7]));
    assert_eq!(listed(&state, 7), vec![sub(CHAIN, 1, 2)]);
}

#[test]
fn lookup_is_by_the_exact_triple() {
    let mut state = State::new();
    state.insert_sub(CHAIN, addr(1), addr(2), ChatId(7));
    assert_eq!(holders(&state, CHAIN, 1, 3), None);
    assert_eq!(holders(&state, CHAIN, 2, 2), None);
    assert_eq!(holders(&state, CHAIN, 2, 1), None);
    assert_eq!(holders(&state, 1, 1, 2), None);
    let mut near = addr(2);
    near.0[19] = 3;
    assert_eq!(state.get_sub_users(&CHAIN, &addr(1), &near), None);
}

#[test]
fn several_subscribers_share_a_subscription() {
    let mut state = State::new();
    state.insert_sub(CHAIN, addr(1), addr(2), ChatId(7));
    state.insert_sub(CHAIN, addr(1), addr(2), ChatId(-3));
    state.insert_sub(CHAIN, addr(1), addr(2), ChatId(9));
    assert_eq!(holders(&state, CHAIN, 1, 2), Some(vec![-3, 7, 9]));
    assert_eq!(listed(&state, -3), vec![sub(CHAIN, 1, 2)]);
}

#[test]
fn subscriptions_are_listed_in_the_order_made() {
    let mut state = State::new();
    state.insert_sub(CHAIN, addr(1), addr(2), ChatId(7));
    state.insert_sub(1, addr(3), addr(4), ChatId(7));
    state.insert_sub(CHAIN, addr(1), addr(5), ChatId(7));
    state.insert_sub(1, addr(3), addr(4), ChatId(7));
    assert_eq!(
        listed(&state, 7),
        vec![sub(CHAIN, 1, 2), sub(1, 3, 4), sub(CHAIN, 1, 5)]
    );
}

#[test]
fn removing_takes_exactly_the_entry_at_the_position() {
    let mut state = State::new();
    state.insert_sub(CHAIN, addr(1), addr(2), ChatId(7));
    state.insert_sub(CHAIN, addr(1), addr(3), ChatId(7));
    state.insert_sub(CHAIN, addr(1), addr(4), ChatId(7));
    state.insert_sub(CHAIN, addr(1), addr(3), ChatId(8));
    assert_eq!(state.remove_sub(&ChatId(7), 1), Ok(sub(CHAIN, 1, 3)));
    assert_eq!(listed(&state, 7), vec![sub(CHAIN, 1, 2), sub(CHAIN, 1, 4)]);
    assert_eq!(listed(&state, 8), vec![sub(CHAIN, 1, 3)]);
    assert_eq!(holders(&state, CHAIN, 1, 3), Some(vec![8]));
    assert_eq!(holders(&state, CHAIN, 1, 2), Some(vec![7]));
    assert_eq!(holders(&state, CHAIN, 1, 4), Some(vec![7]));
}

#[test]
fn later_positions_move_down_after_a_removal() {
    let mut state = State::new();
    for watched in 1..=4 {
        state.insert_sub(CHAIN, addr(9), addr(watched), ChatId(7));
    }
    assert_eq!(state.remove_sub(&ChatId(7), 1), Ok(sub(CHAIN, 9, 2)));
    assert_eq!(state.remove_sub(&ChatId(7), 1), Ok(sub(CHAIN, 9, 3)));
    assert_eq!(state.remove_sub(&ChatId(7), 1), Ok(sub(CHAIN, 9, 4)));
    assert_eq!(
        state.remove_sub(&ChatId(7), 1),
        Err(StoreError::IndexOutOfRange)
    );
    assert_eq!(listed(&state, 7), vec![sub(CHAIN, 9, 1)]);
}

#[test]
fn removing_at_an_invalid_position_fails_and_changes_nothing() {
    let mut state = State::new();
    state.insert_sub(CHAIN, addr(1), addr(2), ChatId(7));
    state.insert_sub(CHAIN, addr(1), addr(3), ChatId(7));
    assert_eq!(
        state.remove_sub(&ChatId(7), 2),
        Err(StoreError::IndexOutOfRange)
    );
    assert_eq!(
        state.remove_sub(&ChatId(7), usize::MAX),
        Err(StoreError::IndexOutOfRange)
    );
    assert_eq!(
        state.remove_sub(&ChatId(8), 0),
        Err(StoreError::IndexOutOfRange)
    );
    assert_eq!(listed(&state, 7), vec![sub(CHAIN, 1, 2), sub(CHAIN, 1, 3)]);
    assert_eq!(holders(&state, CHAIN, 1, 2), Some(vec![7]));
    assert_eq!(holders(&state, CHAIN, 1, 3), Some(vec![7]));
}

#[test]
fn removing_the_last_subscription_leaves_nothing_listed() {
    let mut state = State::new();
    state.insert_sub(CHAIN, addr(1), addr(2), ChatId(7));
    assert_eq!(state.remove_sub(&ChatId(7), 0), Ok(sub(CHAIN, 1, 2)));
    assert_eq!(state.list_subscriptions(&ChatId(7)), None);
    assert_eq!(state.get_user_subscriptions_formated(&ChatId(7)), None);
    assert_eq!(holders(&state, CHAIN, 1, 2), Some(vec![]));
    assert_eq!(
        state.remove_sub(&ChatId(7), 0),
        Err(StoreError::IndexOutOfRange)
    );
}

#[test]
fn a_removed_subscription_can_be_made_again() {
    let mut state = State::new();
    state.insert_sub(CHAIN, addr(1), addr(2), ChatId(7));
    state.insert_sub(CHAIN, addr(1), addr(3), ChatId(7));
    assert_eq!(state.remove_sub(&ChatId(7), 0), Ok(sub(CHAIN, 1, 2)));
    state.insert_sub(CHAIN, addr(1), addr(2), ChatId(7));
    assert_eq!(listed(&state, 7), vec![sub(CHAIN, 1, 3), sub(CHAIN, 1, 2)]);
    assert_eq!(holders(&state, CHAIN, 1, 2), Some(vec![7]));
}

#[test]
fn indexes_agree_after_a_run_of_requests() {
    let users = [1i64, 2, 3];
    let subs: Vec<Subscription> = (0..6u8).map(|i| sub(CHAIN, i % 2, i)).collect();
    let mut state = State::new();
    let mut seed: u32 = 12345;
    for _ in 0..400 {
        seed = seed.wrapping_mul(1103515245).wrapping_add(12345);
        let user = users[(seed >> 16) as usize % users.len()];
        let pick = (seed >> 8) as usize % subs.len();
        if (seed >> 4) % 3 == 0 {
            let before = listed(&state, user);
            let index = pick % 4;
            match state.remove_sub(&ChatId(user), index) {
                Ok(removed) => assert_eq!(removed, before[index]),
                Err(error) => {
                    assert_eq!(error, StoreError::IndexOutOfRange);
                    assert!(index >= before.len());
                    assert_eq!(listed(&state, user), before);
                }
            }
        } else {
            let s = subs[pick];
            state.insert_sub(s.chain_id, s.token_address, s.token_sender_receiver, ChatId(user));
        }
        assert_consistent(&state, &users, &subs);
    }
}

#[test]
fn sizes_follow_the_requests_in_order() {
    let mut state = State::new();
    state.insert_sub(CHAIN, addr(1), addr(2), ChatId(1));
    state.insert_sub(CHAIN, addr(1), addr(2), ChatId(2));
    state.insert_sub(CHAIN, addr(1), addr(2), ChatId(1));
    state.insert_sub(CHAIN, addr(1), addr(3), ChatId(1));
    assert!(state.remove_sub(&ChatId(2), 0).is_ok());
    assert!(state.remove_sub(&ChatId(2), 0).is_err());
    state.insert_sub(CHAIN, addr(1), addr(3), ChatId(2));
    assert_eq!(listed(&state, 1).len(), 2);
    assert_eq!(listed(&state, 2).len(), 1);
    assert_eq!(holders(&state, CHAIN, 1, 2).unwrap().len(), 1);
    assert_eq!(holders(&state, CHAIN, 1, 3).unwrap().len(), 2);
}

#[test]
fn metadata_is_cached_by_chain_and_token() {
    let mut state = State::new();
    state.insert_token_metadata(&CHAIN, addr(1), "Tether".to_string(), "USDT".to_string(), 6);
    assert_eq!(
        state.get_token_metadata(&CHAIN, &addr(1)),
        Some(&("Tether".to_string(), "USDT".to_string(), 6))
    );
    assert_eq!(state.get_token_metadata(&CHAIN, &addr(2)), None);
    assert_eq!(state.get_token_metadata(&1, &addr(1)), None);
}

#[test]
fn first_metadata_for_a_token_stays() {
    let mut state = State::new();
    state.insert_token_metadata(&CHAIN, addr(1), "Tether".to_string(), "USDT".to_string(), 6);
    state.insert_token_metadata(&CHAIN, addr(1), "Other".to_string(), "OTH".to_string(), 18);
    state.insert_token_metadata(&1, addr(1), "Other".to_string(), "OTH".to_string(), 18);
    assert_eq!(
        state.get_token_metadata(&CHAIN, &addr(1)),
        Some(&("Tether".to_string(), "USDT".to_string(), 6))
    );
    assert_eq!(
        state.get_token_metadata(&1, &addr(1)),
        Some(&("Other".to_string(), "OTH".to_string(), 18))
    );
}

#[test]
fn metadata_and_subscriptions_do_not_touch_each_other() {
    let mut state = State::new();
    state.insert_sub(CHAIN, addr(1), addr(2), ChatId(7));
    state.insert_token_metadata(&CHAIN, addr(1), "Tether".to_string(), "USDT".to_string(), 6);
    assert_eq!(listed(&state, 7), vec![sub(CHAIN, 1, 2)]);
    assert_eq!(state.remove_sub(&ChatId(7), 0), Ok(sub(CHAIN, 1, 2)));
    assert!(state.get_token_metadata(&CHAIN, &addr(1)).is_some());
}

#[test]
fn subscription_as_text() {
    assert_eq!(
        sub(11155111, 0xab, 0x01).to_text(),
        "Subscription { chain_id: 11155111, \
         token_address: 0xabababababababababababababababababababab, \
         token_sender_receiver: 0x0101010101010101010101010101010101010101 }"
    );
}
