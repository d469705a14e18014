//! The subscription store: who watches which address, both ways round, and
//! the token metadata cache.

use crate::address::Address;
use crate::amount::{append_decimal, decimal_digits};
use crate::assoc::{
    has_key, keys_distinct, lemma_absent, lemma_lookup_at, lemma_push, lemma_update, value_of,
};
use crate::model::{
    lemma_insert_consistent, lemma_insert_metadata_consistent, lemma_remove_consistent, Metadata,
    StoreModel,
};
use crate::subscription::{subscription_text, ChatId, Subscription};
use std::collections::{HashMap, HashSet};
use vstd::prelude::*;
use vstd::std_specs::iter::IteratorSpec;
use vstd::string::*;

verus! {

/// Why the store refused a request.
#[derive(Clone, Copy, Debug, PartialEq, Eq, Structural)]
pub enum StoreError {
    /// The position is not one of the subscriber's subscriptions.
    IndexOutOfRange,
}

/// The subscription store. The forward index is a table of subscriptions,
/// each with the set of its holders; the reverse index maps a subscriber to
/// the list of what they hold; the metadata cache is a table by chain and
/// token.
///
/// Subscribers are hashed by their number. Subscriptions and tokens are kept
/// in tables in which no key stands twice, and are found by comparing: their
/// keys hold addresses, and vstd's specification of the hash collections of
/// std says something only of keys that obey its key model, which it grants
/// to the primitive integers. With an address as key a hash map is accepted
/// and nothing is known of it, not even that a key is there after its insert.
#[derive(Debug)]
pub struct State {
    subs: Vec<(Subscription, HashSet<i64>)>,
    user_subs: HashMap<i64, Vec<Subscription>>,
    cached_token_metadata: Vec<((u32, Address), (String, String, u8))>,
}

/// The subscribers whose numbers are in `raw`.
spec fn chat_ids(raw: Set<i64>) -> Set<ChatId> {
    Set::new(|user: ChatId| raw.contains(user.0))
}

/// Cached metadata as plain values.
pub open spec fn metadata_view(data: (String, String, u8)) -> Metadata {
    (data.0@, data.1@, data.2)
}

/// The forward table read as a map.
spec fn watchers_map(subs: Seq<(Subscription, HashSet<i64>)>) -> Map<
    Subscription,
    Set<ChatId>,
> {
    Map::new(
        |sub: Subscription| has_key(subs, sub),
        |sub: Subscription| chat_ids(value_of(subs, sub)@),
    )
}

/// The reverse index read as a map by subscriber.
spec fn subscriptions_map(user_subs: Map<i64, Vec<Subscription>>) -> Map<
    ChatId,
    Seq<Subscription>,
> {
    Map::new(|user: ChatId| user_subs.contains_key(user.0), |user: ChatId| user_subs[user.0]@)
}

/// The metadata table read as a map.
spec fn metadata_map(cache: Seq<((u32, Address), (String, String, u8))>) -> Map<
    (u32, Address),
    Metadata,
> {
    Map::new(
        |key: (u32, Address)| has_key(cache, key),
        |key: (u32, Address)| metadata_view(value_of(cache, key)),
    )
}

/// One line of a listing: the position and the subscription, in brackets.
pub open spec fn numbered_text(index: nat, sub: Subscription) -> Seq<char> {
    "("@ + decimal_digits(index) + ", "@ + subscription_text(sub) + ")"@
}

/// The lines of a listing, each with its position, with `, ` between them.
pub open spec fn listing_items(subs: Seq<Subscription>) -> Seq<char>
    decreases subs.len(),
{
    if subs.len() == 0 {
        Seq::empty()
    } else if subs.len() == 1 {
        numbered_text(0, subs[0])
    } else {
        listing_items(subs.drop_last()) + ", "@ + numbered_text(
            (subs.len() - 1) as nat,
            subs.last(),
        )
    }
}

/// A listing of subscriptions: the lines in square brackets.
pub open spec fn listing_text(subs: Seq<Subscription>) -> Seq<char> {
    "["@ + listing_items(subs) + "]"@
}

/// Writes a listing of `list`.
fn format_listing(list: &Vec<Subscription>) -> (text: String)
    ensures
        text@ == listing_text(list@),
{
    let mut text = "[".to_owned();
    let mut i: usize = 0;
    assert(text@ =~= "["@ + listing_items(list@.take(0)));
    while i < list.len()
        invariant
            i <= list@.len(),
            text@ == "["@ + listing_items(list@.take(i as int)),
        decreases list@.len() - i,
    {
        let ghost before = text@;
        if i > 0 {
            text.append(", ");
        }
        text.append("(");
        append_decimal(&mut text, i as u64);
        text.append(", ");
        text.append(list[i].to_text().as_str());
        text.append(")");
        proof {
            let shown = list@.take(i + 1);
            assert(shown.drop_last() =~= list@.take(i as int));
            assert(shown.last() == list@[i as int]);
            let line = numbered_text(i as nat, list@[i as int]);
            if i > 0 {
                assert(text@ =~= before + ", "@ + line);
            } else {
                assert(text@ =~= before + line);
                assert(listing_items(list@.take(0)) =~= Seq::<char>::empty());
            }
            assert(text@ =~= "["@ + listing_items(shown));
        }
        i += 1;
    }
    assert(list@.take(i as int) =~= list@);
    text.append("]");
    text
}

/// The forward map has the subscription at place `i` with its holders.
proof fn lemma_watchers_at(subs: Seq<(Subscription, HashSet<i64>)>, i: int)
    requires
        keys_distinct(subs),
        0 <= i < subs.len(),
    ensures
        watchers_map(subs).contains_key(subs[i].0),
        watchers_map(subs)[subs[i].0] == chat_ids(subs[i].1@),
{
    lemma_lookup_at(subs, i);
}

/// Replacing the holders at place `i` changes the forward map at that
/// subscription alone.
proof fn lemma_watchers_update(
    subs: Seq<(Subscription, HashSet<i64>)>,
    i: int,
    holders: HashSet<i64>,
)
    requires
        keys_distinct(subs),
        0 <= i < subs.len(),
    ensures
        keys_distinct(subs.update(i, (subs[i].0, holders))),
        watchers_map(subs.update(i, (subs[i].0, holders))) == watchers_map(subs).insert(
            subs[i].0,
            chat_ids(holders@),
        ),
{
    lemma_update(subs, i, holders);
    lemma_lookup_at(subs, i);
    assert(watchers_map(subs.update(i, (subs[i].0, holders))) =~= watchers_map(subs).insert(
        subs[i].0,
        chat_ids(holders@),
    ));
}

/// Appending a new subscription with its holders adds it to the forward map.
proof fn lemma_watchers_push(
    subs: Seq<(Subscription, HashSet<i64>)>,
    sub: Subscription,
    holders: HashSet<i64>,
)
    requires
        keys_distinct(subs),
        !has_key(subs, sub),
    ensures
        keys_distinct(subs.push((sub, holders))),
        watchers_map(subs.push((sub, holders))) == watchers_map(subs).insert(
            sub,
            chat_ids(holders@),
        ),
{
    lemma_push(subs, sub, holders);
    assert(watchers_map(subs.push((sub, holders))) =~= watchers_map(subs).insert(
        sub,
        chat_ids(holders@),
    ));
}

/// Appending a new token with its metadata adds it to the metadata map.
proof fn lemma_metadata_push(
    cache: Seq<((u32, Address), (String, String, u8))>,
    key: (u32, Address),
    data: (String, String, u8),
)
    requires
        keys_distinct(cache),
        !has_key(cache, key),
    ensures
        keys_distinct(cache.push((key, data))),
        metadata_map(cache.push((key, data))) == metadata_map(cache).insert(
            key,
            metadata_view(data),
        ),
{
    lemma_push(cache, key, data);
    assert(metadata_map(cache.push((key, data))) =~= metadata_map(cache).insert(
        key,
        metadata_view(data),
    ));
}

impl View for State {
    type V = StoreModel;

    closed spec fn view(&self) -> StoreModel {
        StoreModel {
            watchers: watchers_map(self.subs@),
            subscriptions: subscriptions_map(self.user_subs@),
            metadata: metadata_map(self.cached_token_metadata@),
        }
    }
}

impl State {
    /// What the representation keeps by itself: no subscription and no token
    /// stands twice in its table.
    pub closed spec fn rep_ok(&self) -> bool {
        &&& keys_distinct(self.subs@)
        &&& keys_distinct(self.cached_token_metadata@)
    }

    /// The store is well formed: its representation is in order and its two
    /// indexes are consistent.
    pub open spec fn wf(&self) -> bool {
        self.rep_ok() && self@.consistent()
    }

    /// A store with no subscription and no metadata.
    pub fn new() -> (state: State)
        ensures
            state.wf(),
            state@ == StoreModel::empty(),
    {
        let state = State {
            subs: Vec::new(),
            user_subs: HashMap::new(),
            cached_token_metadata: Vec::new(),
        };
        assert(state@.watchers =~= Map::empty());
        assert(state@.subscriptions =~= Map::empty());
        assert(state@.metadata =~= Map::empty());
        state
    }

    /// The place of `sub` in the forward table.
    fn find_watch(&self, sub: &Subscription) -> (found: Option<usize>)
        ensures
            match found {
                Some(i) => i < self.subs@.len() && self.subs@[i as int].0 == *sub,
                None => !has_key(self.subs@, *sub),
            },
    {
        let mut i: usize = 0;
        while i < self.subs.len()
            invariant
                i <= self.subs@.len(),
                forall|j: int| 0 <= j < i ==> (#[trigger] self.subs@[j]).0 != *sub,
            decreases self.subs@.len() - i,
        {
            if self.subs[i].0 == *sub {
                return Some(i);
            }
            i += 1;
        }
        proof {
            lemma_absent(self.subs@, *sub);
        }
        None
    }

    /// The place of a token in the metadata table.
    fn find_metadata(&self, chain_id: u32, token_address: &Address) -> (found: Option<usize>)
        ensures
            match found {
                Some(i) => i < self.cached_token_metadata@.len() && self.cached_token_metadata@[i as int].0
                    == (chain_id, *token_address),
                None => !has_key(self.cached_token_metadata@, (chain_id, *token_address)),
            },
    {
        let mut i: usize = 0;
        while i < self.cached_token_metadata.len()
            invariant
                i <= self.cached_token_metadata@.len(),
                forall|j: int|
                    0 <= j < i ==> (#[trigger] self.cached_token_metadata@[j]).0 != (
                        chain_id,
                        *token_address,
                    ),
            decreases self.cached_token_metadata@.len() - i,
        {
            if self.cached_token_metadata[i].0.0 == chain_id && self.cached_token_metadata[i].0.1
                == *token_address {
                return Some(i);
            }
            i += 1;
        }
        proof {
            lemma_absent(self.cached_token_metadata@, (chain_id, *token_address));
        }
        None
    }

    /// The cached metadata of a token, if there is any.
    pub fn get_token_metadata(&self, chain_id: &u32, token_address: &Address) -> (found: Option<
        &(String, String, u8),
    >)
        requires
            self.wf(),
        ensures
            match found {
                Some(data) => self@.metadata.contains_key((*chain_id, *token_address))
                    && self@.metadata[(*chain_id, *token_address)] == metadata_view(*data),
                None => !self@.metadata.contains_key((*chain_id, *token_address)),
            },
    {
        match self.find_metadata(*chain_id, token_address) {
            Some(i) => {
                proof {
                    lemma_lookup_at(self.cached_token_metadata@, i as int);
                }
                Some(&self.cached_token_metadata[i].1)
            },
            None => None,
        }
    }

    /// Caches the metadata of a token. The first value cached for a token
    /// stays: a later one for the same token changes nothing.
    pub fn insert_token_metadata(
        &mut self,
        chain_id: &u32,
        token_address: Address,
        token_name: String,
        token_symbol: String,
        decimals: u8,
    )
        requires
            old(self).wf(),
        ensures
            final(self).wf(),
            final(self)@ == old(self)@.insert_metadata(
                *chain_id,
                token_address,
                (token_name@, token_symbol@, decimals),
            ),
    {
        match self.find_metadata(*chain_id, &token_address) {
            Some(_) => {},
            None => {
                proof {
                    lemma_metadata_push(
                        self.cached_token_metadata@,
                        (*chain_id, token_address),
                        (token_name, token_symbol, decimals),
                    );
                }
                self.cached_token_metadata.push(
                    ((*chain_id, token_address), (token_name, token_symbol, decimals)),
                );
            },
        }
        proof {
            lemma_insert_metadata_consistent(
                old(self)@,
                *chain_id,
                token_address,
                (token_name@, token_symbol@, decimals),
            );
        }
    }

    /// The subscriptions that `user` holds, in the order in which they were
    /// made; `None` where they hold none.
    pub fn list_subscriptions(&self, user: &ChatId) -> (listed: Option<&Vec<Subscription>>)
        requires
            self.wf(),
        ensures
            match listed {
                Some(list) => list@.len() > 0 && list@ == self@.subscriptions_of(*user),
                None => self@.subscriptions_of(*user).len() == 0,
            },
    {
        match self.user_subs.get(&user.0) {
            Some(list) => {
                if list.len() != 0 {
                    Some(list)
                } else {
                    None
                }
            },
            None => None,
        }
    }

    /// A listing of what `user` holds, each subscription with its position;
    /// `None` where they hold none.
    pub fn get_user_subscriptions_formated(&self, user: &ChatId) -> (text: Option<String>)
        requires
            self.wf(),
        ensures
            match text {
                Some(listing) => self@.subscriptions_of(*user).len() > 0 && listing@
                    == listing_text(self@.subscriptions_of(*user)),
                None => self@.subscriptions_of(*user).len() == 0,
            },
    {
        match self.list_subscriptions(user) {
            Some(list) => Some(format_listing(list)),
            None => None,
        }
    }

    /// Who holds the subscription to `token_sender_receiver` for the token on
    /// the chain, each holder once, in no particular order; `None` where
    /// nobody ever held it.
    pub fn get_sub_users(
        &self,
        chain_id: &u32,
        token_address: &Address,
        token_sender_receiver: &Address,
    ) -> (found: Option<Vec<ChatId>>)
        requires
            self.wf(),
        ensures
            ({
                let sub = Subscription {
                    chain_id: *chain_id,
                    token_address: *token_address,
                    token_sender_receiver: *token_sender_receiver,
                };
                match found {
                    Some(users) => self@.watchers.contains_key(sub) && users@.no_duplicates()
                        && users@.to_set() == self@.watchers[sub],
                    None => !self@.watchers.contains_key(sub),
                }
            }),
    {
        let sub = Subscription {
            chain_id: *chain_id,
            token_address: *token_address,
            token_sender_receiver: *token_sender_receiver,
        };
        match self.find_watch(&sub) {
            Some(i) => {
                proof {
                    lemma_watchers_at(self.subs@, i as int);
                }
                Some(Self::collect_users(&self.subs[i].1))
            },
            None => None,
        }
    }

    /// The members of a set of holders as a list, each once.
    fn collect_users(holders: &HashSet<i64>) -> (users: Vec<ChatId>)
        ensures
            users@.no_duplicates(),
            users@.to_set() == chat_ids(holders@),
    {
        broadcast use vstd::std_specs::hash::group_hash_axioms;

        let mut users: Vec<ChatId> = Vec::new();
        for number in walk: holders.iter()
            invariant
                users.len() == walk.index(),
                forall|j: int| 0 <= j < users.len() ==> (#[trigger] users@[j]).0 == *walk.seq()[j],
        {
            users.push(ChatId(*number));
        }
        proof {
            let rest = holders.iter().remaining();
            let numbers = rest.unref();
            assert(numbers.to_set() == holders@);
            assert(rest.no_duplicates());
            assert forall|j: int| 0 <= j < users.len() implies (#[trigger] users@[j]).0
                == numbers[j] by {}
            assert forall|i: int, j: int|
                0 <= i < users@.len() && 0 <= j < users@.len() && i != j implies users@[i]
                != users@[j] by {
                assert(rest[i] != rest[j]);
                assert(numbers[i] != numbers[j]);
            }
            assert forall|user: ChatId| users@.to_set().contains(user) <==> chat_ids(
                holders@,
            ).contains(user) by {
                if users@.contains(user) {
                    let j = choose|j: int| 0 <= j < users@.len() && users@[j] == user;
                    assert(numbers[j] == user.0);
                    assert(numbers.to_set().contains(user.0));
                }
                if holders@.contains(user.0) {
                    assert(numbers.to_set().contains(user.0));
                    let j = choose|j: int| 0 <= j < numbers.len() && numbers[j] == user.0;
                    assert(users@[j] == user);
                }
            }
            assert(users@.to_set() =~= chat_ids(holders@));
        }
        users
    }

    /// The set of holders of a subscription that `user_id` is the first to
    /// make.
    fn init_user(user_id: ChatId) -> (holders: HashSet<i64>)
        ensures
            holders@ == Set::<i64>::empty().insert(user_id.0),
    {
        let mut holders = HashSet::new();
        holders.insert(user_id.0);
        holders
    }

    /// Puts `sub` at the end of what `user_id` holds.
    fn add_user_sub(&mut self, sub: Subscription, user_id: ChatId)
        ensures
            final(self).subs == old(self).subs,
            final(self).cached_token_metadata == old(self).cached_token_metadata,
            final(self)@.subscriptions == old(self)@.subscriptions.insert(
                user_id,
                old(self)@.subscriptions_of(user_id).push(sub),
            ),
    {
        broadcast use vstd::std_specs::hash::group_hash_axioms;

        let mut list = match self.user_subs.remove(&user_id.0) {
            Some(list) => list,
            None => Vec::new(),
        };
        list.push(sub);
        self.user_subs.insert(user_id.0, list);
        assert(self@.subscriptions =~= old(self)@.subscriptions.insert(
            user_id,
            old(self)@.subscriptions_of(user_id).push(sub),
        ));
    }

    /// Subscribes `user_id` to the transfers of the token on the chain that
    /// involve `token_sender_receiver`. Nothing changes where they hold that
    /// subscription already.
    pub fn insert_sub(
        &mut self,
        chain_id: u32,
        token_address: Address,
        token_sender_receiver: Address,
        user_id: ChatId,
    )
        requires
            old(self).wf(),
        ensures
            final(self).wf(),
            final(self)@ == old(self)@.insert_sub(
                Subscription { chain_id, token_address, token_sender_receiver },
                user_id,
            ),
    {
        broadcast use vstd::std_specs::hash::group_hash_axioms;

        let sub = Subscription { chain_id, token_address, token_sender_receiver };
        match self.find_watch(&sub) {
            Some(i) => {
                proof {
                    lemma_watchers_at(self.subs@, i as int);
                }
                if self.subs[i].1.contains(&user_id.0) {
                    return ;
                }
                self.subs[i].1.insert(user_id.0);
                proof {
                    let holders = self.subs@[i as int].1;
                    assert(self.subs@ =~= old(self).subs@.update(i as int, (sub, holders)));
                    lemma_watchers_update(old(self).subs@, i as int, holders);
                    assert(chat_ids(holders@) =~= old(self)@.watchers_of(sub).insert(user_id));
                }
            },
            None => {
                let holders = Self::init_user(user_id);
                proof {
                    lemma_watchers_push(self.subs@, sub, holders);
                    assert(chat_ids(holders@) =~= old(self)@.watchers_of(sub).insert(user_id));
                }
                self.subs.push((sub, holders));
            },
        }
        self.add_user_sub(sub, user_id);
        proof {
            lemma_insert_consistent(old(self)@, sub, user_id);
        }
    }

    /// Takes the subscription at position `index` from what `user` holds and
    /// hands it back. Fails, and changes nothing, where `index` is not a
    /// position in what they hold.
    pub fn remove_sub(&mut self, user: &ChatId, index: usize) -> (removed: Result<
        Subscription,
        StoreError,
    >)
        requires
            old(self).wf(),
        ensures
            final(self).wf(),
            final(self)@ == old(self)@.remove_sub(*user, index as int),
            match removed {
                Ok(sub) => old(self)@.valid_index(*user, index as int) && sub == old(
                    self,
                )@.subscriptions[*user][index as int],
                Err(error) => !old(self)@.valid_index(*user, index as int) && error
                    == StoreError::IndexOutOfRange && *final(self) == *old(self),
            },
    {
        broadcast use vstd::std_specs::hash::group_hash_axioms;

        let valid = match self.user_subs.get(&user.0) {
            Some(list) => index < list.len(),
            None => false,
        };
        if !valid {
            return Err(StoreError::IndexOutOfRange);
        }
        let mut list = self.user_subs.remove(&user.0).unwrap();
        let sub = list.remove(index);
        self.user_subs.insert(user.0, list);
        assert(self@.subscriptions =~= old(self)@.subscriptions.insert(
            *user,
            old(self)@.subscriptions[*user].remove(index as int),
        ));
        proof {
            assert(old(self)@.subscriptions[*user].contains(sub));
            assert(old(self)@.lists(*user, sub));
            assert(old(self)@.watches(sub, *user));
        }
        match self.find_watch(&sub) {
            Some(i) => {
                proof {
                    lemma_watchers_at(self.subs@, i as int);
                }
                self.subs[i].1.remove(&user.0);
                proof {
                    let holders = self.subs@[i as int].1;
                    assert(self.subs@ =~= old(self).subs@.update(i as int, (sub, holders)));
                    lemma_watchers_update(old(self).subs@, i as int, holders);
                    assert(chat_ids(holders@) =~= old(self)@.watchers_of(sub).remove(*user));
                }
            },
            // Not reached: the indexes agree, so the forward table knows
            // every subscription that is listed.
            None => {},
        }
        proof {
            lemma_remove_consistent(old(self)@, *user, index as int);
        }
        Ok(sub)
    }
}

} // verus!
