//! The subscription store as mathematics: the two indexes and the metadata
//! cache as maps, the operations on them, and the laws that they obey.

use crate::address::Address;
use crate::subscription::{ChatId, Subscription};
use vstd::prelude::*;
use vstd::seq_lib::to_multiset_contains;

verus! {

/// Name, symbol and decimal places of a token.
pub type Metadata = (Seq<char>, Seq<char>, u8);

/// The store's contents.
pub struct StoreModel {
    /// Forward index: for each subscription ever made, who holds it now.
    pub watchers: Map<Subscription, Set<ChatId>>,
    /// Reverse index: for each subscriber, the subscriptions they hold, in
    /// the order in which they were made.
    pub subscriptions: Map<ChatId, Seq<Subscription>>,
    /// Token metadata by chain and token address.
    pub metadata: Map<(u32, Address), Metadata>,
}

/// A request that changes the indexes.
pub enum Request {
    Subscribe { sub: Subscription, user: ChatId },
    Unsubscribe { user: ChatId, index: int },
}

impl StoreModel {
    /// The store with nothing in it.
    pub open spec fn empty() -> StoreModel {
        StoreModel { watchers: Map::empty(), subscriptions: Map::empty(), metadata: Map::empty() }
    }

    /// The forward index has `user` under `sub`.
    pub open spec fn watches(self, sub: Subscription, user: ChatId) -> bool {
        self.watchers.contains_key(sub) && self.watchers[sub].contains(user)
    }

    /// The reverse index has `sub` under `user`.
    pub open spec fn lists(self, user: ChatId, sub: Subscription) -> bool {
        self.subscriptions.contains_key(user) && self.subscriptions[user].contains(sub)
    }

    /// Who holds `sub`; nobody where the forward index does not know it.
    pub open spec fn watchers_of(self, sub: Subscription) -> Set<ChatId> {
        if self.watchers.contains_key(sub) {
            self.watchers[sub]
        } else {
            Set::empty()
        }
    }

    /// What `user` holds, in order; nothing where the reverse index does not
    /// know them.
    pub open spec fn subscriptions_of(self, user: ChatId) -> Seq<Subscription> {
        if self.subscriptions.contains_key(user) {
            self.subscriptions[user]
        } else {
            Seq::empty()
        }
    }

    /// The two indexes say the same, and nobody holds a subscription twice.
    pub open spec fn consistent(self) -> bool {
        &&& forall|sub: Subscription, user: ChatId|
            #![trigger self.watches(sub, user)]
            #![trigger self.lists(user, sub)]
            self.watches(sub, user) <==> self.lists(user, sub)
        &&& forall|user: ChatId|
            self.subscriptions.contains_key(user) ==> (
            #[trigger] self.subscriptions[user]).no_duplicates()
        &&& forall|sub: Subscription|
            self.watchers.contains_key(sub) ==> (#[trigger] self.watchers[sub]).finite()
    }

    /// Subscribing: nothing changes where `user` holds `sub` already;
    /// otherwise `user` joins the holders of `sub` and `sub` goes to the end
    /// of what `user` holds.
    pub open spec fn insert_sub(self, sub: Subscription, user: ChatId) -> StoreModel {
        if self.watches(sub, user) {
            self
        } else {
            StoreModel {
                watchers: self.watchers.insert(sub, self.watchers_of(sub).insert(user)),
                subscriptions: self.subscriptions.insert(
                    user,
                    self.subscriptions_of(user).push(sub),
                ),
                metadata: self.metadata,
            }
        }
    }

    /// `index` is a position in what `user` holds.
    pub open spec fn valid_index(self, user: ChatId, index: int) -> bool {
        self.subscriptions.contains_key(user) && 0 <= index < self.subscriptions[user].len()
    }

    /// Unsubscribing by position: nothing changes where the position is not
    /// valid; otherwise the subscription at it leaves what `user` holds and
    /// `user` leaves its holders.
    pub open spec fn remove_sub(self, user: ChatId, index: int) -> StoreModel {
        if self.valid_index(user, index) {
            let sub = self.subscriptions[user][index];
            StoreModel {
                watchers: self.watchers.insert(sub, self.watchers_of(sub).remove(user)),
                subscriptions: self.subscriptions.insert(
                    user,
                    self.subscriptions[user].remove(index),
                ),
                metadata: self.metadata,
            }
        } else {
            self
        }
    }

    /// Caching metadata: the first value for a token stays.
    pub open spec fn insert_metadata(self, chain_id: u32, token: Address, data: Metadata) -> StoreModel {
        if self.metadata.contains_key((chain_id, token)) {
            self
        } else {
            StoreModel {
                watchers: self.watchers,
                subscriptions: self.subscriptions,
                metadata: self.metadata.insert((chain_id, token), data),
            }
        }
    }

    /// How many subscriptions `user` holds.
    pub open spec fn holding(self, user: ChatId) -> nat {
        self.subscriptions_of(user).len()
    }

    /// How many subscribers hold `sub`.
    pub open spec fn held_by(self, sub: Subscription) -> nat {
        self.watchers_of(sub).len()
    }

    /// The store after one request.
    pub open spec fn apply(self, request: Request) -> StoreModel {
        match request {
            Request::Subscribe { sub, user } => self.insert_sub(sub, user),
            Request::Unsubscribe { user, index } => self.remove_sub(user, index),
        }
    }

    /// The store after a sequence of requests, served in order.
    pub open spec fn apply_all(self, requests: Seq<Request>) -> StoreModel
        decreases requests.len(),
    {
        if requests.len() == 0 {
            self
        } else {
            self.apply_all(requests.drop_last()).apply(requests.last())
        }
    }
}

/// What a sequence holds after one more element.
proof fn lemma_push_contains<T>(s: Seq<T>, x: T, y: T)
    ensures
        s.push(x).contains(y) <==> (s.contains(y) || y == x),
{
    if s.contains(y) {
        let i = choose|i: int| 0 <= i < s.len() && s[i] == y;
        assert(s.push(x)[i] == y);
    }
    if y == x {
        assert(s.push(x)[s.len() as int] == y);
    }
    if s.push(x).contains(y) {
        let i = choose|i: int| 0 <= i < s.push(x).len() && s.push(x)[i] == y;
        if i < s.len() {
            assert(s[i] == y);
        }
    }
}

/// What a sequence without repeats holds after one element is taken out.
proof fn lemma_remove_contains<T>(s: Seq<T>, index: int, y: T)
    requires
        s.no_duplicates(),
        0 <= index < s.len(),
    ensures
        s.remove(index).no_duplicates(),
        s.remove(index).len() == s.len() - 1,
        s.remove(index).contains(y) <==> (s.contains(y) && y != s[index]),
{
    let r = s.remove(index);
    assert forall|i: int| 0 <= i < r.len() implies #[trigger] r[i] == s[if i < index {
        i
    } else {
        i + 1
    }] by {}
    assert forall|i: int, j: int| 0 <= i < r.len() && 0 <= j < r.len() && i != j implies r[i]
        != r[j] by {
        let a = if i < index { i } else { i + 1 };
        let b = if j < index { j } else { j + 1 };
        assert(r[i] == s[a] && r[j] == s[b]);
    }
    if r.contains(y) {
        let i = choose|i: int| 0 <= i < r.len() && r[i] == y;
        let a = if i < index { i } else { i + 1 };
        assert(r[i] == s[a]);
        assert(s[a] == y);
    }
    if s.contains(y) && y != s[index] {
        let a = choose|a: int| 0 <= a < s.len() && s[a] == y;
        let i = if a < index { a } else { a - 1 };
        assert(r[i] == s[a]);
    }
}

/// The empty store is consistent.
pub proof fn lemma_empty_consistent()
    ensures
        StoreModel::empty().consistent(),
{
}

/// Subscribing keeps the indexes consistent.
pub proof fn lemma_insert_consistent(m: StoreModel, sub: Subscription, user: ChatId)
    requires
        m.consistent(),
    ensures
        m.insert_sub(sub, user).consistent(),
{
    let after = m.insert_sub(sub, user);
    if !m.watches(sub, user) {
        let list = m.subscriptions_of(user);
        assert(!m.lists(user, sub));
        assert(!list.contains(sub));
        assert forall|s: Subscription, u: ChatId|
            #![trigger after.watches(s, u)]
            #![trigger after.lists(u, s)]
            after.watches(s, u) <==> after.lists(u, s) by {
            assert(m.watches(s, u) <==> m.lists(u, s));
            lemma_push_contains(list, sub, s);
        }
        assert forall|u: ChatId| after.subscriptions.contains_key(u) implies (
        #[trigger] after.subscriptions[u]).no_duplicates() by {
            if u == user {
                if m.subscriptions.contains_key(user) {
                    assert(m.subscriptions[user].no_duplicates());
                }
                assert forall|i: int, j: int|
                    0 <= i < list.push(sub).len() && 0 <= j < list.push(sub).len() && i
                        != j implies list.push(sub)[i] != list.push(sub)[j] by {
                    if i < list.len() && j < list.len() {
                    } else if i < list.len() {
                        assert(list[i] != sub);
                    } else {
                        assert(list[j] != sub);
                    }
                }
            } else {
                assert(m.subscriptions[u].no_duplicates());
            }
        }
        assert forall|s: Subscription| after.watchers.contains_key(s) implies (
        #[trigger] after.watchers[s]).finite() by {
            if s != sub {
                assert(m.watchers[s].finite());
            } else if m.watchers.contains_key(sub) {
                assert(m.watchers[sub].finite());
            }
        }
    }
}

/// Unsubscribing keeps the indexes consistent.
pub proof fn lemma_remove_consistent(m: StoreModel, user: ChatId, index: int)
    requires
        m.consistent(),
    ensures
        m.remove_sub(user, index).consistent(),
{
    let after = m.remove_sub(user, index);
    if m.valid_index(user, index) {
        let list = m.subscriptions[user];
        let sub = list[index];
        assert(list.no_duplicates());
        assert(list.contains(sub));
        assert(m.lists(user, sub));
        assert(m.watches(sub, user));
        assert forall|s: Subscription, u: ChatId|
            #![trigger after.watches(s, u)]
            #![trigger after.lists(u, s)]
            after.watches(s, u) <==> after.lists(u, s) by {
            assert(m.watches(s, u) <==> m.lists(u, s));
            lemma_remove_contains(list, index, s);
        }
        assert forall|u: ChatId| after.subscriptions.contains_key(u) implies (
        #[trigger] after.subscriptions[u]).no_duplicates() by {
            if u == user {
                lemma_remove_contains(list, index, sub);
            } else {
                assert(m.subscriptions[u].no_duplicates());
            }
        }
        assert forall|s: Subscription| after.watchers.contains_key(s) implies (
        #[trigger] after.watchers[s]).finite() by {
            if s != sub {
                assert(m.watchers[s].finite());
            } else {
                assert(m.watchers[sub].finite());
            }
        }
    }
}

/// Caching metadata leaves the indexes as they are, and so consistent.
pub proof fn lemma_insert_metadata_consistent(
    m: StoreModel,
    chain_id: u32,
    token: Address,
    data: Metadata,
)
    requires
        m.consistent(),
    ensures
        m.insert_metadata(chain_id, token, data).consistent(),
{
    let after = m.insert_metadata(chain_id, token, data);
    assert forall|sub: Subscription, user: ChatId|
        #![trigger after.watches(sub, user)]
        #![trigger after.lists(user, sub)]
        after.watches(sub, user) <==> after.lists(user, sub) by {
        assert(m.watches(sub, user) <==> m.lists(user, sub));
    }
}

/// Subscribing a second time changes nothing, and after subscribing the
/// subscriber is among the holders and holds the subscription exactly once.
pub proof fn lemma_subscribe_twice(m: StoreModel, sub: Subscription, user: ChatId)
    requires
        m.consistent(),
    ensures
        m.insert_sub(sub, user).insert_sub(sub, user) == m.insert_sub(sub, user),
        m.insert_sub(sub, user).watches(sub, user),
        m.insert_sub(sub, user).subscriptions_of(user).to_multiset().count(sub) == 1,
{
    let after = m.insert_sub(sub, user);
    lemma_insert_consistent(m, sub, user);
    assert(after.watches(sub, user));
    assert(after.lists(user, sub));
    let list = after.subscriptions_of(user);
    assert(list.no_duplicates());
    to_multiset_contains(list, sub);
    list.lemma_multiset_has_no_duplicates();
}

/// Any sequence of requests, served in order, leaves a consistent store
/// consistent.
pub proof fn lemma_requests_keep_consistent(m: StoreModel, requests: Seq<Request>)
    requires
        m.consistent(),
    ensures
        m.apply_all(requests).consistent(),
    decreases requests.len(),
{
    if requests.len() > 0 {
        lemma_requests_keep_consistent(m, requests.drop_last());
        let before = m.apply_all(requests.drop_last());
        match requests.last() {
            Request::Subscribe { sub, user } => lemma_insert_consistent(before, sub, user),
            Request::Unsubscribe { user, index } => lemma_remove_consistent(before, user, index),
        }
    }
}

/// The indexes are consistent after any sequence of requests on a new store.
pub proof fn lemma_consistent_after_requests(requests: Seq<Request>)
    ensures
        StoreModel::empty().apply_all(requests).consistent(),
{
    lemma_requests_keep_consistent(StoreModel::empty(), requests);
}

/// Unsubscribing at a valid position takes out the subscription at that
/// position and no other: what stood before it stays in place, what stood
/// after it moves down by one, the subscriber no longer holds it, and nobody
/// else's subscriptions change.
pub proof fn lemma_unsubscribe_exactly_one(m: StoreModel, user: ChatId, index: int)
    requires
        m.consistent(),
        m.valid_index(user, index),
    ensures
        ({
            let before = m.subscriptions[user];
            let after = m.remove_sub(user, index);
            &&& after.subscriptions_of(user).len() == before.len() - 1
            &&& forall|i: int| 0 <= i < index ==> after.subscriptions_of(user)[i] == before[i]
            &&& forall|i: int|
                index <= i < before.len() - 1 ==> after.subscriptions_of(user)[i] == before[i + 1]
            &&& !after.lists(user, before[index])
            &&& !after.watches(before[index], user)
            &&& forall|other: ChatId|
                other != user ==> after.subscriptions_of(other) == m.subscriptions_of(other)
            &&& forall|sub: Subscription, other: ChatId|
                sub != before[index] || other != user ==> (after.watches(sub, other) <==> m.watches(
                    sub,
                    other,
                ))
        }),
{
    let before = m.subscriptions[user];
    let after = m.remove_sub(user, index);
    lemma_remove_contains(before, index, before[index]);
    lemma_remove_consistent(m, user, index);
    assert(after.watches(before[index], user) <==> after.lists(user, before[index]));
}

/// Unsubscribing at a position that is not valid changes nothing.
pub proof fn lemma_unsubscribe_invalid(m: StoreModel, user: ChatId, index: int)
    requires
        !m.valid_index(user, index),
    ensures
        m.remove_sub(user, index) == m,
{
}

/// What one request does to the sizes of the indexes. A subscription that is
/// new adds one to what the subscriber holds and one to the holders of the
/// subscription; one that exists changes nothing. Unsubscribing at a valid
/// position takes one from each; at another position it changes nothing. No
/// other size changes.
pub proof fn lemma_request_sizes(m: StoreModel, request: Request)
    requires
        m.consistent(),
    ensures
        match request {
            Request::Subscribe { sub, user } => {
                let grows: int = if m.watches(sub, user) {
                    0
                } else {
                    1
                };
                &&& m.apply(request).holding(user) == m.holding(user) + grows
                &&& m.apply(request).held_by(sub) == m.held_by(sub) + grows
                &&& forall|other: ChatId|
                    other != user ==> m.apply(request).holding(other) == m.holding(other)
                &&& forall|other: Subscription|
                    other != sub ==> m.apply(request).held_by(other) == m.held_by(other)
            },
            Request::Unsubscribe { user, index } => {
                let shrinks: int = if m.valid_index(user, index) {
                    1
                } else {
                    0
                };
                &&& m.apply(request).holding(user) == m.holding(user) - shrinks
                &&& m.valid_index(user, index) ==> m.apply(request).held_by(
                    m.subscriptions[user][index],
                ) == m.held_by(m.subscriptions[user][index]) - 1
                &&& forall|other: ChatId|
                    other != user ==> m.apply(request).holding(other) == m.holding(other)
                &&& forall|other: Subscription|
                    !(m.valid_index(user, index) && other == m.subscriptions[user][index])
                        ==> m.apply(request).held_by(other) == m.held_by(other)
            },
        },
{
    match request {
        Request::Subscribe { sub, user } => {
            if !m.watches(sub, user) {
                if m.watchers.contains_key(sub) {
                    assert(m.watchers[sub].finite());
                }
                assert(m.watchers_of(sub).finite());
                assert(!m.watchers_of(sub).contains(user));
            }
        },
        Request::Unsubscribe { user, index } => {
            if m.valid_index(user, index) {
                let list = m.subscriptions[user];
                let sub = list[index];
                lemma_remove_contains(list, index, sub);
                assert(list.contains(sub));
                assert(m.lists(user, sub));
                assert(m.watches(sub, user));
                assert(m.watchers[sub].finite());
            }
        },
    }
}

} // verus!
