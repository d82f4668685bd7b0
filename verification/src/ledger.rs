//! The executable ledger: an explicit repository for the three record kinds
//! plus the account balances the payment transfers move between. Records
//! are held in vectors and addressed by their logical keys; the view of a
//! ledger is the [`LedgerModel`] the contracts and laws speak of.

use vstd::prelude::*;

use crate::identity::Identity;
use crate::model::{spec_transfer, LedgerModel};
use crate::records::{OracleRequest, OracleState, RequestModel, UserCounter};

verus! {

/// The first sequencer in `s` bound to `user`, if any.
pub open spec fn find_counter(s: Seq<UserCounter>, user: Identity) -> Option<UserCounter>
    decreases s.len(),
{
    if s.len() == 0 {
        None
    } else if s[0].user == user {
        Some(s[0])
    } else {
        find_counter(s.drop_first(), user)
    }
}

/// The first request in `s` with identity (owner, request_id), if any.
pub open spec fn find_request(s: Seq<OracleRequest>, owner: Identity, request_id: u64) -> Option<
    OracleRequest,
>
    decreases s.len(),
{
    if s.len() == 0 {
        None
    } else if s[0].user == owner && s[0].request_id == request_id {
        Some(s[0])
    } else {
        find_request(s.drop_first(), owner, request_id)
    }
}

/// The first balance entry in `s` for `who`, if any.
pub open spec fn find_balance(s: Seq<(Identity, u64)>, who: Identity) -> Option<u64>
    decreases s.len(),
{
    if s.len() == 0 {
        None
    } else if s[0].0 == who {
        Some(s[0].1)
    } else {
        find_balance(s.drop_first(), who)
    }
}

/// The sequencers of `s` as a map keyed by owner.
pub open spec fn counters_map(s: Seq<UserCounter>) -> Map<Identity, UserCounter> {
    Map::new(
        |u: Identity| find_counter(s, u) is Some,
        |u: Identity| find_counter(s, u)->Some_0,
    )
}

/// The requests of `s` as a map keyed by (owner, sequence).
pub open spec fn requests_map(s: Seq<OracleRequest>) -> Map<(Identity, u64), RequestModel> {
    Map::new(
        |k: (Identity, u64)| find_request(s, k.0, k.1) is Some,
        |k: (Identity, u64)| (find_request(s, k.0, k.1)->Some_0)@,
    )
}

/// The balances of `s` as a total map; accounts without an entry hold zero.
pub open spec fn balances_map(s: Seq<(Identity, u64)>) -> Map<Identity, u64> {
    Map::total(
        |who: Identity|
            match find_balance(s, who) {
                Some(v) => v,
                None => 0u64,
            },
    )
}

/// The persistent store: the singleton configuration, the per-user
/// sequencers, the request records, and the account balances.
pub struct Ledger {
    pub state: Option<OracleState>,
    pub counters: Vec<UserCounter>,
    pub requests: Vec<OracleRequest>,
    pub balances: Vec<(Identity, u64)>,
}

impl View for Ledger {
    type V = LedgerModel;

    open spec fn view(&self) -> LedgerModel {
        LedgerModel {
            config: self.state,
            counters: counters_map(self.counters@),
            requests: requests_map(self.requests@),
            balances: balances_map(self.balances@),
        }
    }
}

// What a first match at index i means for the find functions.

proof fn lemma_find_counter_first(s: Seq<UserCounter>, i: int)
    requires
        0 <= i < s.len(),
        forall|j: int| 0 <= j < i ==> s[j].user != s[i].user,
    ensures
        find_counter(s, s[i].user) == Some(s[i]),
    decreases i,
{
    if i > 0 {
        lemma_find_counter_first(s.drop_first(), i - 1);
        assert(s.drop_first()[i - 1] == s[i]);
    }
}

proof fn lemma_find_counter_none(s: Seq<UserCounter>, user: Identity)
    requires
        forall|j: int| 0 <= j < s.len() ==> s[j].user != user,
    ensures
        find_counter(s, user) is None,
    decreases s.len(),
{
    if s.len() > 0 {
        lemma_find_counter_none(s.drop_first(), user);
    }
}

proof fn lemma_find_request_first(s: Seq<OracleRequest>, i: int)
    requires
        0 <= i < s.len(),
        forall|j: int|
            0 <= j < i ==> (s[j].user, s[j].request_id) != (s[i].user, s[i].request_id),
    ensures
        find_request(s, s[i].user, s[i].request_id) == Some(s[i]),
    decreases i,
{
    if i > 0 {
        lemma_find_request_first(s.drop_first(), i - 1);
        assert(s.drop_first()[i - 1] == s[i]);
    }
}

proof fn lemma_find_request_none(s: Seq<OracleRequest>, owner: Identity, request_id: u64)
    requires
        forall|j: int|
            0 <= j < s.len() ==> (s[j].user, s[j].request_id) != (owner, request_id),
    ensures
        find_request(s, owner, request_id) is None,
    decreases s.len(),
{
    if s.len() > 0 {
        lemma_find_request_none(s.drop_first(), owner, request_id);
    }
}

proof fn lemma_find_balance_first(s: Seq<(Identity, u64)>, i: int)
    requires
        0 <= i < s.len(),
        forall|j: int| 0 <= j < i ==> s[j].0 != s[i].0,
    ensures
        find_balance(s, s[i].0) == Some(s[i].1),
    decreases i,
{
    if i > 0 {
        lemma_find_balance_first(s.drop_first(), i - 1);
        assert(s.drop_first()[i - 1] == s[i]);
    }
}

proof fn lemma_find_balance_none(s: Seq<(Identity, u64)>, who: Identity)
    requires
        forall|j: int| 0 <= j < s.len() ==> s[j].0 != who,
    ensures
        find_balance(s, who) is None,
    decreases s.len(),
{
    if s.len() > 0 {
        lemma_find_balance_none(s.drop_first(), who);
    }
}

// How appending or rewriting one entry changes the derived maps.

proof fn lemma_find_counter_push(s: Seq<UserCounter>, c: UserCounter, user: Identity)
    ensures
        find_counter(s.push(c), user) == (if find_counter(s, user) is Some {
            find_counter(s, user)
        } else if c.user == user {
            Some(c)
        } else {
            None::<UserCounter>
        }),
    decreases s.len(),
{
    if s.len() == 0 {
        assert(s.push(c)[0] == c);
        assert(s.push(c).drop_first() =~= Seq::<UserCounter>::empty());
    } else {
        assert(s.push(c)[0] == s[0]);
        assert(s.push(c).drop_first() =~= s.drop_first().push(c));
        lemma_find_counter_push(s.drop_first(), c, user);
    }
}

/// Appending a sequencer for a fresh owner inserts it into the map.
pub(crate) proof fn lemma_counters_map_push(s: Seq<UserCounter>, c: UserCounter)
    requires
        find_counter(s, c.user) is None,
    ensures
        counters_map(s.push(c)) == counters_map(s).insert(c.user, c),
{
    assert forall|u: Identity|
        #[trigger] find_counter(s.push(c), u) == (if find_counter(s, u) is Some {
            find_counter(s, u)
        } else if c.user == u {
            Some(c)
        } else {
            None::<UserCounter>
        }) by {
        lemma_find_counter_push(s, c, u);
    }
    assert(counters_map(s.push(c)) =~= counters_map(s).insert(c.user, c));
}

proof fn lemma_find_counter_update(s: Seq<UserCounter>, i: int, c: UserCounter, user: Identity)
    requires
        0 <= i < s.len(),
        c.user == s[i].user,
        forall|j: int| 0 <= j < i ==> s[j].user != s[i].user,
    ensures
        find_counter(s.update(i, c), user) == (if user == c.user {
            Some(c)
        } else {
            find_counter(s, user)
        }),
    decreases i,
{
    let s2 = s.update(i, c);
    if i == 0 {
        if user != c.user {
            assert(s2.drop_first() =~= s.drop_first());
        }
    } else {
        assert(s2[0] == s[0]);
        assert(s2.drop_first() =~= s.drop_first().update(i - 1, c));
        lemma_find_counter_update(s.drop_first(), i - 1, c, user);
    }
}

/// Rewriting the sequencer at its first-match index updates the map entry.
pub(crate) proof fn lemma_counters_map_update(s: Seq<UserCounter>, i: int, c: UserCounter)
    requires
        0 <= i < s.len(),
        c.user == s[i].user,
        forall|j: int| 0 <= j < i ==> s[j].user != s[i].user,
    ensures
        counters_map(s.update(i, c)) == counters_map(s).insert(c.user, c),
{
    assert forall|u: Identity|
        #[trigger] find_counter(s.update(i, c), u) == (if u == c.user {
            Some(c)
        } else {
            find_counter(s, u)
        }) by {
        lemma_find_counter_update(s, i, c, u);
    }
    assert(counters_map(s.update(i, c)) =~= counters_map(s).insert(c.user, c));
}

proof fn lemma_find_request_push(
    s: Seq<OracleRequest>,
    r: OracleRequest,
    owner: Identity,
    request_id: u64,
)
    ensures
        find_request(s.push(r), owner, request_id) == (if find_request(
            s,
            owner,
            request_id,
        ) is Some {
            find_request(s, owner, request_id)
        } else if r.user == owner && r.request_id == request_id {
            Some(r)
        } else {
            None::<OracleRequest>
        }),
    decreases s.len(),
{
    if s.len() == 0 {
        assert(s.push(r)[0] == r);
        assert(s.push(r).drop_first() =~= Seq::<OracleRequest>::empty());
    } else {
        assert(s.push(r)[0] == s[0]);
        assert(s.push(r).drop_first() =~= s.drop_first().push(r));
        lemma_find_request_push(s.drop_first(), r, owner, request_id);
    }
}

/// Appending a request under a fresh identity inserts it into the map.
pub(crate) proof fn lemma_requests_map_push(s: Seq<OracleRequest>, r: OracleRequest)
    requires
        find_request(s, r.user, r.request_id) is None,
    ensures
        requests_map(s.push(r)) == requests_map(s).insert((r.user, r.request_id), r@),
{
    assert forall|k: (Identity, u64)|
        #[trigger] find_request(s.push(r), k.0, k.1) == (if find_request(s, k.0, k.1) is Some {
            find_request(s, k.0, k.1)
        } else if r.user == k.0 && r.request_id == k.1 {
            Some(r)
        } else {
            None::<OracleRequest>
        }) by {
        lemma_find_request_push(s, r, k.0, k.1);
    }
    assert(requests_map(s.push(r)) =~= requests_map(s).insert((r.user, r.request_id), r@));
}

proof fn lemma_find_request_update(
    s: Seq<OracleRequest>,
    i: int,
    r: OracleRequest,
    owner: Identity,
    request_id: u64,
)
    requires
        0 <= i < s.len(),
        r.user == s[i].user,
        r.request_id == s[i].request_id,
        forall|j: int|
            0 <= j < i ==> (s[j].user, s[j].request_id) != (s[i].user, s[i].request_id),
    ensures
        find_request(s.update(i, r), owner, request_id) == (if owner == r.user && request_id
            == r.request_id {
            Some(r)
        } else {
            find_request(s, owner, request_id)
        }),
    decreases i,
{
    let s2 = s.update(i, r);
    if i == 0 {
        if !(owner == r.user && request_id == r.request_id) {
            assert(s2.drop_first() =~= s.drop_first());
        }
    } else {
        assert(s2[0] == s[0]);
        assert(s2.drop_first() =~= s.drop_first().update(i - 1, r));
        lemma_find_request_update(s.drop_first(), i - 1, r, owner, request_id);
    }
}

/// Rewriting the request at its first-match index updates the map entry.
pub(crate) proof fn lemma_requests_map_update(s: Seq<OracleRequest>, i: int, r: OracleRequest)
    requires
        0 <= i < s.len(),
        r.user == s[i].user,
        r.request_id == s[i].request_id,
        forall|j: int|
            0 <= j < i ==> (s[j].user, s[j].request_id) != (s[i].user, s[i].request_id),
    ensures
        requests_map(s.update(i, r)) == requests_map(s).insert((r.user, r.request_id), r@),
{
    assert forall|k: (Identity, u64)|
        #[trigger] find_request(s.update(i, r), k.0, k.1) == (if k.0 == r.user && k.1
            == r.request_id {
            Some(r)
        } else {
            find_request(s, k.0, k.1)
        }) by {
        lemma_find_request_update(s, i, r, k.0, k.1);
    }
    assert(requests_map(s.update(i, r)) =~= requests_map(s).insert((r.user, r.request_id), r@));
}

proof fn lemma_find_balance_push(s: Seq<(Identity, u64)>, p: (Identity, u64), who: Identity)
    ensures
        find_balance(s.push(p), who) == (if find_balance(s, who) is Some {
            find_balance(s, who)
        } else if p.0 == who {
            Some(p.1)
        } else {
            None::<u64>
        }),
    decreases s.len(),
{
    if s.len() == 0 {
        assert(s.push(p)[0] == p);
        assert(s.push(p).drop_first() =~= Seq::<(Identity, u64)>::empty());
        if p.0 == who {
            assert(find_balance(s.push(p), who) == Some(p.1));
        } else {
            lemma_find_balance_none(s.push(p).drop_first(), who);
        }
    } else {
        assert(s.push(p)[0] == s[0]);
        assert(s.push(p).drop_first() =~= s.drop_first().push(p));
        lemma_find_balance_push(s.drop_first(), p, who);
        if s[0].0 == who {
            assert(find_balance(s.push(p), who) == Some(s[0].1));
            assert(find_balance(s, who) == Some(s[0].1));
        } else {
            assert(find_balance(s.push(p), who) == find_balance(s.drop_first().push(p), who));
            assert(find_balance(s, who) == find_balance(s.drop_first(), who));
        }
    }
}

/// Appending a balance entry for an account without one sets its balance.
proof fn lemma_balances_map_push(s: Seq<(Identity, u64)>, p: (Identity, u64))
    requires
        find_balance(s, p.0) is None,
    ensures
        balances_map(s.push(p)) == balances_map(s).insert(p.0, p.1),
{
    assert forall|who: Identity|
        #[trigger] find_balance(s.push(p), who) == (if find_balance(s, who) is Some {
            find_balance(s, who)
        } else if p.0 == who {
            Some(p.1)
        } else {
            None::<u64>
        }) by {
        lemma_find_balance_push(s, p, who);
    }
    assert(balances_map(s.push(p)) =~= balances_map(s).insert(p.0, p.1));
}

proof fn lemma_find_balance_update(
    s: Seq<(Identity, u64)>,
    i: int,
    p: (Identity, u64),
    who: Identity,
)
    requires
        0 <= i < s.len(),
        p.0 == s[i].0,
        forall|j: int| 0 <= j < i ==> s[j].0 != s[i].0,
    ensures
        find_balance(s.update(i, p), who) == (if who == p.0 {
            Some(p.1)
        } else {
            find_balance(s, who)
        }),
    decreases i,
{
    let s2 = s.update(i, p);
    if i == 0 {
        if who != p.0 {
            assert(s2.drop_first() =~= s.drop_first());
        }
    } else {
        assert(s2[0] == s[0]);
        assert(s2.drop_first() =~= s.drop_first().update(i - 1, p));
        lemma_find_balance_update(s.drop_first(), i - 1, p, who);
    }
}

/// Rewriting the balance entry at its first-match index sets the balance.
proof fn lemma_balances_map_update(s: Seq<(Identity, u64)>, i: int, p: (Identity, u64))
    requires
        0 <= i < s.len(),
        p.0 == s[i].0,
        forall|j: int| 0 <= j < i ==> s[j].0 != s[i].0,
    ensures
        balances_map(s.update(i, p)) == balances_map(s).insert(p.0, p.1),
{
    assert forall|who: Identity|
        #[trigger] find_balance(s.update(i, p), who) == (if who == p.0 {
            Some(p.1)
        } else {
            find_balance(s, who)
        }) by {
        lemma_find_balance_update(s, i, p, who);
    }
    assert(balances_map(s.update(i, p)) =~= balances_map(s).insert(p.0, p.1));
}

impl Ledger {
    /// A fresh ledger: no configuration, no records, every balance zero.
    pub fn new() -> (r: Ledger)
        ensures
            r@ == LedgerModel::empty(),
            r@.inv(),
    {
        let r = Ledger {
            state: None,
            counters: Vec::new(),
            requests: Vec::new(),
            balances: Vec::new(),
        };
        proof {
            assert(r@.counters =~= LedgerModel::empty().counters);
            assert(r@.requests =~= LedgerModel::empty().requests);
            assert(r@.balances =~= LedgerModel::empty().balances);
            crate::model::lemma_empty_inv();
        }
        r
    }

    /// The index of the sequencer bound to `user`, if one exists.
    pub(crate) fn lookup_counter(&self, user: Identity) -> (r: Option<usize>)
        ensures
            match r {
                Some(i) => {
                    &&& i < self.counters@.len()
                    &&& self.counters@[i as int].user == user
                    &&& forall|j: int| 0 <= j < i ==> self.counters@[j].user != user
                    &&& find_counter(self.counters@, user) == Some(self.counters@[i as int])
                },
                None => find_counter(self.counters@, user) is None,
            },
    {
        let mut i: usize = 0;
        while i < self.counters.len()
            invariant
                i <= self.counters@.len(),
                forall|j: int| 0 <= j < i ==> self.counters@[j].user != user,
            decreases self.counters@.len() - i,
        {
            if self.counters[i].user == user {
                proof {
                    lemma_find_counter_first(self.counters@, i as int);
                }
                return Some(i);
            }
            i += 1;
        }
        proof {
            lemma_find_counter_none(self.counters@, user);
        }
        None
    }

    /// The index of the request with identity (owner, request_id), if any.
    pub(crate) fn lookup_request(&self, owner: Identity, request_id: u64) -> (r: Option<usize>)
        ensures
            match r {
                Some(i) => {
                    &&& i < self.requests@.len()
                    &&& self.requests@[i as int].user == owner
                    &&& self.requests@[i as int].request_id == request_id
                    &&& forall|j: int|
                        0 <= j < i ==> (self.requests@[j].user, self.requests@[j].request_id)
                            != (owner, request_id)
                    &&& find_request(self.requests@, owner, request_id) == Some(
                        self.requests@[i as int],
                    )
                },
                None => find_request(self.requests@, owner, request_id) is None,
            },
    {
        let mut i: usize = 0;
        while i < self.requests.len()
            invariant
                i <= self.requests@.len(),
                forall|j: int|
                    0 <= j < i ==> (self.requests@[j].user, self.requests@[j].request_id)
                        != (owner, request_id),
            decreases self.requests@.len() - i,
        {
            if self.requests[i].user == owner && self.requests[i].request_id == request_id {
                proof {
                    lemma_find_request_first(self.requests@, i as int);
                }
                return Some(i);
            }
            i += 1;
        }
        proof {
            lemma_find_request_none(self.requests@, owner, request_id);
        }
        None
    }

    /// The index of the balance entry of `who`, if one exists.
    pub(crate) fn lookup_balance(&self, who: Identity) -> (r: Option<usize>)
        ensures
            match r {
                Some(i) => {
                    &&& i < self.balances@.len()
                    &&& self.balances@[i as int].0 == who
                    &&& forall|j: int| 0 <= j < i ==> self.balances@[j].0 != who
                    &&& find_balance(self.balances@, who) == Some(self.balances@[i as int].1)
                },
                None => find_balance(self.balances@, who) is None,
            },
    {
        let mut i: usize = 0;
        while i < self.balances.len()
            invariant
                i <= self.balances@.len(),
                forall|j: int| 0 <= j < i ==> self.balances@[j].0 != who,
            decreases self.balances@.len() - i,
        {
            if self.balances[i].0 == who {
                proof {
                    lemma_find_balance_first(self.balances@, i as int);
                }
                return Some(i);
            }
            i += 1;
        }
        proof {
            lemma_find_balance_none(self.balances@, who);
        }
        None
    }

    /// The configuration record, if Initialize has run.
    pub fn get_state(&self) -> (r: Option<OracleState>)
        ensures
            r == self@.config,
    {
        self.state
    }

    /// The sequencer bound to `user`, if one exists.
    pub fn get_counter(&self, user: Identity) -> (r: Option<UserCounter>)
        ensures
            r == (if self@.counters.dom().contains(user) {
                Some(self@.counters[user])
            } else {
                None::<UserCounter>
            }),
    {
        match self.lookup_counter(user) {
            Some(i) => Some(self.counters[i]),
            None => None,
        }
    }

    /// The request with identity (owner, request_id), if one exists.
    pub fn get_request(&self, owner: Identity, request_id: u64) -> (r: Option<&OracleRequest>)
        ensures
            match r {
                Some(req) => self@.requests.dom().contains((owner, request_id)) && req@
                    == self@.requests[(owner, request_id)],
                None => !self@.requests.dom().contains((owner, request_id)),
            },
    {
        match self.lookup_request(owner, request_id) {
            Some(i) => Some(&self.requests[i]),
            None => None,
        }
    }

    /// The balance of `who`; an account without an entry holds zero.
    pub fn balance_of(&self, who: Identity) -> (r: u64)
        ensures
            r == self@.balances[who],
    {
        match self.lookup_balance(who) {
            Some(i) => self.balances[i].1,
            None => 0,
        }
    }

    /// Adds `amount` to the balance of `who`. Stands for the external
    /// funding of an account; the oracle operations themselves never mint.
    pub fn credit(&mut self, who: Identity, amount: u64)
        requires
            old(self)@.balances[who] + amount <= u64::MAX,
        ensures
            final(self)@ == (LedgerModel {
                balances: old(self)@.balances.insert(
                    who,
                    (old(self)@.balances[who] + amount) as u64,
                ),
                ..old(self)@
            }),
            old(self)@.inv() ==> final(self)@.inv(),
    {
        let ghost m0 = self@;
        match self.lookup_balance(who) {
            Some(i) => {
                let b = self.balances[i].1;
                proof {
                    lemma_balances_map_update(self.balances@, i as int, (who, (b + amount) as u64));
                }
                self.balances[i] = (who, b + amount);
            },
            None => {
                proof {
                    lemma_balances_map_push(self.balances@, (who, amount));
                }
                self.balances.push((who, amount));
            },
        }
        proof {
            if m0.inv() {
                assert(self@.balances.dom() =~= Set::<Identity>::full());
            }
        }
    }

    /// Whether moving `amount` from `from` to `to` would succeed.
    pub(crate) fn can_transfer(&self, from: Identity, to: Identity, amount: u64) -> (r: bool)
        ensures
            r == spec_transfer(self@.balances, from, to, amount).1,
    {
        let bf = self.balance_of(from);
        if bf < amount {
            false
        } else if from == to {
            true
        } else {
            let bt = self.balance_of(to);
            amount <= u64::MAX - bt
        }
    }

    /// Moves `amount` from `from` to `to`. The caller must have checked
    /// feasibility; the balances then change exactly as the value-transfer
    /// step of the model says, and nothing else changes.
    pub(crate) fn do_transfer(&mut self, from: Identity, to: Identity, amount: u64)
        requires
            spec_transfer(old(self)@.balances, from, to, amount).1,
        ensures
            final(self).state == old(self).state,
            final(self).counters@ == old(self).counters@,
            final(self).requests@ == old(self).requests@,
            balances_map(final(self).balances@) == spec_transfer(
                old(self)@.balances,
                from,
                to,
                amount,
            ).0,
    {
        let ghost m0 = self@;
        let bf = self.balance_of(from);
        if from == to {
            return ;
        }
        match self.lookup_balance(from) {
            Some(i) => {
                proof {
                    lemma_balances_map_update(
                        self.balances@,
                        i as int,
                        (from, (bf - amount) as u64),
                    );
                }
                self.balances[i] = (from, bf - amount);
            },
            None => {
                proof {
                    lemma_balances_map_push(self.balances@, (from, (bf - amount) as u64));
                }
                self.balances.push((from, bf - amount));
            },
        }
        assert(self@.balances == m0.balances.insert(from, (bf - amount) as u64));
        let bt = self.balance_of(to);
        assert(bt == m0.balances[to]);
        match self.lookup_balance(to) {
            Some(j) => {
                proof {
                    lemma_balances_map_update(self.balances@, j as int, (to, (bt + amount) as u64));
                }
                self.balances[j] = (to, bt + amount);
            },
            None => {
                proof {
                    lemma_balances_map_push(self.balances@, (to, (bt + amount) as u64));
                }
                self.balances.push((to, bt + amount));
            },
        }
    }
}

} // verus!
