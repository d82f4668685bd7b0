//! The mathematical model of the ledger and the transition functions of the
//! four operations. The executable operations in [`crate::ops`] are proved
//! to agree with these transitions exactly; the laws in [`crate::laws`] are
//! stated and proved over them.

use vstd::prelude::*;

use crate::errors::{CyberOracleError, LedgerError};
use crate::identity::Identity;
use crate::records::{OracleState, RequestModel, UserCounter};

verus! {

/// The mathematical value of the whole ledger.
#[verifier::ext_equal]
pub struct LedgerModel {
    /// The singleton configuration record, if Initialize has run.
    pub config: Option<OracleState>,
    /// The per-user sequencers, keyed by owner.
    pub counters: Map<Identity, UserCounter>,
    /// The request records, keyed by (owner, sequence).
    pub requests: Map<(Identity, u64), RequestModel>,
    /// The account balances; total, with absent accounts holding zero.
    pub balances: Map<Identity, u64>,
}

impl LedgerModel {
    /// The ledger with no configuration, no records, and all balances zero.
    pub open spec fn empty() -> LedgerModel {
        LedgerModel {
            config: None,
            counters: Map::empty(),
            requests: Map::empty(),
            balances: Map::total(|id: Identity| 0u64),
        }
    }

    /// The sequence number the next request of `user` will be assigned.
    pub open spec fn next_sequence(self, user: Identity) -> u64 {
        if self.counters.dom().contains(user) {
            self.counters[user].next_request_id
        } else {
            0
        }
    }

    /// The ledger invariant, established by `LedgerModel::empty()` and
    /// preserved by every transition:
    /// - a sequencer is keyed by the owner it is bound to;
    /// - a request is keyed by its own (owner, sequence) identity, is
    ///   well formed, and its sequence lies below its owner's counter;
    /// - conversely every sequence below a counter is taken by a request,
    ///   so the requests of an owner are exactly 0, 1, ..., counter - 1;
    /// - the balance map is total.
    pub open spec fn inv(self) -> bool {
        &&& forall|u: Identity| #[trigger] self.counters.dom().contains(u)
            ==> self.counters[u].user == u
        &&& forall|k: (Identity, u64)| #[trigger] self.requests.dom().contains(k) ==> {
            &&& self.requests[k].user == k.0
            &&& self.requests[k].request_id == k.1
            &&& self.requests[k].wf()
            &&& self.counters.dom().contains(k.0)
            &&& k.1 < self.counters[k.0].next_request_id
        }
        &&& forall|u: Identity, id: u64|
            self.counters.dom().contains(u) && id < self.counters[u].next_request_id
                ==> #[trigger] self.requests.dom().contains((u, id))
        &&& self.balances.dom() == Set::<Identity>::full()
    }
}

/// The transition of Initialize: creates the configuration record verbatim
/// from the caller (who becomes the authority), the treasury and the price;
/// fails if and only if the record already exists.
pub open spec fn spec_initialize(
    m: LedgerModel,
    authority: Identity,
    treasury: Identity,
    price_lamports: u64,
    state_bump: u8,
) -> (LedgerModel, Result<(), LedgerError>) {
    if m.config is Some {
        (m, Err(LedgerError::AlreadyInitialized))
    } else {
        (
            LedgerModel {
                config: Some(OracleState { authority, treasury, price_lamports, bump: state_bump }),
                ..m
            },
            Ok(()),
        )
    }
}

/// The transition of UpdatePrice: overwrites the price if the caller is the
/// configured authority; fails with Unauthorized otherwise, leaving the
/// price unchanged. Any value, including zero, is accepted.
pub open spec fn spec_update_price(
    m: LedgerModel,
    caller: Identity,
    price_lamports: u64,
) -> (LedgerModel, Result<(), LedgerError>) {
    match m.config {
        None => (m, Err(LedgerError::NotInitialized)),
        Some(cfg) => {
            if caller != cfg.authority {
                (m, Err(LedgerError::Oracle(CyberOracleError::Unauthorized)))
            } else {
                (
                    LedgerModel {
                        config: Some(OracleState { price_lamports, ..cfg }),
                        ..m
                    },
                    Ok(()),
                )
            }
        },
    }
}

/// The value-transfer step: moves `amount` from `from` to `to`, succeeding
/// if and only if the payer holds the amount and the destination balance
/// can take it. On failure the balances are untouched.
pub open spec fn spec_transfer(
    balances: Map<Identity, u64>,
    from: Identity,
    to: Identity,
    amount: u64,
) -> (Map<Identity, u64>, bool) {
    if balances[from] < amount {
        (balances, false)
    } else if from == to {
        (balances, true)
    } else if balances[to] + amount > u64::MAX {
        (balances, false)
    } else {
        (
            balances
                .insert(from, (balances[from] - amount) as u64)
                .insert(to, (balances[to] + amount) as u64),
            true,
        )
    }
}

/// The transition of RequestOracle, atomic over all its steps: validates
/// the price, binds or checks the payer's sequencer, pays the configured
/// price to the treasury, creates the request under the sequencer's current
/// number, and advances the sequencer. On any failure nothing changes.
pub open spec fn spec_request_oracle(
    m: LedgerModel,
    payer: Identity,
    prompt_hash: Seq<u8>,
    treasury: Identity,
    counter_bump: u8,
    request_bump: u8,
) -> (LedgerModel, Result<(), LedgerError>) {
    match m.config {
        None => (m, Err(LedgerError::NotInitialized)),
        Some(cfg) => {
            let counter = if m.counters.dom().contains(payer) {
                m.counters[payer]
            } else {
                UserCounter { user: payer, next_request_id: 0, bump: counter_bump }
            };
            if cfg.price_lamports == 0 {
                (m, Err(LedgerError::Oracle(CyberOracleError::InvalidPrice)))
            } else if counter.user != payer {
                (m, Err(LedgerError::Oracle(CyberOracleError::Unauthorized)))
            } else if treasury != cfg.treasury {
                (m, Err(LedgerError::TransferFailed))
            } else if !spec_transfer(m.balances, payer, treasury, cfg.price_lamports).1 {
                (m, Err(LedgerError::TransferFailed))
            } else if counter.next_request_id == u64::MAX {
                (m, Err(LedgerError::Oracle(CyberOracleError::RequestIdOverflow)))
            } else {
                (
                    LedgerModel {
                        counters: m.counters.insert(
                            payer,
                            UserCounter {
                                next_request_id: (counter.next_request_id + 1) as u64,
                                ..counter
                            },
                        ),
                        requests: m.requests.insert(
                            (payer, counter.next_request_id),
                            RequestModel {
                                user: payer,
                                request_id: counter.next_request_id,
                                prompt_hash,
                                result_uri: Seq::empty(),
                                asset_id: Identity::spec_null(),
                                collection_mint: Identity::spec_null(),
                                fulfilled: false,
                                bump: request_bump,
                            },
                        ),
                        balances: spec_transfer(m.balances, payer, treasury, cfg.price_lamports).0,
                        ..m
                    },
                    Ok(()),
                )
            }
        },
    }
}

/// The transition of FulfillOracle: locates the request by its (owner,
/// sequence) identity and, if the caller is the authority, the request is
/// still unfulfilled, the URI is within its bound and the asset reference
/// is not null, attaches the result and marks the request fulfilled. On any
/// failure nothing changes.
pub open spec fn spec_fulfill_oracle(
    m: LedgerModel,
    caller: Identity,
    owner: Identity,
    request_id: u64,
    result_uri: Seq<char>,
    asset_id: Identity,
    collection_mint: Identity,
) -> (LedgerModel, Result<(), LedgerError>) {
    match m.config {
        None => (m, Err(LedgerError::NotInitialized)),
        Some(cfg) => {
            if !m.requests.dom().contains((owner, request_id)) {
                (m, Err(LedgerError::RequestNotFound))
            } else if caller != cfg.authority {
                (m, Err(LedgerError::Oracle(CyberOracleError::Unauthorized)))
            } else if m.requests[(owner, request_id)].fulfilled {
                (m, Err(LedgerError::Oracle(CyberOracleError::AlreadyFulfilled)))
            } else if result_uri.len() > 200 {
                (m, Err(LedgerError::Oracle(CyberOracleError::ResultUriTooLong)))
            } else if asset_id.is_null() {
                (m, Err(LedgerError::Oracle(CyberOracleError::InvalidAssetId)))
            } else {
                (
                    LedgerModel {
                        requests: m.requests.insert(
                            (owner, request_id),
                            RequestModel {
                                result_uri,
                                asset_id,
                                collection_mint,
                                fulfilled: true,
                                ..m.requests[(owner, request_id)]
                            },
                        ),
                        ..m
                    },
                    Ok(()),
                )
            }
        },
    }
}

/// The empty ledger satisfies the invariant.
pub proof fn lemma_empty_inv()
    ensures
        LedgerModel::empty().inv(),
{
    assert(LedgerModel::empty().balances.dom() =~= Set::<Identity>::full());
}

/// Initialize preserves the invariant: it touches only the configuration.
pub proof fn lemma_initialize_inv(
    m: LedgerModel,
    authority: Identity,
    treasury: Identity,
    price_lamports: u64,
    state_bump: u8,
)
    requires
        m.inv(),
    ensures
        spec_initialize(m, authority, treasury, price_lamports, state_bump).0.inv(),
{
}

/// UpdatePrice preserves the invariant: it touches only the configuration.
pub proof fn lemma_update_price_inv(m: LedgerModel, caller: Identity, price_lamports: u64)
    requires
        m.inv(),
    ensures
        spec_update_price(m, caller, price_lamports).0.inv(),
{
}

/// RequestOracle preserves the invariant: the new request is well formed,
/// sits exactly at the old counter value, and the counter moves one up, so
/// the owner's requests stay the contiguous range below the counter.
pub proof fn lemma_request_oracle_inv(
    m: LedgerModel,
    payer: Identity,
    prompt_hash: Seq<u8>,
    treasury: Identity,
    counter_bump: u8,
    request_bump: u8,
)
    requires
        m.inv(),
        prompt_hash.len() == 32,
    ensures
        spec_request_oracle(m, payer, prompt_hash, treasury, counter_bump, request_bump).0.inv(),
{
    let m2 = spec_request_oracle(m, payer, prompt_hash, treasury, counter_bump, request_bump).0;
    if spec_request_oracle(m, payer, prompt_hash, treasury, counter_bump, request_bump).1 is Ok {
        let n = m.next_sequence(payer);
        assert(m2.balances.dom() =~= Set::<Identity>::full());
        assert forall|u: Identity, id: u64|
            m2.counters.dom().contains(u) && id < m2.counters[u].next_request_id
                implies #[trigger] m2.requests.dom().contains((u, id)) by {
            if u == payer {
                if id < n {
                    assert(m.counters.dom().contains(u) && id < m.counters[u].next_request_id);
                    assert(m.requests.dom().contains((u, id)));
                } else {
                    assert(id == n);
                }
            } else {
                assert(m.counters.dom().contains(u) && id < m.counters[u].next_request_id);
                assert(m.requests.dom().contains((u, id)));
            }
        }
    }
}

/// FulfillOracle preserves the invariant: it rewrites one request in place,
/// keeping its identity, and the result it attaches is well formed.
pub proof fn lemma_fulfill_oracle_inv(
    m: LedgerModel,
    caller: Identity,
    owner: Identity,
    request_id: u64,
    result_uri: Seq<char>,
    asset_id: Identity,
    collection_mint: Identity,
)
    requires
        m.inv(),
    ensures
        spec_fulfill_oracle(m, caller, owner, request_id, result_uri, asset_id, collection_mint)
            .0.inv(),
{
}

} // verus!
