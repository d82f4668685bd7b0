//! Laws of the oracle ledger, stated and proved over the transition
//! functions of [`crate::model`]: what single operations guarantee, and
//! what therefore holds across arbitrary sequences of operations.

use vstd::prelude::*;

use crate::errors::{CyberOracleError, LedgerError};
use crate::identity::Identity;
use crate::model::{
    lemma_fulfill_oracle_inv, lemma_initialize_inv, lemma_request_oracle_inv,
    lemma_update_price_inv, spec_fulfill_oracle, spec_initialize, spec_request_oracle,
    spec_update_price, LedgerModel,
};

verus! {

/// One invocation of an operation, with the inputs it was given.
pub enum Op {
    Initialize { authority: Identity, treasury: Identity, price_lamports: u64, state_bump: u8 },
    UpdatePrice { caller: Identity, price_lamports: u64 },
    RequestOracle {
        payer: Identity,
        prompt_hash: Seq<u8>,
        treasury: Identity,
        counter_bump: u8,
        request_bump: u8,
    },
    FulfillOracle {
        caller: Identity,
        owner: Identity,
        request_id: u64,
        result_uri: Seq<char>,
        asset_id: Identity,
        collection_mint: Identity,
    },
}

impl Op {
    /// The inputs the executable operations can actually be handed: a
    /// prompt digest is a 32-byte array.
    pub open spec fn valid(self) -> bool {
        match self {
            Op::RequestOracle { prompt_hash, .. } => prompt_hash.len() == 32,
            _ => true,
        }
    }
}

/// The effect of one operation on the ledger model.
pub open spec fn spec_step(m: LedgerModel, op: Op) -> (LedgerModel, Result<(), LedgerError>) {
    match op {
        Op::Initialize { authority, treasury, price_lamports, state_bump } => spec_initialize(
            m,
            authority,
            treasury,
            price_lamports,
            state_bump,
        ),
        Op::UpdatePrice { caller, price_lamports } => spec_update_price(m, caller, price_lamports),
        Op::RequestOracle { payer, prompt_hash, treasury, counter_bump, request_bump } =>
            spec_request_oracle(m, payer, prompt_hash, treasury, counter_bump, request_bump),
        Op::FulfillOracle { caller, owner, request_id, result_uri, asset_id, collection_mint } =>
            spec_fulfill_oracle(m, caller, owner, request_id, result_uri, asset_id, collection_mint),
    }
}

/// The ledger after a whole sequence of operations, applied in order.
pub open spec fn spec_run(m: LedgerModel, ops: Seq<Op>) -> LedgerModel
    decreases ops.len(),
{
    if ops.len() == 0 {
        m
    } else {
        spec_run(spec_step(m, ops[0]).0, ops.drop_first())
    }
}

/// Validity of every operation in a sequence.
pub open spec fn ops_valid(ops: Seq<Op>) -> bool {
    forall|i: int| 0 <= i < ops.len() ==> (#[trigger] ops[i]).valid()
}

/// Law: an operation that fails changes nothing at all — no partial
/// effects ever survive.
pub proof fn lemma_failure_changes_nothing(m: LedgerModel, op: Op)
    ensures
        spec_step(m, op).1 is Err ==> spec_step(m, op).0 == m,
{
}

/// Law: every operation preserves the ledger invariant.
pub proof fn lemma_step_inv(m: LedgerModel, op: Op)
    requires
        m.inv(),
        op.valid(),
    ensures
        spec_step(m, op).0.inv(),
{
    match op {
        Op::Initialize { authority, treasury, price_lamports, state_bump } => {
            lemma_initialize_inv(m, authority, treasury, price_lamports, state_bump);
        },
        Op::UpdatePrice { caller, price_lamports } => {
            lemma_update_price_inv(m, caller, price_lamports);
        },
        Op::RequestOracle { payer, prompt_hash, treasury, counter_bump, request_bump } => {
            lemma_request_oracle_inv(m, payer, prompt_hash, treasury, counter_bump, request_bump);
        },
        Op::FulfillOracle { caller, owner, request_id, result_uri, asset_id, collection_mint } => {
            lemma_fulfill_oracle_inv(
                m,
                caller,
                owner,
                request_id,
                result_uri,
                asset_id,
                collection_mint,
            );
        },
    }
}

/// Law: the ledger invariant holds after any sequence of operations.
pub proof fn lemma_run_inv(m: LedgerModel, ops: Seq<Op>)
    requires
        m.inv(),
        ops_valid(ops),
    ensures
        spec_run(m, ops).inv(),
    decreases ops.len(),
{
    if ops.len() > 0 {
        lemma_step_inv(m, ops[0]);
        assert(ops_valid(ops.drop_first()));
        lemma_run_inv(spec_step(m, ops[0]).0, ops.drop_first());
    }
}

/// What one operation can do to the sequencers and to fulfilled requests:
/// an existing sequencer survives with its owner intact and its counter
/// never lowered, and a fulfilled request is never touched again.
pub proof fn lemma_step_effects(m: LedgerModel, op: Op)
    requires
        m.inv(),
    ensures
        forall|u: Identity| #[trigger] m.counters.dom().contains(u) ==> {
            &&& spec_step(m, op).0.counters.dom().contains(u)
            &&& spec_step(m, op).0.counters[u].user == m.counters[u].user
            &&& spec_step(m, op).0.counters[u].next_request_id
                >= m.counters[u].next_request_id
        },
        forall|u: Identity|
            #[trigger] spec_step(m, op).0.next_sequence(u) >= m.next_sequence(u),
        forall|k: (Identity, u64)|
            #[trigger] m.requests.dom().contains(k) && m.requests[k].fulfilled ==> {
                &&& spec_step(m, op).0.requests.dom().contains(k)
                &&& spec_step(m, op).0.requests[k] == m.requests[k]
            },
{
    match op {
        Op::RequestOracle { payer, .. } => {
            if spec_step(m, op).1 is Ok {
                let n = m.next_sequence(payer);
                assert(!m.requests.dom().contains((payer, n)));
            }
        },
        _ => {},
    }
}

/// Law (owner stability): once a sequencer exists, its owner never changes
/// across any sequence of operations.
pub proof fn lemma_owner_never_changes(m: LedgerModel, ops: Seq<Op>, u: Identity)
    requires
        m.inv(),
        ops_valid(ops),
        m.counters.dom().contains(u),
    ensures
        spec_run(m, ops).counters.dom().contains(u),
        spec_run(m, ops).counters[u].user == m.counters[u].user,
    decreases ops.len(),
{
    if ops.len() > 0 {
        lemma_step_inv(m, ops[0]);
        lemma_step_effects(m, ops[0]);
        assert(ops_valid(ops.drop_first()));
        lemma_owner_never_changes(spec_step(m, ops[0]).0, ops.drop_first(), u);
    }
}

/// Law (monotone sequencing): the sequence number a user's next request
/// would get never decreases across any sequence of operations.
pub proof fn lemma_next_sequence_monotone(m: LedgerModel, ops: Seq<Op>, u: Identity)
    requires
        m.inv(),
        ops_valid(ops),
    ensures
        spec_run(m, ops).next_sequence(u) >= m.next_sequence(u),
    decreases ops.len(),
{
    if ops.len() > 0 {
        lemma_step_inv(m, ops[0]);
        lemma_step_effects(m, ops[0]);
        assert(ops_valid(ops.drop_first()));
        lemma_next_sequence_monotone(spec_step(m, ops[0]).0, ops.drop_first(), u);
    }
}

/// Law (fulfillment is terminal): once a request is fulfilled, no sequence
/// of operations ever changes any of its fields again.
pub proof fn lemma_fulfilled_is_terminal(m: LedgerModel, ops: Seq<Op>, k: (Identity, u64))
    requires
        m.inv(),
        ops_valid(ops),
        m.requests.dom().contains(k),
        m.requests[k].fulfilled,
    ensures
        spec_run(m, ops).requests.dom().contains(k),
        spec_run(m, ops).requests[k] == m.requests[k],
    decreases ops.len(),
{
    if ops.len() > 0 {
        lemma_step_inv(m, ops[0]);
        lemma_step_effects(m, ops[0]);
        assert(ops_valid(ops.drop_first()));
        lemma_fulfilled_is_terminal(spec_step(m, ops[0]).0, ops.drop_first(), k);
    }
}

/// Law (at most one fulfillment): after a successful fulfillment of a
/// request, any second fulfillment of the same (owner, sequence) identity
/// fails and changes nothing; when the second caller is the authority, the
/// error is precisely AlreadyFulfilled.
pub proof fn lemma_second_fulfill_fails(
    m: LedgerModel,
    caller1: Identity,
    owner: Identity,
    request_id: u64,
    uri1: Seq<char>,
    asset1: Identity,
    coll1: Identity,
    caller2: Identity,
    uri2: Seq<char>,
    asset2: Identity,
    coll2: Identity,
)
    requires
        spec_fulfill_oracle(m, caller1, owner, request_id, uri1, asset1, coll1).1 is Ok,
    ensures
        spec_fulfill_oracle(
            spec_fulfill_oracle(m, caller1, owner, request_id, uri1, asset1, coll1).0,
            caller2,
            owner,
            request_id,
            uri2,
            asset2,
            coll2,
        ).0 == spec_fulfill_oracle(m, caller1, owner, request_id, uri1, asset1, coll1).0,
        spec_fulfill_oracle(
            spec_fulfill_oracle(m, caller1, owner, request_id, uri1, asset1, coll1).0,
            caller2,
            owner,
            request_id,
            uri2,
            asset2,
            coll2,
        ).1 is Err,
        caller2 == m.config->Some_0.authority ==> spec_fulfill_oracle(
            spec_fulfill_oracle(m, caller1, owner, request_id, uri1, asset1, coll1).0,
            caller2,
            owner,
            request_id,
            uri2,
            asset2,
            coll2,
        ).1 == Err::<(), LedgerError>(LedgerError::Oracle(CyberOracleError::AlreadyFulfilled)),
{
}

/// Law (sequence assignment): a successful request is assigned exactly the
/// payer's current sequence number — fresh until then — as an unfulfilled
/// record, and advances that number by one; an unsuccessful request leaves
/// the ledger untouched. Together with monotone sequencing this makes the
/// emitted numbers of one user exactly 0, 1, 2, ... in call order.
pub proof fn lemma_request_assigns_next_sequence(
    m: LedgerModel,
    payer: Identity,
    prompt_hash: Seq<u8>,
    treasury: Identity,
    counter_bump: u8,
    request_bump: u8,
)
    requires
        m.inv(),
    ensures
        spec_request_oracle(m, payer, prompt_hash, treasury, counter_bump, request_bump).1 is Ok
            ==> {
            let n = m.next_sequence(payer);
            let m2 = spec_request_oracle(
                m,
                payer,
                prompt_hash,
                treasury,
                counter_bump,
                request_bump,
            ).0;
            &&& !m.requests.dom().contains((payer, n))
            &&& m2.requests.dom().contains((payer, n))
            &&& m2.requests[(payer, n)].user == payer
            &&& m2.requests[(payer, n)].request_id == n
            &&& m2.requests[(payer, n)].prompt_hash == prompt_hash
            &&& !m2.requests[(payer, n)].fulfilled
            &&& m2.next_sequence(payer) == m.next_sequence(payer) + 1
        },
        !(spec_request_oracle(m, payer, prompt_hash, treasury, counter_bump, request_bump).1
            is Ok) ==> spec_request_oracle(
            m,
            payer,
            prompt_hash,
            treasury,
            counter_bump,
            request_bump,
        ).0 == m,
{
}

/// Law (zero price rejects): whenever the configured price is zero, any
/// request fails with InvalidPrice, and no request record, sequencer or
/// transfer results — the ledger is exactly as before.
pub proof fn lemma_zero_price_rejects(
    m: LedgerModel,
    payer: Identity,
    prompt_hash: Seq<u8>,
    treasury: Identity,
    counter_bump: u8,
    request_bump: u8,
)
    requires
        m.config is Some,
        m.config->Some_0.price_lamports == 0,
    ensures
        spec_request_oracle(m, payer, prompt_hash, treasury, counter_bump, request_bump).1
            == Err::<(), LedgerError>(LedgerError::Oracle(CyberOracleError::InvalidPrice)),
        spec_request_oracle(m, payer, prompt_hash, treasury, counter_bump, request_bump).0 == m,
{
}

/// Law (exact URI bound): once the caller is the authority and the target
/// request exists unfulfilled with a non-null asset supplied, fulfillment
/// succeeds for any URI of up to 200 characters and fails with
/// ResultUriTooLong — changing nothing — for any longer one.
pub proof fn lemma_uri_bound_exact(
    m: LedgerModel,
    caller: Identity,
    owner: Identity,
    request_id: u64,
    result_uri: Seq<char>,
    asset_id: Identity,
    collection_mint: Identity,
)
    requires
        m.config is Some,
        caller == m.config->Some_0.authority,
        m.requests.dom().contains((owner, request_id)),
        !m.requests[(owner, request_id)].fulfilled,
        !asset_id.is_null(),
    ensures
        result_uri.len() <= 200 ==> spec_fulfill_oracle(
            m,
            caller,
            owner,
            request_id,
            result_uri,
            asset_id,
            collection_mint,
        ).1 is Ok,
        result_uri.len() > 200 ==> spec_fulfill_oracle(
            m,
            caller,
            owner,
            request_id,
            result_uri,
            asset_id,
            collection_mint,
        ) == (m, Err::<(), LedgerError>(LedgerError::Oracle(CyberOracleError::ResultUriTooLong))),
{
}

/// Law (null asset rejects): once the caller is the authority and the
/// target request exists unfulfilled with the URI within its bound, a null
/// asset reference fails with InvalidAssetId and changes nothing, whatever
/// the collection reference.
pub proof fn lemma_null_asset_rejects(
    m: LedgerModel,
    caller: Identity,
    owner: Identity,
    request_id: u64,
    result_uri: Seq<char>,
    collection_mint: Identity,
)
    requires
        m.config is Some,
        caller == m.config->Some_0.authority,
        m.requests.dom().contains((owner, request_id)),
        !m.requests[(owner, request_id)].fulfilled,
        result_uri.len() <= 200,
    ensures
        spec_fulfill_oracle(
            m,
            caller,
            owner,
            request_id,
            result_uri,
            Identity::spec_null(),
            collection_mint,
        ) == (m, Err::<(), LedgerError>(LedgerError::Oracle(CyberOracleError::InvalidAssetId))),
{
}

/// Law (authority gate on the price): UpdatePrice from any caller other
/// than the configured authority fails with Unauthorized and leaves the
/// whole ledger — the price in particular — unchanged.
pub proof fn lemma_update_price_unauthorized(m: LedgerModel, caller: Identity, price_lamports: u64)
    requires
        m.config is Some,
        caller != m.config->Some_0.authority,
    ensures
        spec_update_price(m, caller, price_lamports) == (
            m,
            Err::<(), LedgerError>(LedgerError::Oracle(CyberOracleError::Unauthorized)),
        ),
{
}

/// Law (contiguous identities): in any ledger satisfying the invariant the
/// request identities of an owner are exactly the sequence numbers below
/// the owner's counter — 0, 1, 2, ... with no gaps and no repeats.
pub proof fn lemma_request_ids_contiguous(m: LedgerModel, u: Identity, id: u64)
    requires
        m.inv(),
    ensures
        m.requests.dom().contains((u, id)) <==> (m.counters.dom().contains(u) && id
            < m.counters[u].next_request_id),
{
}

} // verus!
