//! The four operations of the oracle ledger. Each takes the accounts it
//! touches, validates its preconditions, and either applies its whole
//! effect or leaves the ledger exactly as it was: the contract of each is
//! that the ledger and the result agree with the corresponding transition
//! function of [`crate::model`].

use vstd::prelude::*;

use vstd::string::StrSliceExecFns;

use crate::errors::{CyberOracleError, LedgerError};
use crate::identity::Identity;
use crate::ledger::Ledger;
use crate::model::{
    lemma_fulfill_oracle_inv, lemma_initialize_inv, lemma_request_oracle_inv,
    lemma_update_price_inv, spec_fulfill_oracle, spec_initialize, spec_request_oracle,
    spec_update_price,
};
use crate::records::{OracleRequest, OracleState, UserCounter};

verus! {

/// The accounts Initialize touches: the caller becoming the authority, the
/// treasury it names, and the derivation salt of the new configuration.
#[derive(Clone, Copy, Debug)]
pub struct Initialize {
    pub authority: Identity,
    pub treasury: Identity,
    pub state_bump: u8,
}

/// The accounts UpdatePrice touches: the caller claiming to be authority.
#[derive(Clone, Copy, Debug)]
pub struct UpdatePrice {
    pub authority: Identity,
}

/// The accounts RequestOracle touches: the paying requester, the treasury
/// it declares, and the derivation salts for the records it may create.
#[derive(Clone, Copy, Debug)]
pub struct RequestOracle {
    pub payer: Identity,
    pub treasury: Identity,
    pub counter_bump: u8,
    pub request_bump: u8,
}

/// The accounts FulfillOracle touches: the caller claiming to be authority
/// and the (owner, sequence) identity that locates the target request.
#[derive(Clone, Copy, Debug)]
pub struct FulfillOracle {
    pub authority: Identity,
    pub request_owner: Identity,
    pub request_id: u64,
}

/// Creates the singleton configuration record with the three fields set
/// verbatim; the caller becomes the authority. Fails if and only if the
/// record already exists, and then changes nothing.
pub fn initialize(ledger: &mut Ledger, accounts: Initialize, price_lamports: u64) -> (r: Result<
    (),
    LedgerError,
>)
    ensures
        (final(ledger)@, r) == spec_initialize(
            old(ledger)@,
            accounts.authority,
            accounts.treasury,
            price_lamports,
            accounts.state_bump,
        ),
        old(ledger)@.inv() ==> final(ledger)@.inv(),
    {
    proof {
        if old(ledger)@.inv() {
            lemma_initialize_inv(
                old(ledger)@,
                accounts.authority,
                accounts.treasury,
                price_lamports,
                accounts.state_bump,
            );
        }
    }
    if ledger.state.is_some() {
        return Err(LedgerError::AlreadyInitialized);
    }
    ledger.state = Some(
        OracleState {
            authority: accounts.authority,
            treasury: accounts.treasury,
            price_lamports,
            bump: accounts.state_bump,
        },
    );
    Ok(())
}

/// Overwrites the configured price, any value allowed. Fails if and only
/// if the caller is not the authority or no configuration exists, and then
/// leaves the price unchanged.
pub fn update_price(ledger: &mut Ledger, accounts: UpdatePrice, price_lamports: u64) -> (r: Result<
    (),
    LedgerError,
>)
    ensures
        (final(ledger)@, r) == spec_update_price(old(ledger)@, accounts.authority, price_lamports),
        old(ledger)@.inv() ==> final(ledger)@.inv(),
    {
    proof {
        if old(ledger)@.inv() {
            lemma_update_price_inv(old(ledger)@, accounts.authority, price_lamports);
        }
    }
    let cfg = match ledger.get_state() {
        None => {
            return Err(LedgerError::NotInitialized);
        },
        Some(c) => c,
    };
    if accounts.authority != cfg.authority {
        return Err(LedgerError::Oracle(CyberOracleError::Unauthorized));
    }
    ledger.state = Some(OracleState { price_lamports, ..cfg });
    Ok(())
}

/// Submits a prompt digest: pays the configured price from the payer to
/// the treasury, creates the request record under the payer's current
/// sequence number, and advances the payer's sequencer, all atomically. On
/// any failure nothing changes. The declared treasury must equal the
/// configured one, or the transfer is rejected.
pub fn request_oracle(ledger: &mut Ledger, accounts: RequestOracle, prompt_hash: [u8; 32]) -> (r:
    Result<(), LedgerError>)
    requires
        old(ledger)@.inv(),
    ensures
        (final(ledger)@, r) == spec_request_oracle(
            old(ledger)@,
            accounts.payer,
            prompt_hash@,
            accounts.treasury,
            accounts.counter_bump,
            accounts.request_bump,
        ),
        final(ledger)@.inv(),
    {
    let ghost m0 = ledger@;
    proof {
        lemma_request_oracle_inv(
            m0,
            accounts.payer,
            prompt_hash@,
            accounts.treasury,
            accounts.counter_bump,
            accounts.request_bump,
        );
    }
    let payer = accounts.payer;
    let cfg = match ledger.get_state() {
        None => {
            return Err(LedgerError::NotInitialized);
        },
        Some(c) => c,
    };
    let idx = ledger.lookup_counter(payer);
    let counter: UserCounter = match idx {
        Some(i) => ledger.counters[i],
        None => UserCounter { user: payer, next_request_id: 0, bump: accounts.counter_bump },
    };
    if cfg.price_lamports == 0 {
        return Err(LedgerError::Oracle(CyberOracleError::InvalidPrice));
    }
    if counter.user != payer {
        return Err(LedgerError::Oracle(CyberOracleError::Unauthorized));
    }
    if accounts.treasury != cfg.treasury {
        return Err(LedgerError::TransferFailed);
    }
    if !ledger.can_transfer(payer, accounts.treasury, cfg.price_lamports) {
        return Err(LedgerError::TransferFailed);
    }
    if counter.next_request_id == u64::MAX {
        return Err(LedgerError::Oracle(CyberOracleError::RequestIdOverflow));
    }

    ledger.do_transfer(payer, accounts.treasury, cfg.price_lamports);

    let request = OracleRequest {
        user: payer,
        request_id: counter.next_request_id,
        prompt_hash,
        result_uri: String::new(),
        asset_id: Identity::null(),
        collection_mint: Identity::null(),
        fulfilled: false,
        bump: accounts.request_bump,
    };
    proof {
        if m0.requests.dom().contains((payer, counter.next_request_id)) {
            assert(counter.next_request_id < m0.counters[payer].next_request_id);
        }
        crate::ledger::lemma_requests_map_push(ledger.requests@, request);
    }
    ledger.requests.push(request);

    let new_counter = UserCounter {
        user: counter.user,
        next_request_id: counter.next_request_id + 1,
        bump: counter.bump,
    };
    match idx {
        Some(i) => {
            proof {
                crate::ledger::lemma_counters_map_update(ledger.counters@, i as int, new_counter);
            }
            ledger.counters[i] = new_counter;
        },
        None => {
            proof {
                crate::ledger::lemma_counters_map_push(ledger.counters@, new_counter);
            }
            ledger.counters.push(new_counter);
        },
    }
    proof {
        let target = spec_request_oracle(
            m0,
            payer,
            prompt_hash@,
            accounts.treasury,
            accounts.counter_bump,
            accounts.request_bump,
        ).0;
        assert(ledger@ =~~= target);
    }
    Ok(())
}

/// Attaches a result to the request located by (owner, sequence) and marks
/// it fulfilled, exactly once. Fails — changing nothing — if and only if
/// there is no such request or configuration, the caller is not the
/// authority, the request is already fulfilled, the URI exceeds 200
/// characters, or the asset reference is null.
pub fn fulfill_oracle(
    ledger: &mut Ledger,
    accounts: FulfillOracle,
    result_uri: String,
    asset_id: Identity,
    collection_mint: Identity,
) -> (r: Result<(), LedgerError>)
    ensures
        (final(ledger)@, r) == spec_fulfill_oracle(
            old(ledger)@,
            accounts.authority,
            accounts.request_owner,
            accounts.request_id,
            result_uri@,
            asset_id,
            collection_mint,
        ),
        old(ledger)@.inv() ==> final(ledger)@.inv(),
    {
    let ghost m0 = ledger@;
    proof {
        if m0.inv() {
            lemma_fulfill_oracle_inv(
                m0,
                accounts.authority,
                accounts.request_owner,
                accounts.request_id,
                result_uri@,
                asset_id,
                collection_mint,
            );
        }
    }
    let cfg = match ledger.get_state() {
        None => {
            return Err(LedgerError::NotInitialized);
        },
        Some(c) => c,
    };
    let idx = match ledger.lookup_request(accounts.request_owner, accounts.request_id) {
        None => {
            return Err(LedgerError::RequestNotFound);
        },
        Some(i) => i,
    };
    if accounts.authority != cfg.authority {
        return Err(LedgerError::Oracle(CyberOracleError::Unauthorized));
    }
    if ledger.requests[idx].fulfilled {
        return Err(LedgerError::Oracle(CyberOracleError::AlreadyFulfilled));
    }
    if result_uri.as_str().unicode_len() > OracleRequest::MAX_RESULT_URI {
        return Err(LedgerError::Oracle(CyberOracleError::ResultUriTooLong));
    }
    if asset_id == Identity::null() {
        return Err(LedgerError::Oracle(CyberOracleError::InvalidAssetId));
    }
    let updated = OracleRequest {
        user: ledger.requests[idx].user,
        request_id: ledger.requests[idx].request_id,
        prompt_hash: ledger.requests[idx].prompt_hash,
        result_uri,
        asset_id,
        collection_mint,
        fulfilled: true,
        bump: ledger.requests[idx].bump,
    };
    proof {
        crate::ledger::lemma_requests_map_update(ledger.requests@, idx as int, updated);
    }
    ledger.requests[idx] = updated;
    Ok(())
}

} // verus!
