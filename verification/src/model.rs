//! The mathematical model of the contract: its durable state and what each
//! operation makes of it.
//!
//! An operation either succeeds and moves the state on, or is rejected with
//! an error and leaves the state exactly as it was. The executable
//! operations promise the steps defined here.

use crate::error::ContractError;
use crate::message::canonical_message;
use crate::signature::ed25519_accepts;
use vstd::prelude::*;

verus! {

/// The durable state of one contract instance.
#[verifier::ext_equal]
pub struct State {
    /// The administrator, once the contract is initialized.
    pub admin: Option<Seq<u8>>,
    /// The oracle keys that may sign settlement claims.
    pub oracles: Set<Seq<u8>>,
    /// The call identifiers that have been settled.
    pub settled: Set<u64>,
}

/// How an operation ends: the state it leaves and the result it returns.
#[verifier::ext_equal]
pub struct Step {
    pub state: State,
    pub result: Result<(), ContractError>,
}

/// The state of a contract instance that has never been used.
pub open spec fn initial_state() -> State {
    State { admin: None, oracles: Set::empty(), settled: Set::empty() }
}

/// The step of an operation that fails with `error`: the state stays.
pub open spec fn rejected(state: State, error: ContractError) -> Step {
    Step { state, result: Err(error) }
}

/// The step of an operation that succeeds and leaves `state`.
pub open spec fn accepted(state: State) -> Step {
    Step { state, result: Ok(()) }
}

/// `initialize(admin, oracle)` signed by `signer`: the signer must be the
/// administrator it names. On success the administrator is `admin` and the
/// oracle set holds `oracle` alone, whatever they were before; settlements stay.
pub open spec fn initialize_step(
    state: State,
    signer: Seq<u8>,
    admin: Seq<u8>,
    oracle: Seq<u8>,
) -> Step {
    if signer != admin {
        rejected(state, ContractError::Unauthorized)
    } else {
        accepted(
            State { admin: Some(admin), oracles: Set::empty().insert(oracle), settled: state.settled },
        )
    }
}

/// `add_oracle(oracle)` signed by `signer`: the signer must be the stored
/// administrator. On success `oracle` is authorized.
pub open spec fn add_oracle_step(state: State, signer: Seq<u8>, oracle: Seq<u8>) -> Step {
    if state.admin != Some(signer) {
        rejected(state, ContractError::Unauthorized)
    } else {
        accepted(
            State {
                admin: state.admin,
                oracles: state.oracles.insert(oracle),
                settled: state.settled,
            },
        )
    }
}

/// `remove_oracle(oracle)` signed by `signer`: the signer must be the stored
/// administrator. On success `oracle` is not authorized. Settlements made
/// under the key stay.
pub open spec fn remove_oracle_step(state: State, signer: Seq<u8>, oracle: Seq<u8>) -> Step {
    if state.admin != Some(signer) {
        rejected(state, ContractError::Unauthorized)
    } else {
        accepted(
            State {
                admin: state.admin,
                oracles: state.oracles.remove(oracle),
                settled: state.settled,
            },
        )
    }
}

/// What is decided about a submission before its signature is looked at:
/// the key must be authorized, and the call must not be settled yet.
pub open spec fn submission_check(state: State, call_id: u64, oracle: Seq<u8>) -> Result<
    (),
    ContractError,
> {
    if !state.oracles.contains(oracle) {
        Err(ContractError::UnauthorizedOracle)
    } else if state.settled.contains(call_id) {
        Err(ContractError::AlreadySettled)
    } else {
        Ok(())
    }
}

/// A submission for `call_id` under `oracle` whose signature was found
/// valid or not: rejected as `submission_check` says, else rejected for
/// an invalid signature, else the call is settled.
pub open spec fn settle_step(
    state: State,
    call_id: u64,
    oracle: Seq<u8>,
    signature_valid: bool,
) -> Step {
    match submission_check(state, call_id, oracle) {
        Err(error) => rejected(state, error),
        Ok(_) => if !signature_valid {
            rejected(state, ContractError::InvalidSignature)
        } else {
            accepted(
                State {
                    admin: state.admin,
                    oracles: state.oracles,
                    settled: state.settled.insert(call_id),
                },
            )
        },
    }
}

/// `submit_outcome`: the step of `settle_step` for the verdict of the
/// Ed25519 primitive on the canonical message of the claim.
pub open spec fn submit_outcome_step(
    state: State,
    call_id: u64,
    outcome: u32,
    final_price: i128,
    timestamp: u64,
    oracle: Seq<u8>,
    signature: Seq<u8>,
) -> Step {
    settle_step(
        state,
        call_id,
        oracle,
        ed25519_accepts(
            oracle,
            canonical_message(call_id, outcome, final_price, timestamp),
            signature,
        ),
    )
}

/// `withdraw_payout(caller, call_id)` signed by `signer`: the signer must
/// be `caller`, and the call must be settled. Nothing is changed.
pub open spec fn withdrawal_check(
    state: State,
    signer: Seq<u8>,
    caller: Seq<u8>,
    call_id: u64,
) -> Result<(), ContractError> {
    if signer != caller {
        Err(ContractError::Unauthorized)
    } else if !state.settled.contains(call_id) {
        Err(ContractError::NotSettled)
    } else {
        Ok(())
    }
}

} // verus!
