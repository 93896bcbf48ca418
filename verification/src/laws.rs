//! What holds of the contract as a whole: of every state, of every
//! operation, and of every sequence of operations.
//!
//! Everything here is stated over the model of `crate::model`, which is what
//! the executable operations of `OutcomeManager` promise, and proved.

use crate::error::ContractError;
use crate::message::canonical_message;
use crate::model::{
    accepted, add_oracle_step, initial_state, initialize_step, rejected, remove_oracle_step,
    settle_step, submission_check, submit_outcome_step, withdrawal_check, State, Step,
};
use crate::signature::ed25519_accepts;
use vstd::prelude::*;

verus! {

/// One invocation of the contract, with the principal that signed it where
/// the operation asks for one.
pub enum Call {
    Initialize { signer: Seq<u8>, admin: Seq<u8>, oracle: Seq<u8> },
    AddOracle { signer: Seq<u8>, oracle: Seq<u8> },
    RemoveOracle { signer: Seq<u8>, oracle: Seq<u8> },
    SubmitOutcome {
        call_id: u64,
        outcome: u32,
        final_price: i128,
        timestamp: u64,
        oracle: Seq<u8>,
        signature: Seq<u8>,
    },
    WithdrawPayout { signer: Seq<u8>, caller: Seq<u8>, call_id: u64 },
}

/// How `call` ends when it is made in `state`.
pub open spec fn step(state: State, call: Call) -> Step {
    match call {
        Call::Initialize { signer, admin, oracle } => initialize_step(state, signer, admin, oracle),
        Call::AddOracle { signer, oracle } => add_oracle_step(state, signer, oracle),
        Call::RemoveOracle { signer, oracle } => remove_oracle_step(state, signer, oracle),
        Call::SubmitOutcome { call_id, outcome, final_price, timestamp, oracle, signature } =>
            submit_outcome_step(state, call_id, outcome, final_price, timestamp, oracle, signature),
        Call::WithdrawPayout { signer, caller, call_id } => Step {
            state,
            result: withdrawal_check(state, signer, caller, call_id),
        },
    }
}

/// The state after `calls` have been made one after the other, from `state`.
/// Invocations are serialized: each sees what the one before it left.
pub open spec fn run(state: State, calls: Seq<Call>) -> State
    decreases calls.len(),
{
    if calls.len() == 0 {
        state
    } else {
        step(run(state, calls.drop_last()), calls.last()).state
    }
}

/// The result of the invocation at position `at` of `calls`, made from `state`.
pub open spec fn result_at(state: State, calls: Seq<Call>, at: int) -> Result<(), ContractError> {
    step(run(state, calls.take(at)), calls[at]).result
}

/// Whether `call` is a submission for `call_id`.
pub open spec fn submits(call: Call, call_id: u64) -> bool {
    call matches Call::SubmitOutcome { call_id: id, .. } && id == call_id
}

/// Whether the registry of `state` is seeded or untouched: without an
/// administrator no key is authorized.
pub open spec fn no_oracle_without_administrator(state: State) -> bool {
    state.admin is None ==> state.oracles == Set::<Seq<u8>>::empty()
}

/// The administrator and the oracle registry are written together: no
/// invocation authorizes a key while there is no administrator, and none
/// takes the administrator away.
pub proof fn lemma_registry_is_seeded_with_administrator(state: State, call: Call)
    requires
        no_oracle_without_administrator(state),
    ensures
        no_oracle_without_administrator(step(state, call).state),
        state.admin is Some ==> step(state, call).state.admin is Some,
{
}

/// In every state that a contract instance can reach, no key is authorized
/// while there is no administrator.
pub proof fn lemma_reachable_registry_has_administrator(calls: Seq<Call>)
    ensures
        no_oracle_without_administrator(run(initial_state(), calls)),
    decreases calls.len(),
{
    if calls.len() > 0 {
        lemma_reachable_registry_has_administrator(calls.drop_last());
        lemma_registry_is_seeded_with_administrator(
            run(initial_state(), calls.drop_last()),
            calls.last(),
        );
    }
}

/// A rejected invocation has no effect: the state is what it was.
pub proof fn lemma_rejection_changes_nothing(state: State, call: Call)
    requires
        step(state, call).result is Err,
    ensures
        step(state, call).state == state,
{
}

/// Only the administrator changes the registry: `add_oracle` and
/// `remove_oracle` signed by any other principal fail with `Unauthorized`
/// and change nothing. Before initialization there is no administrator, and
/// every signer is refused.
pub proof fn lemma_registry_needs_administrator(state: State, signer: Seq<u8>, oracle: Seq<u8>)
    requires
        state.admin != Some(signer),
    ensures
        add_oracle_step(state, signer, oracle) == rejected(state, ContractError::Unauthorized),
        remove_oracle_step(state, signer, oracle) == rejected(state, ContractError::Unauthorized),
{
}

/// No operation but `initialize` and the two registry operations signed by
/// the administrator changes the oracle set or the administrator.
pub proof fn lemma_registry_changes_only_by_administration(state: State, call: Call)
    requires
        call is SubmitOutcome || call is WithdrawPayout,
    ensures
        step(state, call).state.admin == state.admin,
        step(state, call).state.oracles == state.oracles,
{
}

/// The registry operations are idempotent: the administrator adding a key
/// that is authorized already, or removing one that is not, succeeds and
/// leaves the state unchanged.
pub proof fn lemma_registry_idempotent(state: State, signer: Seq<u8>, oracle: Seq<u8>)
    requires
        state.admin == Some(signer),
    ensures
        state.oracles.contains(oracle) ==> add_oracle_step(state, signer, oracle) == accepted(
            state,
        ),
        !state.oracles.contains(oracle) ==> remove_oracle_step(state, signer, oracle) == accepted(
            state,
        ),
{
    if state.oracles.contains(oracle) {
        assert(state.oracles.insert(oracle) =~= state.oracles);
        assert(add_oracle_step(state, signer, oracle).state =~= state);
    } else {
        assert(state.oracles.remove(oracle) =~= state.oracles);
        assert(remove_oracle_step(state, signer, oracle).state =~= state);
    }
}

/// Adding a key twice is adding it once, and removing a key twice is
/// removing it once.
pub proof fn lemma_registry_repeat(state: State, signer: Seq<u8>, oracle: Seq<u8>)
    requires
        state.admin == Some(signer),
    ensures
        add_oracle_step(add_oracle_step(state, signer, oracle).state, signer, oracle)
            == add_oracle_step(state, signer, oracle),
        remove_oracle_step(remove_oracle_step(state, signer, oracle).state, signer, oracle)
            == remove_oracle_step(state, signer, oracle),
{
    lemma_registry_idempotent(add_oracle_step(state, signer, oracle).state, signer, oracle);
    lemma_registry_idempotent(remove_oracle_step(state, signer, oracle).state, signer, oracle);
}

/// A submission succeeds exactly when its key is authorized, its call is not
/// settled, and its signature is valid; it then settles its call and
/// nothing else.
pub proof fn lemma_settlement_conditions(
    state: State,
    call_id: u64,
    oracle: Seq<u8>,
    signature_valid: bool,
)
    ensures
        settle_step(state, call_id, oracle, signature_valid).result is Ok <==> (
        state.oracles.contains(oracle) && !state.settled.contains(call_id) && signature_valid),
        settle_step(state, call_id, oracle, signature_valid).result is Ok ==> settle_step(
            state,
            call_id,
            oracle,
            signature_valid,
        ).state == (State {
            admin: state.admin,
            oracles: state.oracles,
            settled: state.settled.insert(call_id),
        }),
{
}

/// Settlement is write-once: no invocation removes a settlement.
pub proof fn lemma_settlement_is_kept(state: State, call: Call, call_id: u64)
    requires
        state.settled.contains(call_id),
    ensures
        step(state, call).state.settled.contains(call_id),
{
}

/// Settlement is write-once: a call that is settled stays settled, whatever
/// invocations follow.
pub proof fn lemma_settlement_persists(state: State, calls: Seq<Call>, call_id: u64)
    requires
        state.settled.contains(call_id),
    ensures
        run(state, calls).settled.contains(call_id),
    decreases calls.len(),
{
    if calls.len() > 0 {
        lemma_settlement_persists(state, calls.drop_last(), call_id);
        lemma_settlement_is_kept(run(state, calls.drop_last()), calls.last(), call_id);
    }
}

/// A submission for a settled call never succeeds and changes nothing,
/// whatever its other arguments. It fails with `AlreadySettled` when its key
/// is authorized; a key that is not authorized is refused first, with
/// `UnauthorizedOracle`.
pub proof fn lemma_settled_call_is_refused(
    state: State,
    call_id: u64,
    outcome: u32,
    final_price: i128,
    timestamp: u64,
    oracle: Seq<u8>,
    signature: Seq<u8>,
)
    requires
        state.settled.contains(call_id),
    ensures
        submit_outcome_step(
            state,
            call_id,
            outcome,
            final_price,
            timestamp,
            oracle,
            signature,
        ).state == state,
        state.oracles.contains(oracle) ==> submit_outcome_step(
            state,
            call_id,
            outcome,
            final_price,
            timestamp,
            oracle,
            signature,
        ).result == Err::<(), ContractError>(ContractError::AlreadySettled),
        !state.oracles.contains(oracle) ==> submit_outcome_step(
            state,
            call_id,
            outcome,
            final_price,
            timestamp,
            oracle,
            signature,
        ).result == Err::<(), ContractError>(ContractError::UnauthorizedOracle),
{
}

/// A call is settled from the invocation that settled it to any later point
/// of the same sequence.
proof fn lemma_settled_from(state: State, calls: Seq<Call>, from: int, to: int, call_id: u64)
    requires
        0 <= from <= to <= calls.len(),
        run(state, calls.take(from)).settled.contains(call_id),
    ensures
        run(state, calls.take(to)).settled.contains(call_id),
    decreases to - from,
{
    if from < to {
        lemma_settled_from(state, calls, from, to - 1, call_id);
        assert(calls.take(to).drop_last() =~= calls.take(to - 1));
        assert(calls.take(to).last() == calls[to - 1]);
        lemma_settlement_is_kept(run(state, calls.take(to - 1)), calls[to - 1], call_id);
    }
}

/// For every call identifier at most one submission ever succeeds: in any
/// sequence of invocations, from any state, if a submission for `call_id`
/// succeeds then every later submission for `call_id` fails.
pub proof fn lemma_at_most_one_settlement(
    state: State,
    calls: Seq<Call>,
    first: int,
    second: int,
    call_id: u64,
)
    requires
        0 <= first < second < calls.len(),
        submits(calls[first], call_id),
        submits(calls[second], call_id),
        result_at(state, calls, first) is Ok,
    ensures
        result_at(state, calls, second) is Err,
{
    let before = run(state, calls.take(first));
    assert(calls.take(first + 1).drop_last() =~= calls.take(first));
    assert(calls.take(first + 1).last() == calls[first]);
    assert(run(state, calls.take(first + 1)) == step(before, calls[first]).state);
    assert(run(state, calls.take(first + 1)).settled.contains(call_id));
    lemma_settled_from(state, calls, first + 1, second, call_id);
}

/// A submission under an authorized key for a call that is not settled,
/// whose signature the Ed25519 primitive rejects for the canonical message
/// of the claim, fails with `InvalidSignature` and leaves no settlement.
pub proof fn lemma_rejected_signature_settles_nothing(
    state: State,
    call_id: u64,
    outcome: u32,
    final_price: i128,
    timestamp: u64,
    oracle: Seq<u8>,
    signature: Seq<u8>,
)
    requires
        state.oracles.contains(oracle),
        !state.settled.contains(call_id),
        !ed25519_accepts(
            oracle,
            canonical_message(call_id, outcome, final_price, timestamp),
            signature,
        ),
    ensures
        submit_outcome_step(state, call_id, outcome, final_price, timestamp, oracle, signature)
            == rejected(state, ContractError::InvalidSignature),
        !submit_outcome_step(
            state,
            call_id,
            outcome,
            final_price,
            timestamp,
            oracle,
            signature,
        ).state.settled.contains(call_id),
{
}

/// The signature is looked at last: what `submission_check` refuses is
/// refused whether the signature is valid or not.
pub proof fn lemma_checks_come_before_signature(
    state: State,
    call_id: u64,
    oracle: Seq<u8>,
    signature_valid: bool,
)
    requires
        submission_check(state, call_id, oracle) is Err,
    ensures
        settle_step(state, call_id, oracle, signature_valid) == (Step {
            state,
            result: submission_check(state, call_id, oracle),
        }),
{
}

/// The payout condition follows settlement: for a caller that signed the
/// invocation, `withdraw_payout` fails with `NotSettled` for a call that is
/// not settled and succeeds for one that is.
pub proof fn lemma_withdrawal_follows_settlement(state: State, caller: Seq<u8>, call_id: u64)
    ensures
        !state.settled.contains(call_id) ==> withdrawal_check(state, caller, caller, call_id)
            == Err::<(), ContractError>(ContractError::NotSettled),
        state.settled.contains(call_id) ==> withdrawal_check(state, caller, caller, call_id) == Ok::<
            (),
            ContractError,
        >(()),
{
}

/// Once a submission has succeeded, the payout condition for its call is
/// met after any further invocations.
pub proof fn lemma_withdrawal_after_settlement(
    state: State,
    call_id: u64,
    oracle: Seq<u8>,
    later: Seq<Call>,
    caller: Seq<u8>,
)
    requires
        settle_step(state, call_id, oracle, true).result is Ok,
    ensures
        withdrawal_check(
            run(settle_step(state, call_id, oracle, true).state, later),
            caller,
            caller,
            call_id,
        ) is Ok,
{
    lemma_settlement_persists(settle_step(state, call_id, oracle, true).state, later, call_id);
}

/// Removing an oracle does not undo what it attested to: the settlements
/// are the same after `remove_oracle` as before.
pub proof fn lemma_removal_keeps_settlements(state: State, signer: Seq<u8>, oracle: Seq<u8>)
    ensures
        remove_oracle_step(state, signer, oracle).state.settled == state.settled,
{
}

} // verus!
