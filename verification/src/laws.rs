//! Laws of the batch-transfer protocol, stated against the specification
//! interpreter `spec_execute`. Atomicity on failure and conservation of every
//! token's summed balance on success are part of `execute_post` itself; the
//! laws here pin down the remaining guarantees.

use vstd::prelude::*;

use crate::{Psp37Error, UNLIMITED_ALLOWANCE, ZERO_ACCOUNT};
use crate::allowances::{spec_consulted_key, spec_decrease_allowance, spec_effective_allowance, AllowanceKey};
use crate::engine::{debit_legs, spec_execute, validation_error};
use crate::hooks::HookDispatcher;
use crate::store::amount_of;

verus! {

/// Zero-address guard: a nonempty batch aimed at the zero account fails with
/// `TransferToZeroAddress` and changes nothing, whatever the ledgers, hooks
/// and payload hold.
pub proof fn lemma_zero_address_guard(
    bal: Map<(u128, u128), u128>,
    alw: Map<AllowanceKey, u128>,
    hooks: HookDispatcher,
    operator: u128,
    from: u128,
    legs: Seq<(u128, u128)>,
    data: Seq<u8>,
)
    requires
        legs.len() > 0,
    ensures
        ({
            let out = spec_execute(bal, alw, hooks, operator, from, ZERO_ACCOUNT, legs, data);
            &&& out.result == Err::<(), Psp37Error>(Psp37Error::TransferToZeroAddress)
            &&& out.balances == bal
            &&& out.allowances == alw
        }),
{
}

/// Allowance exactness: an operator distinct from the owner, holding an
/// allowance exactly equal to the single leg's amount, succeeds and leaves
/// the consulted record at exactly zero. The unlimited sentinel is excluded:
/// an approval holding it is never decremented.
pub proof fn lemma_allowance_exactness(
    bal: Map<(u128, u128), u128>,
    alw: Map<AllowanceKey, u128>,
    hooks: HookDispatcher,
    operator: u128,
    from: u128,
    to: u128,
    id: u128,
    amount: u128,
    data: Seq<u8>,
)
    requires
        from != operator,
        to != ZERO_ACCOUNT,
        amount < UNLIMITED_ALLOWANCE,
        spec_effective_allowance(alw, from, operator, id) == amount,
        amount_of(bal, (from, id)) >= amount,
        hooks.before_accepts(),
        hooks.after_accepts(),
        hooks.recipient_accepts(to),
    ensures
        ({
            let out = spec_execute(bal, alw, hooks, operator, from, to, seq![(id, amount)], data);
            &&& out.result == Ok::<(), Psp37Error>(())
            &&& amount_of(out.allowances, spec_consulted_key(alw, from, operator, id)) == 0
        }),
{
    let legs = seq![(id, amount)];
    assert(legs.len() == 1);
    assert(legs[0] == (id, amount));
    assert(legs.skip(1) =~= Seq::<(u128, u128)>::empty());
    assert(validation_error(alw, operator, from, to, legs.skip(1)) is None);
    assert(validation_error(alw, operator, from, to, legs) is None);
    let k = spec_consulted_key(alw, from, operator, id);
    let cur = amount_of(alw, k);
    assert(cur == amount);
    let alw2 = alw.insert(k, (cur - amount) as u128);
    assert(spec_decrease_allowance(alw, from, operator, id, amount) == Ok::<
        Map<AllowanceKey, u128>,
        Psp37Error,
    >(alw2));
    let b = amount_of(bal, (from, id));
    let bal2 = bal.insert((from, id), (b - amount) as u128);
    assert(debit_legs(bal2, alw2, operator, from, legs.skip(1)) == Ok::<
        (Map<(u128, u128), u128>, Map<AllowanceKey, u128>),
        Psp37Error,
    >((bal2, alw2)));
    assert(debit_legs(bal, alw, operator, from, legs) == Ok::<
        (Map<(u128, u128), u128>, Map<AllowanceKey, u128>),
        Psp37Error,
    >((bal2, alw2)));
    assert(amount_of(alw2, k) == 0);
}

/// Allowance shortfall, seen by the read-only validation pass: an operator
/// distinct from the owner whose allowance is one unit short of a single
/// leg's amount has the whole batch fail with `NotAllowed`, whatever the
/// balances hold.
pub proof fn lemma_validation_shortfall(
    bal: Map<(u128, u128), u128>,
    alw: Map<AllowanceKey, u128>,
    hooks: HookDispatcher,
    operator: u128,
    from: u128,
    to: u128,
    id: u128,
    amount: u128,
    data: Seq<u8>,
)
    requires
        from != operator,
        to != ZERO_ACCOUNT,
        amount >= 1,
        spec_effective_allowance(alw, from, operator, id) == amount - 1,
    ensures
        ({
            let out = spec_execute(bal, alw, hooks, operator, from, to, seq![(id, amount)], data);
            &&& out.result == Err::<(), Psp37Error>(Psp37Error::NotAllowed)
            &&& out.balances == bal
            &&& out.allowances == alw
        }),
{
}

/// Allowance shortfall, seen by the debit pass: duplicate token ids are
/// independent legs, so an allowance one unit short of their combined amount
/// passes the per-leg validation yet fails the running debit with
/// `InsufficientAllowance` — and, by atomicity, even the leg debited before
/// the failing one leaves no trace.
pub proof fn lemma_allowance_shortfall(
    bal: Map<(u128, u128), u128>,
    alw: Map<AllowanceKey, u128>,
    hooks: HookDispatcher,
    operator: u128,
    from: u128,
    to: u128,
    id: u128,
    first: u128,
    second: u128,
    data: Seq<u8>,
)
    requires
        from != operator,
        to != ZERO_ACCOUNT,
        first >= 1,
        second >= 1,
        first + second <= u128::MAX,
        spec_effective_allowance(alw, from, operator, id) == first + second - 1,
        amount_of(bal, (from, id)) >= first,
        hooks.before_accepts(),
    ensures
        ({
            let out = spec_execute(bal, alw, hooks, operator, from, to, seq![(id, first), (id, second)], data);
            &&& out.result == Err::<(), Psp37Error>(Psp37Error::InsufficientAllowance)
            &&& out.balances == bal
            &&& out.allowances == alw
        }),
{
    let legs = seq![(id, first), (id, second)];
    let tail = legs.skip(1);
    assert(legs.len() == 2);
    assert(legs[0] == (id, first));
    assert(legs[1] == (id, second));
    assert(tail =~= seq![(id, second)]);
    assert(tail[0] == (id, second));
    assert(tail.skip(1) =~= Seq::<(u128, u128)>::empty());

    // Validation reads the initial allowance for each leg; both legs pass.
    assert(validation_error(alw, operator, from, to, tail.skip(1)) is None);
    assert(validation_error(alw, operator, from, to, tail) is None);
    assert(validation_error(alw, operator, from, to, legs) is None);

    // The first debit succeeds and leaves one unit less than the second needs.
    let k = spec_consulted_key(alw, from, operator, id);
    let cur = amount_of(alw, k);
    let alw2 = alw.insert(k, (cur - first) as u128);
    assert(spec_decrease_allowance(alw, from, operator, id, first) == Ok::<
        Map<AllowanceKey, u128>,
        Psp37Error,
    >(alw2));
    let b = amount_of(bal, (from, id));
    let bal2 = bal.insert((from, id), (b - first) as u128);

    // Debiting never moves a record between blanket and id-specific scope, so
    // the second leg consults the same record the first one drained.
    let blanket = AllowanceKey { owner: from, operator, token: None };
    assert(alw2.dom().contains(blanket) == alw.dom().contains(blanket));
    assert(spec_consulted_key(alw2, from, operator, id) == k);
    assert(amount_of(alw2, k) == (second - 1) as u128);
    assert(spec_decrease_allowance(alw2, from, operator, id, second) == Err::<
        Map<AllowanceKey, u128>,
        Psp37Error,
    >(Psp37Error::InsufficientAllowance));
    assert(debit_legs(bal2, alw2, operator, from, tail) == Err::<
        (Map<(u128, u128), u128>, Map<AllowanceKey, u128>),
        Psp37Error,
    >(Psp37Error::InsufficientAllowance));
    assert(debit_legs(bal, alw, operator, from, legs) == Err::<
        (Map<(u128, u128), u128>, Map<AllowanceKey, u128>),
        Psp37Error,
    >(Psp37Error::InsufficientAllowance));
}

/// Validation never reads the allowances when the owner acts for itself.
proof fn lemma_validation_ignores_allowances(
    alw1: Map<AllowanceKey, u128>,
    alw2: Map<AllowanceKey, u128>,
    caller: u128,
    to: u128,
    legs: Seq<(u128, u128)>,
)
    ensures
        validation_error(alw1, caller, caller, to, legs) == validation_error(
            alw2,
            caller,
            caller,
            to,
            legs,
        ),
    decreases legs.len(),
{
    if legs.len() > 0 && to != ZERO_ACCOUNT {
        lemma_validation_ignores_allowances(alw1, alw2, caller, to, legs.skip(1));
    }
}

/// The debit pass never reads nor writes the allowances when the owner acts
/// for itself.
proof fn lemma_debit_ignores_allowances(
    bal: Map<(u128, u128), u128>,
    alw1: Map<AllowanceKey, u128>,
    alw2: Map<AllowanceKey, u128>,
    caller: u128,
    legs: Seq<(u128, u128)>,
)
    ensures
        ({
            match debit_legs(bal, alw1, caller, caller, legs) {
                Ok((b1, a1)) => a1 == alw1 && debit_legs(bal, alw2, caller, caller, legs) == Ok::<
                    (Map<(u128, u128), u128>, Map<AllowanceKey, u128>),
                    Psp37Error,
                >((b1, alw2)),
                Err(e) => debit_legs(bal, alw2, caller, caller, legs) == Err::<
                    (Map<(u128, u128), u128>, Map<AllowanceKey, u128>),
                    Psp37Error,
                >(e),
            }
        }),
    decreases legs.len(),
{
    if legs.len() > 0 {
        let id = legs[0].0;
        let amount = legs[0].1;
        let b = amount_of(bal, (caller, id));
        if b >= amount {
            lemma_debit_ignores_allowances(
                bal.insert((caller, id), (b - amount) as u128),
                alw1,
                alw2,
                caller,
                legs.skip(1),
            );
        }
    }
}

/// Self-transfer bypass: when the caller moves its own tokens
/// (`from == operator`), no allowance is consulted and none is mutated — the
/// outcome is the same under any allowance state whatsoever, and the
/// allowances come out exactly as they went in.
pub proof fn lemma_self_transfer_bypass(
    bal: Map<(u128, u128), u128>,
    alw1: Map<AllowanceKey, u128>,
    alw2: Map<AllowanceKey, u128>,
    hooks: HookDispatcher,
    caller: u128,
    to: u128,
    legs: Seq<(u128, u128)>,
    data: Seq<u8>,
)
    ensures
        ({
            let first_run = spec_execute(bal, alw1, hooks, caller, caller, to, legs, data);
            let second_run = spec_execute(bal, alw2, hooks, caller, caller, to, legs, data);
            &&& first_run.result == second_run.result
            &&& first_run.balances == second_run.balances
            &&& first_run.allowances == alw1
            &&& second_run.allowances == alw2
        }),
{
    lemma_validation_ignores_allowances(alw1, alw2, caller, to, legs);
    lemma_debit_ignores_allowances(bal, alw1, alw2, caller, legs);
}

} // verus!

