//! `BatchTransferEngine`: the atomic batch-transfer protocol. A batch moves
//! several (token id, amount) legs from `from` to `to` under `operator`'s
//! authority, in seven steps: a read-only validation pass, the before-transfer
//! hook, a per-leg allowance and balance debit pass, the recipient-acceptance
//! check, a per-leg credit pass, the after-transfer hook, and one emitted
//! notification. Every step either completes or aborts the whole call with no
//! mutation left visible: the engine snapshots both ledgers and restores them
//! on any failure.
//!
//! The whole protocol is written down once more as a specification-level
//! interpreter (`spec_execute`); `execute` is proved to return exactly the
//! interpreter's result and to leave the ledgers in exactly the interpreter's
//! post-state.

use vstd::prelude::*;

use crate::{Psp37Error, ZERO_ACCOUNT};
use crate::allowances::{
    spec_decrease_allowance, spec_effective_allowance, AllowanceKey, AllowanceLedger,
};
use crate::balances::BalanceLedger;
use crate::events::{EventEmitter, EventView};
use crate::hooks::HookDispatcher;
use crate::store::amount_of;

verus! {

/// Combined amount the batch moves for token `id`: duplicate ids are
/// independent legs, so their amounts add up.
pub open spec fn legs_amount_for_id(legs: Seq<(u128, u128)>, id: u128) -> int
    decreases legs.len(),
{
    if legs.len() == 0 {
        0
    } else {
        legs_amount_for_id(legs.drop_last(), id) + if legs.last().0 == id {
            legs.last().1 as int
        } else {
            0
        }
    }
}

/// A prefix of the batch never moves more of a token than the whole batch.
pub proof fn lemma_legs_amount_take_le(legs: Seq<(u128, u128)>, j: int, id: u128)
    requires
        0 <= j <= legs.len(),
    ensures
        legs_amount_for_id(legs.take(j), id) <= legs_amount_for_id(legs, id),
    decreases legs.len() - j,
{
    if j == legs.len() {
        assert(legs.take(j) =~= legs);
    } else {
        assert(legs.take(j + 1).drop_last() =~= legs.take(j));
        assert(legs.take(j + 1).last() == legs[j]);
        lemma_legs_amount_take_le(legs, j + 1, id);
    }
}

/// The first error of the read-only validation pass, if any: each leg in
/// order checks the destination against the zero account, then — for an
/// operator other than the owner — the consulted allowance against the leg's
/// amount.
pub open spec fn validation_error(
    alw: Map<AllowanceKey, u128>,
    operator: u128,
    from: u128,
    to: u128,
    legs: Seq<(u128, u128)>,
) -> Option<Psp37Error>
    decreases legs.len(),
{
    if legs.len() == 0 {
        None
    } else if to == ZERO_ACCOUNT {
        Some(Psp37Error::TransferToZeroAddress)
    } else if from != operator && spec_effective_allowance(alw, from, operator, legs[0].0)
        < legs[0].1 {
        Some(Psp37Error::NotAllowed)
    } else {
        validation_error(alw, operator, from, to, legs.skip(1))
    }
}

/// The debit pass, leg by leg: for an operator other than the owner the
/// consulted allowance is debited first, then the owner's balance; either
/// underflow fails the whole pass. An owner acting on its own account
/// (`from == operator`) bypasses allowances entirely.
pub open spec fn debit_legs(
    bal: Map<(u128, u128), u128>,
    alw: Map<AllowanceKey, u128>,
    operator: u128,
    from: u128,
    legs: Seq<(u128, u128)>,
) -> Result<(Map<(u128, u128), u128>, Map<AllowanceKey, u128>), Psp37Error>
    decreases legs.len(),
{
    if legs.len() == 0 {
        Ok((bal, alw))
    } else {
        let id = legs[0].0;
        let amount = legs[0].1;
        let alw_step = if from != operator {
            spec_decrease_allowance(alw, from, operator, id, amount)
        } else {
            Ok(alw)
        };
        match alw_step {
            Err(e) => Err(e),
            Ok(alw2) => {
                let b = amount_of(bal, (from, id));
                if b < amount {
                    Err(Psp37Error::InsufficientBalance)
                } else {
                    debit_legs(
                        bal.insert((from, id), (b - amount) as u128),
                        alw2,
                        operator,
                        from,
                        legs.skip(1),
                    )
                }
            },
        }
    }
}

/// The credit pass, leg by leg: each leg's amount is added to the
/// recipient's balance for that token id.
pub open spec fn credit_legs(
    bal: Map<(u128, u128), u128>,
    to: u128,
    legs: Seq<(u128, u128)>,
) -> Map<(u128, u128), u128>
    decreases legs.len(),
{
    if legs.len() == 0 {
        bal
    } else {
        let id = legs[0].0;
        let amount = legs[0].1;
        let b = amount_of(bal, (to, id));
        credit_legs(bal.insert((to, id), (b + amount) as u128), to, legs.skip(1))
    }
}

/// What one batch leaves behind: the call's result and the two ledger maps,
/// which on failure are the input maps unchanged.
pub struct BatchOutcome {
    pub result: Result<(), Psp37Error>,
    pub balances: Map<(u128, u128), u128>,
    pub allowances: Map<AllowanceKey, u128>,
}

/// The batch-transfer protocol as a mathematical function: validation pass,
/// before-transfer hook, debit pass, recipient-acceptance check, credit pass,
/// after-transfer hook. Any failure yields the input state untouched.
pub open spec fn spec_execute(
    bal: Map<(u128, u128), u128>,
    alw: Map<AllowanceKey, u128>,
    hooks: HookDispatcher,
    operator: u128,
    from: u128,
    to: u128,
    legs: Seq<(u128, u128)>,
    data: Seq<u8>,
) -> BatchOutcome {
    let fail = |e: Psp37Error| BatchOutcome { result: Err(e), balances: bal, allowances: alw };
    match validation_error(alw, operator, from, to, legs) {
        Some(e) => (fail(e)),
        None => if !hooks.before_accepts() {
            (fail(Psp37Error::HookRejected))
        } else {
            match debit_legs(bal, alw, operator, from, legs) {
                Err(e) => (fail(e)),
                Ok((bal_debited, alw_debited)) => if !hooks.recipient_accepts(to) {
                    (fail(Psp37Error::RecipientRejected))
                } else if !hooks.after_accepts() {
                    (fail(Psp37Error::HookRejected))
                } else {
                    BatchOutcome {
                        result: Ok(()),
                        balances: credit_legs(bal_debited, to, legs),
                        allowances: alw_debited,
                    }
                },
            }
        },
    }
}

/// The batch-transfer engine: both ledgers, the hook dispatcher and the
/// notification log, owned as one composable unit so independent engines can
/// run against independent ledgers.
pub struct BatchTransferEngine {
    pub balances: BalanceLedger,
    pub allowances: AllowanceLedger,
    pub hooks: HookDispatcher,
    pub events: EventEmitter,
}

/// What a batch call demands of the caller: well-formed ledgers, and room in
/// the fixed-width balances for the credit pass (a machine limit — with
/// arbitrary-precision amounts there would be nothing to ask).
pub open spec fn execute_pre(pre: BatchTransferEngine, to: u128, legs: Seq<(u128, u128)>) -> bool {
    &&& pre.wf()
    &&& forall|i: int|
        0 <= i < legs.len() ==> amount_of(pre.balances.bal_map(), (to, (#[trigger] legs[i]).0))
            + legs_amount_for_id(legs, legs[i].0) <= u128::MAX
}

/// What a batch call guarantees: the result and both ledger maps are exactly
/// what `spec_execute` says; supplies and hooks are untouched; a successful
/// batch appends exactly one notification and conserves every token's summed
/// balance; a failed batch leaves every balance, allowance and event record
/// identical to its value before the call.
pub open spec fn execute_post(
    pre: BatchTransferEngine,
    post: BatchTransferEngine,
    r: Result<(), Psp37Error>,
    operator: u128,
    from: u128,
    to: u128,
    legs: Seq<(u128, u128)>,
    data: Seq<u8>,
) -> bool {
    let out = spec_execute(
        pre.balances.bal_map(),
        pre.allowances.amap(),
        pre.hooks,
        operator,
        from,
        to,
        legs,
        data,
    );
    &&& post.wf()
    &&& r == out.result
    &&& post.balances.bal_map() == out.balances
    &&& post.allowances.amap() == out.allowances
    &&& post.balances.supply_entries() == pre.balances.supply_entries()
    &&& post.hooks == pre.hooks
    &&& (r is Ok ==> post.events.log_view() == pre.events.log_view().push(
        EventView { operator, from, to, legs },
    ))
    &&& (r is Ok ==> forall|id: u128| #[trigger]
        post.balances.id_sum(id) == pre.balances.id_sum(id))
    &&& (r is Err ==> {
        &&& post.balances.balance_entries() == pre.balances.balance_entries()
        &&& post.allowances.allowance_entries() == pre.allowances.allowance_entries()
        &&& post.events == pre.events
    })
}

impl BatchTransferEngine {
    /// Both ledgers are well-formed.
    pub open spec fn wf(&self) -> bool {
        self.balances.wf() && self.allowances.wf()
    }

    /// A fresh engine: empty ledgers, default hooks, empty log.
    pub fn new() -> (r: BatchTransferEngine)
        ensures
            r.wf(),
            forall|a: u128, id: u128| #[trigger] r.balances.balance_of(a, id) == 0,
            forall|id: u128| #[trigger] r.balances.total_supply(id) == 0,
            forall|k: AllowanceKey| #[trigger] r.allowances.allowance_of(k) == 0,
            r.hooks.before_accepts(),
            r.hooks.after_accepts(),
            forall|to: u128| #[trigger] r.hooks.recipient_accepts(to),
            r.events.log_view().len() == 0,
    {
        BatchTransferEngine {
            balances: BalanceLedger::new(),
            allowances: AllowanceLedger::new(),
            hooks: HookDispatcher::new(),
            events: EventEmitter::new(),
        }
    }

    /// Runs protocol steps one to six directly against the ledgers. On
    /// failure the ledgers may hold partial debits; `execute` restores its
    /// snapshot, so only the resulting error is promised here.
    #[verifier::loop_isolation(false)]
    #[verifier::rlimit(100)]
    fn apply_batch(
        &mut self,
        operator: u128,
        from: u128,
        to: u128,
        legs: &Vec<(u128, u128)>,
        data: &Vec<u8>,
    ) -> (r: Result<(), Psp37Error>)
        requires
            execute_pre(*old(self), to, legs@),
        ensures
            final(self).wf(),
            final(self).hooks == old(self).hooks,
            final(self).events == old(self).events,
            final(self).balances.supply_entries() == old(self).balances.supply_entries(),
            ({
                let out = spec_execute(
                    old(self).balances.bal_map(),
                    old(self).allowances.amap(),
                    old(self).hooks,
                    operator,
                    from,
                    to,
                    legs@,
                    data@,
                );
                match r {
                    Ok(()) => {
                        &&& out.result == Ok::<(), Psp37Error>(())
                        &&& final(self).balances.bal_map() == out.balances
                        &&& final(self).allowances.amap() == out.allowances
                        &&& forall|id: u128| #[trigger]
                            final(self).balances.id_sum(id) == old(self).balances.id_sum(id)
                    },
                    Err(e) => out.result == Err::<(), Psp37Error>(e),
                }
            }),
    {
        let ghost b0 = old(self).balances.bal_map();
        let ghost a0 = old(self).allowances.amap();

        // Validation pass: read-only; no mutation before any failure here.
        let mut i: usize = 0;
        proof {
            assert(legs@.skip(0) =~= legs@);
        }
        while i < legs.len()
            invariant
                i <= legs@.len(),
                validation_error(a0, operator, from, to, legs@) == validation_error(
                    a0,
                    operator,
                    from,
                    to,
                    legs@.skip(i as int),
                ),
            decreases legs@.len() - i,
        {
            let (id, amount) = legs[i];
            proof {
                assert(legs@.skip(i as int)[0] == legs@[i as int]);
            }
            if to == ZERO_ACCOUNT {
                proof {
                    assert(validation_error(a0, operator, from, to, legs@) == Some(
                        Psp37Error::TransferToZeroAddress,
                    ));
                }
                return Err(Psp37Error::TransferToZeroAddress);
            }
            if from != operator {
                let effective = self.allowances.effective_allowance(from, operator, id);
                if effective < amount {
                    proof {
                        assert(validation_error(a0, operator, from, to, legs@) == Some(
                            Psp37Error::NotAllowed,
                        ));
                    }
                    return Err(Psp37Error::NotAllowed);
                }
            }
            i = i + 1;
            proof {
                assert(legs@.skip(i as int - 1).skip(1) =~= legs@.skip(i as int));
            }
        }
        proof {
            assert(legs@.skip(legs@.len() as int) =~= Seq::<(u128, u128)>::empty());
            assert(validation_error(a0, operator, from, to, legs@) is None);
        }

        // Before-transfer hook.
        if !self.hooks.check_before(from, to, legs) {
            return Err(Psp37Error::HookRejected);
        }

        // Debit pass: allowances (unless the owner acts for itself), then
        // balances, leg by leg.
        let mut i: usize = 0;
        proof {
            assert(legs@.take(0) =~= Seq::<(u128, u128)>::empty());
        }
        while i < legs.len()
            invariant
                i <= legs@.len(),
                self.balances.wf(),
                self.allowances.wf(),
                self.hooks == old(self).hooks,
                self.events == old(self).events,
                self.balances.supply_entries() == old(self).balances.supply_entries(),
                debit_legs(b0, a0, operator, from, legs@) == debit_legs(
                    self.balances.bal_map(),
                    self.allowances.amap(),
                    operator,
                    from,
                    legs@.skip(i as int),
                ),
                forall|k: (u128, u128)| #[trigger]
                    amount_of(self.balances.bal_map(), k) <= amount_of(b0, k),
                forall|t: u128| #[trigger]
                    self.balances.id_sum(t) == old(self).balances.id_sum(t) - legs_amount_for_id(
                        legs@.take(i as int),
                        t,
                    ),
            decreases legs@.len() - i,
        {
            let ghost pre_bal = self.balances.bal_map();
            let ghost pre_alw = self.allowances.amap();
            let (id, amount) = legs[i];
            proof {
                assert(legs@.skip(i as int)[0] == legs@[i as int]);
            }
            if from != operator {
                match self.allowances.decrease_allowance(from, operator, id, amount) {
                    Ok(()) => {},
                    Err(e) => {
                        proof {
                            assert(debit_legs(pre_bal, pre_alw, operator, from, legs@.skip(i as int))
                                == Err::<
                                (Map<(u128, u128), u128>, Map<AllowanceKey, u128>),
                                Psp37Error,
                            >(e));
                            assert(debit_legs(b0, a0, operator, from, legs@) == Err::<
                                (Map<(u128, u128), u128>, Map<AllowanceKey, u128>),
                                Psp37Error,
                            >(e));
                        }
                        return Err(e);
                    },
                }
            }
            match self.balances.decrease_balance(from, id, amount, false) {
                Ok(()) => {},
                Err(e) => {
                    proof {
                        assert(debit_legs(pre_bal, pre_alw, operator, from, legs@.skip(i as int))
                            == Err::<
                            (Map<(u128, u128), u128>, Map<AllowanceKey, u128>),
                            Psp37Error,
                        >(e));
                        assert(debit_legs(b0, a0, operator, from, legs@) == Err::<
                            (Map<(u128, u128), u128>, Map<AllowanceKey, u128>),
                            Psp37Error,
                        >(e));
                    }
                    return Err(e);
                },
            }
            i = i + 1;
            proof {
                assert(legs@.skip(i as int - 1).skip(1) =~= legs@.skip(i as int));
                assert(legs@.take(i as int).drop_last() =~= legs@.take(i as int - 1));
                assert(legs@.take(i as int).last() == legs@[i as int - 1]);
                assert forall|k: (u128, u128)| #[trigger]
                    amount_of(self.balances.bal_map(), k) <= amount_of(b0, k) by {
                    assert(amount_of(pre_bal, k) <= amount_of(b0, k));
                }
            }
        }
        proof {
            assert(legs@.skip(legs@.len() as int) =~= Seq::<(u128, u128)>::empty());
            assert(legs@.take(legs@.len() as int) =~= legs@);
        }
        let ghost b1 = self.balances.bal_map();
        let ghost a1 = self.allowances.amap();
        proof {
            assert(debit_legs(b0, a0, operator, from, legs@) == Ok::<_, Psp37Error>((b1, a1)));
            assert(forall|k: (u128, u128)| #[trigger] amount_of(b1, k) <= amount_of(b0, k));
        }

        // Recipient-acceptance check, before any credit lands.
        if !self.hooks.check_recipient(operator, from, to, legs, data) {
            return Err(Psp37Error::RecipientRejected);
        }

        // Credit pass.
        let mut j: usize = 0;
        proof {
            assert(legs@.take(0) =~= Seq::<(u128, u128)>::empty());
            assert(legs@.skip(0) =~= legs@);
        }
        while j < legs.len()
            invariant
                j <= legs@.len(),
                self.balances.wf(),
                self.allowances.wf(),
                self.allowances.amap() == a1,
                self.hooks == old(self).hooks,
                self.events == old(self).events,
                self.balances.supply_entries() == old(self).balances.supply_entries(),
                credit_legs(b1, to, legs@) == credit_legs(
                    self.balances.bal_map(),
                    to,
                    legs@.skip(j as int),
                ),
                forall|t: u128|
                    amount_of(self.balances.bal_map(), (to, t)) as int == amount_of(b1, (to, t))
                        + legs_amount_for_id(legs@.take(j as int), t),
                forall|t: u128| #[trigger]
                    self.balances.id_sum(t) == old(self).balances.id_sum(t) - legs_amount_for_id(
                        legs@,
                        t,
                    ) + legs_amount_for_id(legs@.take(j as int), t),
            decreases legs@.len() - j,
        {
            let (id, amount) = legs[j];
            proof {
                assert(legs@.skip(j as int)[0] == legs@[j as int]);
                assert(legs@.take(j as int + 1).drop_last() =~= legs@.take(j as int));
                assert(legs@.take(j as int + 1).last() == legs@[j as int]);
                lemma_legs_amount_take_le(legs@, j as int + 1, id);
                // The credit fits: the running balance is the post-debit one
                // plus what the earlier legs credited, the post-debit balance
                // is at most the pre-call one, and the caller guaranteed room
                // for the whole batch on top of the pre-call balance.
                assert(amount_of(b0, (to, id)) + legs_amount_for_id(legs@, id) <= u128::MAX);
                assert(legs_amount_for_id(legs@.take(j as int + 1), id) == legs_amount_for_id(
                    legs@.take(j as int),
                    id,
                ) + amount);
                assert(amount_of(self.balances.bal_map(), (to, id)) as int == amount_of(b1, (to, id))
                    + legs_amount_for_id(legs@.take(j as int), id));
                assert(self.balances.balance_of(to, id) + amount <= u128::MAX);
            }
            let ghost pre_credit = self.balances.bal_map();
            self.balances.increase_balance(to, id, amount, false);
            proof {
                assert forall|t: u128|
                    amount_of(self.balances.bal_map(), (to, t)) as int == amount_of(b1, (to, t))
                        + legs_amount_for_id(legs@.take(j as int + 1), t) by {
                    assert(amount_of(pre_credit, (to, t)) as int == amount_of(b1, (to, t))
                        + legs_amount_for_id(legs@.take(j as int), t));
                }
            }
            j = j + 1;
            proof {
                assert(legs@.skip(j as int - 1).skip(1) =~= legs@.skip(j as int));
            }
        }
        proof {
            assert(legs@.skip(legs@.len() as int) =~= Seq::<(u128, u128)>::empty());
            assert(legs@.take(legs@.len() as int) =~= legs@);
        }

        let ghost out = spec_execute(b0, a0, old(self).hooks, operator, from, to, legs@, data@);

        // After-transfer hook.
        if !self.hooks.check_after(from, to, legs) {
            proof {
                assert(out.result == Err::<(), Psp37Error>(Psp37Error::HookRejected));
            }
            return Err(Psp37Error::HookRejected);
        }

        proof {
            assert(out.result == Ok::<(), Psp37Error>(()));
            assert(out.balances == credit_legs(b1, to, legs@));
            assert(out.balances == self.balances.bal_map());
            assert(out.allowances == self.allowances.amap());
        }
        Ok(())
    }

    /// Steps one to seven of the protocol as one atomic unit: on any failure
    /// both ledgers are restored to their exact pre-call records and nothing
    /// is emitted; on success both ledgers hold the interpreter's post-state
    /// and exactly one notification is appended.
    pub fn execute(
        &mut self,
        operator: u128,
        from: u128,
        to: u128,
        legs: &Vec<(u128, u128)>,
        data: &Vec<u8>,
    ) -> (r: Result<(), Psp37Error>)
        requires
            execute_pre(*old(self), to, legs@),
        ensures
            execute_post(*old(self), *final(self), r, operator, from, to, legs@, data@),
    {
        let balances_snapshot = self.balances.snapshot();
        let allowances_snapshot = self.allowances.snapshot();
        let result = self.apply_batch(operator, from, to, legs, data);
        match result {
            Ok(()) => {
                self.events.emit_transfer_batch(operator, from, to, legs);
                Ok(())
            },
            Err(e) => {
                self.balances = balances_snapshot;
                self.allowances = allowances_snapshot;
                Err(e)
            },
        }
    }

    /// Moves a batch out of the caller's own balance: the caller is both
    /// owner and operator, so no allowance is consulted.
    pub fn batch_transfer(
        &mut self,
        caller: u128,
        to: u128,
        ids_amounts: &Vec<(u128, u128)>,
        data: &Vec<u8>,
    ) -> (r: Result<(), Psp37Error>)
        requires
            execute_pre(*old(self), to, ids_amounts@),
        ensures
            execute_post(*old(self), *final(self), r, caller, caller, to, ids_amounts@, data@),
    {
        self.execute(caller, caller, to, ids_amounts, data)
    }

    /// Moves a batch out of `from`'s balance under the caller's authority as
    /// operator.
    pub fn batch_transfer_from(
        &mut self,
        caller: u128,
        from: u128,
        to: u128,
        ids_amounts: &Vec<(u128, u128)>,
        data: &Vec<u8>,
    ) -> (r: Result<(), Psp37Error>)
        requires
            execute_pre(*old(self), to, ids_amounts@),
        ensures
            execute_post(*old(self), *final(self), r, caller, from, to, ids_amounts@, data@),
    {
        self.execute(caller, from, to, ids_amounts, data)
    }
}

} // verus!
