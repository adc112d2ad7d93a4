//! `HookDispatcher`: the extension surface around a batch transfer — a
//! before-transfer hook, a recipient-acceptance check and an after-transfer
//! hook, each defaulting to no-op/always-accept.
//!
//! The recipient check is capability-based: only accounts explicitly
//! registered as programmable receivers are asked, and each registration
//! carries its verdict; an unregistered recipient auto-accepts. The before
//! and after hooks are overridden with a variant tag rather than by type
//! inspection.

use vstd::prelude::*;

verus! {

/// What an overridable hook does with a batch.
#[derive(Clone, Copy, Debug, PartialEq, Eq, Structural)]
pub enum HookPolicy {
    /// The hook lets the batch proceed (the default no-op).
    Accept,
    /// The hook vetoes the batch.
    Reject,
}

/// The verdict of the receiver registry for an account: the most recent
/// registration wins, and an unregistered account has no verdict.
pub open spec fn receiver_decision(s: Seq<(u128, bool)>, account: u128) -> Option<bool>
    decreases s.len(),
{
    if s.len() == 0 {
        None
    } else if s[0].0 == account {
        Some(s[0].1)
    } else {
        receiver_decision(s.skip(1), account)
    }
}

/// The three extension points around a batch transfer.
pub struct HookDispatcher {
    before: HookPolicy,
    after: HookPolicy,
    receivers: Vec<(u128, bool)>,
}

impl HookDispatcher {
    /// Whether the before-transfer hook lets a batch proceed.
    pub closed spec fn before_accepts(&self) -> bool {
        self.before is Accept
    }

    /// Whether the after-transfer hook lets a batch proceed.
    pub closed spec fn after_accepts(&self) -> bool {
        self.after is Accept
    }

    /// Whether the recipient-acceptance check lets a batch through to `to`:
    /// a registered receiver answers with its registered verdict, any other
    /// account auto-accepts.
    pub closed spec fn recipient_accepts(&self, to: u128) -> bool {
        match receiver_decision(self.receivers@, to) {
            Some(verdict) => verdict,
            None => true,
        }
    }

    /// The default dispatcher: every hook is a no-op and every recipient
    /// accepts.
    pub fn new() -> (r: HookDispatcher)
        ensures
            r.before_accepts(),
            r.after_accepts(),
            forall|to: u128| #[trigger] r.recipient_accepts(to),
    {
        HookDispatcher { before: HookPolicy::Accept, after: HookPolicy::Accept, receivers: Vec::new() }
    }

    /// Overrides the before-transfer hook.
    pub fn set_before_policy(&mut self, policy: HookPolicy)
        ensures
            final(self).before_accepts() == (policy is Accept),
            final(self).after_accepts() == old(self).after_accepts(),
            forall|to: u128| #[trigger]
                final(self).recipient_accepts(to) == old(self).recipient_accepts(to),
    {
        self.before = policy;
    }

    /// Overrides the after-transfer hook.
    pub fn set_after_policy(&mut self, policy: HookPolicy)
        ensures
            final(self).after_accepts() == (policy is Accept),
            final(self).before_accepts() == old(self).before_accepts(),
            forall|to: u128| #[trigger]
                final(self).recipient_accepts(to) == old(self).recipient_accepts(to),
    {
        self.after = policy;
    }

    /// Registers `account` as a programmable receiver with the given verdict,
    /// overriding any earlier registration for it.
    pub fn register_receiver(&mut self, account: u128, accepts: bool)
        ensures
            final(self).recipient_accepts(account) == accepts,
            forall|to: u128|
                to != account ==> #[trigger] final(self).recipient_accepts(to) == old(
                    self,
                ).recipient_accepts(to),
            final(self).before_accepts() == old(self).before_accepts(),
            final(self).after_accepts() == old(self).after_accepts(),
    {
        self.receivers.insert(0, (account, accepts));
        proof {
            assert(self.receivers@.skip(1) =~= old(self).receivers@);
        }
    }

    /// Runs the before-transfer hook on a batch.
    #[allow(unused_variables)]
    pub fn check_before(&self, from: u128, to: u128, legs: &Vec<(u128, u128)>) -> (r: bool)
        ensures
            r == self.before_accepts(),
    {
        match self.before {
            HookPolicy::Accept => true,
            HookPolicy::Reject => false,
        }
    }

    /// Runs the recipient-acceptance check on a batch.
    #[allow(unused_variables)]
    #[verifier::loop_isolation(false)]
    pub fn check_recipient(
        &self,
        operator: u128,
        from: u128,
        to: u128,
        legs: &Vec<(u128, u128)>,
        data: &Vec<u8>,
    ) -> (r: bool)
        ensures
            r == self.recipient_accepts(to),
    {
        let mut i: usize = 0;
        proof {
            assert(self.receivers@.skip(0) =~= self.receivers@);
        }
        while i < self.receivers.len()
            invariant
                i <= self.receivers@.len(),
                receiver_decision(self.receivers@, to) == receiver_decision(
                    self.receivers@.skip(i as int),
                    to,
                ),
            decreases self.receivers@.len() - i,
        {
            let (account, verdict) = self.receivers[i];
            proof {
                assert(self.receivers@.skip(i as int)[0] == self.receivers@[i as int]);
            }
            if account == to {
                return verdict;
            }
            i = i + 1;
            proof {
                assert(self.receivers@.skip(i as int - 1).skip(1) =~= self.receivers@.skip(i as int));
            }
        }
        true
    }

    /// Runs the after-transfer hook on a batch.
    #[allow(unused_variables)]
    pub fn check_after(&self, from: u128, to: u128, legs: &Vec<(u128, u128)>) -> (r: bool)
        ensures
            r == self.after_accepts(),
    {
        match self.after {
            HookPolicy::Accept => true,
            HookPolicy::Reject => false,
        }
    }
}

} // verus!
