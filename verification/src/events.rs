//! `EventEmitter`: records exactly one batch-transfer notification per
//! successful call. Emission is fire-and-forget and takes no part in the
//! atomicity protocol — nothing ever rolls an emitted event back, and no
//! failing batch reaches the emitter at all.

use vstd::prelude::*;

use crate::store::copy_entries;

verus! {

/// One batch-transfer notification.
pub struct BatchTransferEvent {
    pub operator: u128,
    pub from: u128,
    pub to: u128,
    pub legs: Vec<(u128, u128)>,
}

/// The mathematical content of one notification.
pub struct EventView {
    pub operator: u128,
    pub from: u128,
    pub to: u128,
    pub legs: Seq<(u128, u128)>,
}

impl View for BatchTransferEvent {
    type V = EventView;

    open spec fn view(&self) -> EventView {
        EventView { operator: self.operator, from: self.from, to: self.to, legs: self.legs@ }
    }
}

/// The notification log.
pub struct EventEmitter {
    /// Every notification emitted so far, oldest first.
    pub log: Vec<BatchTransferEvent>,
}

impl EventEmitter {
    /// The emitted notifications, oldest first.
    pub closed spec fn log_view(&self) -> Seq<EventView> {
        self.log@.map_values(|e: BatchTransferEvent| e@)
    }

    /// An empty log.
    pub fn new() -> (r: EventEmitter)
        ensures
            r.log_view().len() == 0,
    {
        EventEmitter { log: Vec::new() }
    }

    /// How many notifications have been emitted.
    pub fn event_count(&self) -> (r: usize)
        ensures
            r == self.log_view().len(),
    {
        self.log.len()
    }

    /// Appends one batch-transfer notification.
    pub fn emit_transfer_batch(&mut self, operator: u128, from: u128, to: u128, legs: &Vec<(u128, u128)>)
        ensures
            final(self).log_view() == old(self).log_view().push(
                EventView { operator, from, to, legs: legs@ },
            ),
    {
        let recorded_legs = copy_entries(legs);
        self.log.push(BatchTransferEvent { operator, from, to, legs: recorded_legs });
        proof {
            assert(final(self).log_view() =~= old(self).log_view().push(
                EventView { operator, from, to, legs: legs@ },
            ));
        }
    }
}

} // verus!
