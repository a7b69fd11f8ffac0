//! Domain events: the ordered, append-only trail the pipeline leaves for
//! external observers. Within one processed claim the order is fixed:
//! the deposit is observed, the balance minted, the stake increased.

use vstd::prelude::*;
use crate::codec::{DepositFromEthereum, ClaimView};
use crate::ident::ActorId;

verus! {

/// An entry of the event log.
#[derive(Debug, Clone, PartialEq, Eq)]
pub enum Event {
    /// A deposit claim was observed (and proved).
    DepositFromEthereum(DepositFromEthereum),
    /// The beneficiary's balance grew by the scaled amount.
    WUsdcMinted { to: ActorId, amount: u128 },
    /// The same amount was staked for the beneficiary.
    Staked { user: ActorId, amount: u128 },
}

/// Mathematical image of an event.
pub enum EventView {
    DepositFromEthereum(ClaimView),
    WUsdcMinted { to: Seq<u8>, amount: u128 },
    Staked { user: Seq<u8>, amount: u128 },
}

impl View for Event {
    type V = EventView;

    open spec fn view(&self) -> EventView {
        match self {
            Event::DepositFromEthereum(c) => EventView::DepositFromEthereum(c@),
            Event::WUsdcMinted { to, amount } => EventView::WUsdcMinted {
                to: to@,
                amount: *amount,
            },
            Event::Staked { user, amount } => EventView::Staked { user: user@, amount: *amount },
        }
    }
}

/// The images of a sequence of events.
pub open spec fn events_view(s: Seq<Event>) -> Seq<EventView> {
    s.map_values(|e: Event| e@)
}

#[derive(Debug, Clone, Copy, PartialEq, Eq, Structural)]
pub enum EmitError {
    /// The transport collaborator failed to deliver an event. The core log
    /// itself never fails; this arises only in the delivery layer around it.
    DeliveryFailed,
}

} // verus!
