//! What a raffle contract remembers between calls, and what a call works on.

use crate::action::{Action, ActionView};
use crate::address::Address;
use crate::table::AddressTable;
use crate::types::{
    CommitRevealEntry, FairnessMetadata, FairnessMetadataView, Raffle, RaffleView, Ticket,
};
use std::collections::HashMap;
use std::collections::HashSet;
use vstd::prelude::*;

verus! {

broadcast use vstd::std_specs::hash::group_hash_axioms;

/// What can stand in the memory of a contract.
#[derive(Clone, Copy, PartialEq, Eq, Structural, Debug)]
pub enum DataKey {
    Raffle,
    TicketCount(Address),
    Ticket(u32),
    TicketRefunded(u32),
    Factory,
    ReentrancyGuard,
    Paused,
    Admin,
    RandomnessSeed,
    RandomnessRequested,
    RandomnessRequestLedger,
    RandomnessRequestId,
    FinishTime,
    AccumulatedFees,
    CommitEntry(u32),
    DrawingLock,
    TicketBuyers,
    /// The tickets of an owner.
    OwnerTickets(Address),
    /// The time from which a scheduled cancellation can be carried out.
    PendingAdminCancel,
}

/// The memory of a contract.
pub struct Store {
    pub raffle: Option<Raffle>,
    pub factory: Option<Address>,
    /// Whether a call is in progress that must not be entered again.
    pub reentrancy_guard: bool,
    pub paused: bool,
    /// The administrator that was named at the creation.
    pub admin: Option<Address>,
    pub randomness_requested: bool,
    pub randomness_request_ledger: Option<u32>,
    pub randomness_request_id: Option<u64>,
    pub accumulated_fees: i128,
    /// Whether a draw is in progress.
    pub drawing_lock: bool,
    /// The time from which a scheduled cancellation can be carried out.
    pub pending_admin_cancel: Option<u64>,
    pub tickets: HashMap<u32, Ticket>,
    /// The tickets that were refunded.
    pub refunded: HashSet<u32>,
    pub commit_entries: HashMap<u32, CommitRevealEntry>,
    pub ticket_counts: AddressTable<u32>,
    pub owner_tickets: AddressTable<Vec<u32>>,
    /// Everybody who has bought a ticket.
    pub ticket_buyers: Vec<Address>,
    /// The record of the draw.
    pub randomness_seed: Option<FairnessMetadata>,
    /// The administrator whose confirmation the settings need.
    pub standing_admin: Option<Address>,
}

/// A [`Store`], with its tables as maps.
#[verifier::ext_equal]
pub struct StoreView {
    pub raffle: Option<RaffleView>,
    pub factory: Option<Address>,
    pub reentrancy_guard: bool,
    pub paused: bool,
    pub admin: Option<Address>,
    pub randomness_requested: bool,
    pub randomness_request_ledger: Option<u32>,
    pub randomness_request_id: Option<u64>,
    pub accumulated_fees: i128,
    pub drawing_lock: bool,
    pub pending_admin_cancel: Option<u64>,
    pub tickets: Map<u32, Ticket>,
    pub refunded: Set<u32>,
    pub commit_entries: Map<u32, CommitRevealEntry>,
    pub ticket_counts: Map<Address, u32>,
    pub owner_tickets: Map<Address, Seq<u32>>,
    pub ticket_buyers: Seq<Address>,
    pub randomness_seed: Option<FairnessMetadataView>,
    pub standing_admin: Option<Address>,
}

/// A table of lists, with its lists as sequences.
pub open spec fn lists_in(table: Map<Address, Vec<u32>>) -> Map<Address, Seq<u32>> {
    table.map_values(|ids: Vec<u32>| ids@)
}

impl View for Store {
    type V = StoreView;

    open spec fn view(&self) -> StoreView {
        StoreView {
            raffle: match self.raffle {
                Some(r) => Some(r@),
                None => None,
            },
            factory: self.factory,
            reentrancy_guard: self.reentrancy_guard,
            paused: self.paused,
            admin: self.admin,
            randomness_requested: self.randomness_requested,
            randomness_request_ledger: self.randomness_request_ledger,
            randomness_request_id: self.randomness_request_id,
            accumulated_fees: self.accumulated_fees,
            drawing_lock: self.drawing_lock,
            pending_admin_cancel: self.pending_admin_cancel,
            tickets: self.tickets@,
            refunded: self.refunded@,
            commit_entries: self.commit_entries@,
            ticket_counts: self.ticket_counts@,
            owner_tickets: lists_in(self.owner_tickets@),
            ticket_buyers: self.ticket_buyers@,
            randomness_seed: match self.randomness_seed {
                Some(m) => Some(m@),
                None => None,
            },
            standing_admin: self.standing_admin,
        }
    }
}

impl StoreView {
    /// The limits that every memory keeps: those of its raffle, and what ties the
    /// books of the sale to it.
    pub open spec fn wf(self) -> bool {
        match self.raffle {
            Some(raffle) => {
                &&& raffle.wf()
                &&& 0 <= self.accumulated_fees <= raffle.tickets_sold * raffle.ticket_price
                &&& forall|a: Address| #[trigger]
                    self.ticket_counts.contains_key(a) ==> self.ticket_counts[a]
                        <= raffle.tickets_sold && self.ticket_buyers.contains(a)
            },
            None => {
                &&& self.accumulated_fees == 0
                &&& self.ticket_counts == Map::<Address, u32>::empty()
            },
        }
    }

    /// This memory with another raffle.
    pub open spec fn with_raffle(self, raffle: RaffleView) -> StoreView {
        StoreView { raffle: Some(raffle), ..self }
    }

    /// How many tickets somebody has bought.
    pub open spec fn count_of(self, owner: Address) -> u32 {
        if self.ticket_counts.contains_key(owner) {
            self.ticket_counts[owner]
        } else {
            0
        }
    }

    /// The tickets that somebody has bought, by the index of owners.
    pub open spec fn tickets_of(self, owner: Address) -> Seq<u32> {
        if self.owner_tickets.contains_key(owner) {
            self.owner_tickets[owner]
        } else {
            Seq::empty()
        }
    }
}

impl StoreView {
    /// The memory of a contract before its first call.
    pub open spec fn blank() -> StoreView {
        StoreView {
            raffle: None,
            factory: None,
            reentrancy_guard: false,
            paused: false,
            admin: None,
            randomness_requested: false,
            randomness_request_ledger: None,
            randomness_request_id: None,
            accumulated_fees: 0,
            drawing_lock: false,
            pending_admin_cancel: None,
            tickets: Map::empty(),
            refunded: Set::empty(),
            commit_entries: Map::empty(),
            ticket_counts: Map::empty(),
            owner_tickets: Map::empty(),
            ticket_buyers: Seq::empty(),
            randomness_seed: None,
            standing_admin: None,
        }
    }

    /// Whether anything but the default stands under a key.
    pub open spec fn holds(self, key: DataKey) -> bool {
        match key {
            DataKey::Raffle => self.raffle is Some,
            DataKey::TicketCount(owner) => self.ticket_counts.contains_key(owner),
            DataKey::Ticket(id) => self.tickets.contains_key(id),
            DataKey::TicketRefunded(id) => self.refunded.contains(id),
            DataKey::Factory => self.factory is Some,
            DataKey::ReentrancyGuard => self.reentrancy_guard,
            DataKey::Paused => self.paused,
            DataKey::Admin => self.admin is Some || self.standing_admin is Some,
            DataKey::RandomnessSeed => self.randomness_seed is Some,
            DataKey::RandomnessRequested => self.randomness_requested,
            DataKey::RandomnessRequestLedger => self.randomness_request_ledger is Some,
            DataKey::RandomnessRequestId => self.randomness_request_id is Some,
            DataKey::FinishTime => false,
            DataKey::AccumulatedFees => self.accumulated_fees != 0,
            DataKey::CommitEntry(id) => self.commit_entries.contains_key(id),
            DataKey::DrawingLock => self.drawing_lock,
            DataKey::TicketBuyers => self.ticket_buyers.len() > 0,
            DataKey::OwnerTickets(owner) => self.owner_tickets.contains_key(owner),
            DataKey::PendingAdminCancel => self.pending_admin_cancel is Some,
        }
    }
}

impl Store {
    /// Returns the memory of a contract before its first call.
    pub fn new() -> (r: Store)
        ensures
            r@ == StoreView::blank(),
    {
        let r = Store {
            raffle: None,
            factory: None,
            reentrancy_guard: false,
            paused: false,
            admin: None,
            randomness_requested: false,
            randomness_request_ledger: None,
            randomness_request_id: None,
            accumulated_fees: 0,
            drawing_lock: false,
            pending_admin_cancel: None,
            tickets: HashMap::new(),
            refunded: HashSet::new(),
            commit_entries: HashMap::new(),
            ticket_counts: AddressTable::new(),
            owner_tickets: AddressTable::new(),
            ticket_buyers: Vec::new(),
            randomness_seed: None,
            standing_admin: None,
        };
        assert(r@.owner_tickets =~= Map::<Address, Seq<u32>>::empty());
        r
    }

    /// Returns whether anything but the default stands under a key.
    pub fn has(&self, key: DataKey) -> (r: bool)
        ensures
            r == self@.holds(key),
    {
        match key {
            DataKey::Raffle => self.raffle.is_some(),
            DataKey::TicketCount(owner) => self.ticket_counts.get(owner).is_some(),
            DataKey::Ticket(id) => self.tickets.contains_key(&id),
            DataKey::TicketRefunded(id) => self.refunded.contains(&id),
            DataKey::Factory => self.factory.is_some(),
            DataKey::ReentrancyGuard => self.reentrancy_guard,
            DataKey::Paused => self.paused,
            DataKey::Admin => self.admin.is_some() || self.standing_admin.is_some(),
            DataKey::RandomnessSeed => self.randomness_seed.is_some(),
            DataKey::RandomnessRequested => self.randomness_requested,
            DataKey::RandomnessRequestLedger => self.randomness_request_ledger.is_some(),
            DataKey::RandomnessRequestId => self.randomness_request_id.is_some(),
            DataKey::FinishTime => false,
            DataKey::AccumulatedFees => self.accumulated_fees != 0,
            DataKey::CommitEntry(id) => self.commit_entries.contains_key(&id),
            DataKey::DrawingLock => self.drawing_lock,
            DataKey::TicketBuyers => self.ticket_buyers.len() > 0,
            DataKey::OwnerTickets(owner) => self.owner_tickets.get(owner).is_some(),
            DataKey::PendingAdminCancel => self.pending_admin_cancel.is_some(),
        }
    }

    /// The raffle, for changing it.
    pub fn raffle_mut(&mut self) -> (r: &mut Raffle)
        requires
            old(self).raffle is Some,
        ensures
            *r == old(self).raffle->0,
            *final(self) == (Store { raffle: Some(*final(r)), ..*old(self) }),
    {
        match &mut self.raffle {
            Some(r) => r,
            None => unreached(),
        }
    }
}

/// The ledger that a call runs in, and the address that it runs at.
#[derive(Clone, Copy, PartialEq, Eq, Structural, Debug)]
pub struct Ledger {
    pub timestamp: u64,
    pub sequence: u32,
    pub contract: Address,
}

/// What one call works on: the ledger, the contract's memory and the actions that
/// the call has asked for.
pub struct Frame {
    pub ledger: Ledger,
    pub store: Store,
    pub actions: Vec<Action>,
}

/// A [`Frame`], with its parts as mathematical values.
#[verifier::ext_equal]
pub struct FrameView {
    pub ledger: Ledger,
    pub store: StoreView,
    pub actions: Seq<ActionView>,
}

impl View for Frame {
    type V = FrameView;

    open spec fn view(&self) -> FrameView {
        FrameView {
            ledger: self.ledger,
            store: self.store@,
            actions: self.actions@.map_values(|a: Action| a@),
        }
    }
}

impl FrameView {
    /// This frame after one more action.
    pub open spec fn act(self, action: ActionView) -> FrameView {
        FrameView { actions: self.actions.push(action), ..self }
    }

    /// This frame with another memory.
    pub open spec fn with_store(self, store: StoreView) -> FrameView {
        FrameView { store, ..self }
    }
}

impl Frame {
    /// Asks for one more action.
    pub fn act(&mut self, action: Action)
        ensures
            final(self)@ == old(self)@.act(action@),
            final(self).store == old(self).store,
            final(self).ledger == old(self).ledger,
    {
        let ghost before = self.actions@;
        self.actions.push(action);
        assert(self@.actions =~= old(self)@.actions.push(action@));
    }
}

} // verus!
