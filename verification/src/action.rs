//! What a call has the host do.
//!
//! A call decides; the host acts. The actions of a call are carried out in order,
//! and the call as a whole takes effect only if all of them succeed: if one fails,
//! or if the call returns an error, nothing that the call did remains.

use crate::address::Address;
use crate::error::Error;
use crate::types::{CancelReason, FailureReason, RaffleStatus, RandomnessSource, RandomnessType};
use vstd::prelude::*;

verus! {

/// A payment.
#[derive(Clone, Copy, PartialEq, Eq, Structural, Debug)]
pub struct Payment {
    pub token: Address,
    pub from: Address,
    pub to: Address,
    pub amount: i128,
}

/// News for observers of the ledger.
#[allow(inconsistent_fields)]
#[derive(Clone, Copy, PartialEq, Eq, Structural, Debug)]
pub enum Event {
    ContractPaused { paused_by: Address, timestamp: u64 },
    ContractUnpaused { unpaused_by: Address, timestamp: u64 },
    DrawTriggered { caller: Address, total_tickets_sold: u32, timestamp: u64 },
    EmergencyWithdrawn {
        withdrawn_by: Address,
        to: Address,
        amount: i128,
        token: Address,
        timestamp: u64,
    },
    FeesWithdrawn { recipient: Address, amount: i128, token: Address, timestamp: u64 },
    OracleAddressUpdated {
        old_oracle: Option<Address>,
        new_oracle: Address,
        updated_by: Address,
        timestamp: u64,
    },
    PrizeClaimed {
        winner: Address,
        tier_index: u32,
        payment_token: Address,
        gross_amount: i128,
        net_amount: i128,
        platform_fee: i128,
        claimed_at: u64,
    },
    PrizeDeposited { creator: Address, amount: i128, token: Address, timestamp: u64 },
    PrizeRefunded { creator: Address, amount: i128, token: Address, timestamp: u64 },
    ProtocolFeeUpdated { old_fee_bp: u32, new_fee_bp: u32, updated_by: Address, timestamp: u64 },
    RaffleCancelled {
        creator: Address,
        reason: CancelReason,
        tickets_sold: u32,
        prize_refunded: bool,
        timestamp: u64,
    },
    RaffleFailed { creator: Address, reason: FailureReason, tickets_sold: u32, timestamp: u64 },
    RaffleStatusChanged { old_status: RaffleStatus, new_status: RaffleStatus, timestamp: u64 },
    RandomnessFallbackTriggered {
        triggered_by: Address,
        seed_used: u64,
        request_ledger: u32,
        fallback_ledger: u32,
        timestamp: u64,
    },
    RandomnessReceived { oracle: Address, seed: u64, request_id: u64, timestamp: u64 },
    RandomnessRequested { oracle: Address, request_id: u64, timestamp: u64 },
    SwapDeadlineUpdated {
        old_deadline_seconds: u64,
        new_deadline_seconds: u64,
        updated_by: Address,
        timestamp: u64,
    },
    TicketRefunded { buyer: Address, ticket_number: u32, amount: i128, timestamp: u64 },
    TicketSalesPaused { paused_by: Address, timestamp: u64 },
    TicketSalesResumed { resumed_by: Address, timestamp: u64 },
    TokensRescued {
        rescued_by: Address,
        token: Address,
        recipient: Address,
        amount: i128,
        timestamp: u64,
    },
    WinnerDrawn { winner: Address, ticket_id: u32, tier_index: u32, timestamp: u64 },
}

/// The news that a raffle was created.
#[derive(Clone, PartialEq, Eq, Debug)]
pub struct RaffleCreated {
    pub raffle_id: Address,
    pub creator: Address,
    pub end_time: u64,
    pub max_tickets: u32,
    pub ticket_price: i128,
    pub payment_token: Address,
    pub prize_amount: i128,
    pub prizes: Vec<u32>,
    pub description: Vec<u8>,
    pub randomness_source: RandomnessSource,
    pub metadata_hash: [u8; 32],
}

/// The news that tickets were bought.
#[derive(Clone, PartialEq, Eq, Debug)]
pub struct TicketPurchased {
    pub buyer: Address,
    pub ticket_ids: Vec<u32>,
    pub quantity: u32,
    pub ticket_price: i128,
    pub effective_ticket_price: i128,
    pub total_paid: i128,
    pub protocol_fee: i128,
    pub timestamp: u64,
}

/// The news that a raffle has its winners.
#[derive(Clone, PartialEq, Eq, Debug)]
pub struct RaffleFinalized {
    pub raffle_id: Address,
    pub winners: Vec<Address>,
    pub winning_ticket_ids: Vec<u32>,
    pub total_tickets_sold: u32,
    pub randomness_source: RandomnessSource,
    pub randomness_type: RandomnessType,
    pub finalized_at: u64,
}

/// One thing for the host to do.
#[derive(Clone, PartialEq, Eq, Debug)]
pub enum Action {
    /// Have an address confirm the call; the call is aborted if it does not.
    RequireAuth(Address),
    /// Ask an address for its decimals; if it does not answer like a token, the
    /// call fails with [`Error::InvalidTokenAddress`].
    CheckToken(Address),
    /// Check an Ed25519 signature; the call is aborted if it is wrong.
    CheckProof { public_key: [u8; 32], message: Vec<u8>, proof: [u8; 64] },
    /// Make a payment; if the token refuses, the call fails with
    /// [`Error::TokenTransferFailed`].
    TryTransfer(Payment),
    /// Make a payment; the call is aborted if the token refuses.
    Transfer(Payment),
    /// Authorise and make the factory's call `record_volume`.
    RecordVolume { factory: Address, token: Address, amount: i128 },
    /// Make the factory's call `track_participant`.
    TrackParticipant { factory: Address, participant: Address },
    /// Publish news.
    Publish(Event),
    /// Publish the news that the raffle was created.
    PublishCreated(RaffleCreated),
    /// Publish the news that tickets were bought.
    PublishPurchase(TicketPurchased),
    /// Publish the news that the raffle has its winners.
    PublishFinalized(RaffleFinalized),
}

impl ActionView {
    /// The error with which the call fails if the action is refused; `None` where the
    /// action cannot be refused without the call being aborted.
    pub open spec fn error_if_refused(self) -> Option<Error> {
        match self {
            ActionView::CheckToken(_) => Some(Error::InvalidTokenAddress),
            ActionView::TryTransfer(_) => Some(Error::TokenTransferFailed),
            _ => None,
        }
    }
}

impl Action {
    /// Returns the error with which the call fails if the action is refused; `None`
    /// where the action cannot be refused without the call being aborted.
    pub fn error_if_refused(&self) -> (r: Option<Error>)
        ensures
            r == self@.error_if_refused(),
    {
        match self {
            Action::CheckToken(_) => Some(Error::InvalidTokenAddress),
            Action::TryTransfer(_) => Some(Error::TokenTransferFailed),
            _ => None,
        }
    }
}

/// An [`Action`], with its lists as sequences.
pub enum ActionView {
    RequireAuth(Address),
    CheckToken(Address),
    CheckProof { public_key: Seq<u8>, message: Seq<u8>, proof: Seq<u8> },
    TryTransfer(Payment),
    Transfer(Payment),
    RecordVolume { factory: Address, token: Address, amount: i128 },
    TrackParticipant { factory: Address, participant: Address },
    Publish(Event),
    PublishCreated {
        raffle_id: Address,
        creator: Address,
        end_time: u64,
        max_tickets: u32,
        ticket_price: i128,
        payment_token: Address,
        prize_amount: i128,
        prizes: Seq<u32>,
        description: Seq<u8>,
        randomness_source: RandomnessSource,
        metadata_hash: Seq<u8>,
    },
    PublishPurchase {
        buyer: Address,
        ticket_ids: Seq<u32>,
        quantity: u32,
        ticket_price: i128,
        effective_ticket_price: i128,
        total_paid: i128,
        protocol_fee: i128,
        timestamp: u64,
    },
    PublishFinalized {
        raffle_id: Address,
        winners: Seq<Address>,
        winning_ticket_ids: Seq<u32>,
        total_tickets_sold: u32,
        randomness_source: RandomnessSource,
        randomness_type: RandomnessType,
        finalized_at: u64,
    },
}

impl View for Action {
    type V = ActionView;

    open spec fn view(&self) -> ActionView {
        match *self {
            Action::RequireAuth(address) => ActionView::RequireAuth(address),
            Action::CheckToken(token) => ActionView::CheckToken(token),
            Action::CheckProof { public_key, message, proof } => ActionView::CheckProof {
                public_key: public_key@,
                message: message@,
                proof: proof@,
            },
            Action::TryTransfer(payment) => ActionView::TryTransfer(payment),
            Action::Transfer(payment) => ActionView::Transfer(payment),
            Action::RecordVolume { factory, token, amount } => ActionView::RecordVolume {
                factory,
                token,
                amount,
            },
            Action::TrackParticipant { factory, participant } => ActionView::TrackParticipant {
                factory,
                participant,
            },
            Action::Publish(event) => ActionView::Publish(event),
            Action::PublishCreated(e) => ActionView::PublishCreated {
                raffle_id: e.raffle_id,
                creator: e.creator,
                end_time: e.end_time,
                max_tickets: e.max_tickets,
                ticket_price: e.ticket_price,
                payment_token: e.payment_token,
                prize_amount: e.prize_amount,
                prizes: e.prizes@,
                description: e.description@,
                randomness_source: e.randomness_source,
                metadata_hash: e.metadata_hash@,
            },
            Action::PublishPurchase(e) => ActionView::PublishPurchase {
                buyer: e.buyer,
                ticket_ids: e.ticket_ids@,
                quantity: e.quantity,
                ticket_price: e.ticket_price,
                effective_ticket_price: e.effective_ticket_price,
                total_paid: e.total_paid,
                protocol_fee: e.protocol_fee,
                timestamp: e.timestamp,
            },
            Action::PublishFinalized(e) => ActionView::PublishFinalized {
                raffle_id: e.raffle_id,
                winners: e.winners@,
                winning_ticket_ids: e.winning_ticket_ids@,
                total_tickets_sold: e.total_tickets_sold,
                randomness_source: e.randomness_source,
                randomness_type: e.randomness_type,
                finalized_at: e.finalized_at,
            },
        }
    }
}

} // verus!
