//! What a raffle is made of.

use crate::address::Address;
use crate::{
    DEFAULT_CLAIM_LOCKUP_SECONDS, DEFAULT_SWAP_DEADLINE_SECONDS, MAX_CLAIM_LOCKUP_SECONDS,
    MAX_PRIZES, MAX_PRIZE_AMOUNT, MAX_SWAP_DEADLINE_SECONDS, MAX_TICKETS_LIMIT, MIN_TICKET_PRICE,
};
use vstd::prelude::*;

verus! {

/// Where a raffle stands.
#[derive(Clone, Copy, PartialEq, Eq, Structural, Debug)]
pub enum RaffleStatus {
    /// Created; the prize has not been paid in.
    PendingPrize,
    /// Tickets are on sale.
    Active,
    /// Sales have ended and the winners are being drawn.
    Drawing,
    /// The winners are known.
    Finalized,
    /// Every prize has been collected.
    Claimed,
    /// Called off.
    Cancelled,
    /// Ended with too few tickets sold.
    Failed,
}

/// Where the seed of a draw comes from.
#[derive(Clone, Copy, PartialEq, Eq, Structural, Debug)]
pub enum RandomnessSource {
    /// The ledger.
    Internal,
    /// An oracle.
    External,
    /// Hashes that ticket holders committed to.
    CommitReveal,
}

/// How the seed of a finished draw was made.
#[derive(Clone, Copy, PartialEq, Eq, Structural, Debug)]
pub enum RandomnessType {
    Prng,
    Vrf,
    Fallback,
}

/// Why a raffle was called off.
#[derive(Clone, Copy, PartialEq, Eq, Structural, Debug)]
pub enum CancelReason {
    CreatorCancelled,
    AdminCancelled,
    OracleTimeout,
}

/// Why a raffle failed.
#[derive(Clone, Copy, PartialEq, Eq, Structural, Debug)]
pub enum FailureReason {
    ZeroTicketsSold,
    MinTicketsNotMet,
}

/// A sold ticket.
#[derive(Clone, Copy, PartialEq, Eq, Structural, Debug)]
pub struct Ticket {
    pub id: u32,
    pub owner: Address,
    pub purchase_time: u64,
    pub ticket_number: u32,
}

/// A hash that a ticket holder contributes to the seed of the draw.
#[derive(Clone, Copy, PartialEq, Eq, Debug)]
pub struct CommitRevealEntry {
    pub committer: Address,
    pub hash: [u8; 32],
}

/// The sum of a list of shares.
pub open spec fn sum_of(shares: Seq<u32>) -> int
    decreases shares.len(),
{
    if shares.len() == 0 {
        0
    } else {
        sum_of(shares.drop_last()) + shares.last()
    }
}

/// What the creator of a raffle asks for. A zero in `claim_lockup_seconds` or
/// `swap_deadline_seconds` stands for the default.
#[derive(Clone, PartialEq, Eq, Debug)]
pub struct RaffleConfig {
    pub description: Vec<u8>,
    pub end_time: u64,
    pub no_deadline: bool,
    pub max_tickets: u32,
    pub max_tickets_per_tx: u32,
    pub min_tickets: u32,
    pub allow_multiple: bool,
    pub ticket_price: i128,
    pub payment_token: Address,
    pub prize_amount: i128,
    /// The share of each tier in the prize, in basis points.
    pub prizes: Vec<u32>,
    pub randomness_source: RandomnessSource,
    pub oracle_address: Option<Address>,
    pub protocol_fee_bp: u32,
    pub treasury_address: Option<Address>,
    pub swap_router: Option<Address>,
    pub tikka_token: Option<Address>,
    pub metadata_hash: [u8; 32],
    pub claim_lockup_seconds: u64,
    pub swap_deadline_seconds: u64,
    pub early_bird_ticket_percentage: u32,
    pub early_bird_discount_bp: u32,
}

/// A [`RaffleConfig`], with its lists as sequences.
pub struct RaffleConfigView {
    pub description: Seq<u8>,
    pub end_time: u64,
    pub no_deadline: bool,
    pub max_tickets: u32,
    pub max_tickets_per_tx: u32,
    pub min_tickets: u32,
    pub allow_multiple: bool,
    pub ticket_price: i128,
    pub payment_token: Address,
    pub prize_amount: i128,
    pub prizes: Seq<u32>,
    pub randomness_source: RandomnessSource,
    pub oracle_address: Option<Address>,
    pub protocol_fee_bp: u32,
    pub treasury_address: Option<Address>,
    pub swap_router: Option<Address>,
    pub tikka_token: Option<Address>,
    pub metadata_hash: Seq<u8>,
    pub claim_lockup_seconds: u64,
    pub swap_deadline_seconds: u64,
    pub early_bird_ticket_percentage: u32,
    pub early_bird_discount_bp: u32,
}

impl View for RaffleConfig {
    type V = RaffleConfigView;

    open spec fn view(&self) -> RaffleConfigView {
        RaffleConfigView {
            description: self.description@,
            end_time: self.end_time,
            no_deadline: self.no_deadline,
            max_tickets: self.max_tickets,
            max_tickets_per_tx: self.max_tickets_per_tx,
            min_tickets: self.min_tickets,
            allow_multiple: self.allow_multiple,
            ticket_price: self.ticket_price,
            payment_token: self.payment_token,
            prize_amount: self.prize_amount,
            prizes: self.prizes@,
            randomness_source: self.randomness_source,
            oracle_address: self.oracle_address,
            protocol_fee_bp: self.protocol_fee_bp,
            treasury_address: self.treasury_address,
            swap_router: self.swap_router,
            tikka_token: self.tikka_token,
            metadata_hash: self.metadata_hash@,
            claim_lockup_seconds: self.claim_lockup_seconds,
            swap_deadline_seconds: self.swap_deadline_seconds,
            early_bird_ticket_percentage: self.early_bird_ticket_percentage,
            early_bird_discount_bp: self.early_bird_discount_bp,
        }
    }
}

impl RaffleConfigView {
    /// This configuration with its defaults filled in.
    pub open spec fn with_defaults(self) -> RaffleConfigView {
        RaffleConfigView {
            claim_lockup_seconds: if self.claim_lockup_seconds == 0 {
                DEFAULT_CLAIM_LOCKUP_SECONDS
            } else {
                self.claim_lockup_seconds
            },
            swap_deadline_seconds: if self.swap_deadline_seconds == 0 {
                DEFAULT_SWAP_DEADLINE_SECONDS
            } else {
                self.swap_deadline_seconds
            },
            ..self
        }
    }
}

impl RaffleConfig {
    /// Fills in the defaults.
    pub fn resolve_defaults(self) -> (r: RaffleConfig)
        ensures
            r@ == self@.with_defaults(),
    {
        let mut config = self;
        if config.claim_lockup_seconds == 0 {
            config.claim_lockup_seconds = DEFAULT_CLAIM_LOCKUP_SECONDS;
        }
        if config.swap_deadline_seconds == 0 {
            config.swap_deadline_seconds = DEFAULT_SWAP_DEADLINE_SECONDS;
        }
        config
    }
}

/// A raffle.
#[derive(Clone, PartialEq, Eq, Debug)]
pub struct Raffle {
    pub creator: Address,
    pub description: Vec<u8>,
    pub end_time: u64,
    pub no_deadline: bool,
    pub max_tickets: u32,
    pub max_tickets_per_tx: u32,
    pub min_tickets: u32,
    pub allow_multiple: bool,
    pub ticket_price: i128,
    pub payment_token: Address,
    /// The token in which the prize is paid in and out.
    pub prize_token: Address,
    pub prize_amount: i128,
    pub prizes: Vec<u32>,
    pub tickets_sold: u32,
    pub status: RaffleStatus,
    pub prize_deposited: bool,
    pub winners: Vec<Address>,
    pub claimed_winners: Vec<bool>,
    pub randomness_source: RandomnessSource,
    pub oracle_address: Option<Address>,
    pub protocol_fee_bp: u32,
    pub treasury_address: Option<Address>,
    pub swap_router: Option<Address>,
    pub tikka_token: Option<Address>,
    pub finalized_at: Option<u64>,
    pub claim_lockup_seconds: u64,
    pub swap_deadline_seconds: u64,
    pub ticket_sales_paused: bool,
    /// The percentage of the tickets that are sold at the early bird discount.
    pub early_bird_ticket_percentage: u32,
    /// The early bird discount, in basis points.
    pub early_bird_discount_bp: u32,
}

/// A [`Raffle`], with its lists as sequences.
#[verifier::ext_equal]
pub struct RaffleView {
    pub creator: Address,
    pub description: Seq<u8>,
    pub end_time: u64,
    pub no_deadline: bool,
    pub max_tickets: u32,
    pub max_tickets_per_tx: u32,
    pub min_tickets: u32,
    pub allow_multiple: bool,
    pub ticket_price: i128,
    pub payment_token: Address,
    pub prize_token: Address,
    pub prize_amount: i128,
    pub prizes: Seq<u32>,
    pub tickets_sold: u32,
    pub status: RaffleStatus,
    pub prize_deposited: bool,
    pub winners: Seq<Address>,
    pub claimed_winners: Seq<bool>,
    pub randomness_source: RandomnessSource,
    pub oracle_address: Option<Address>,
    pub protocol_fee_bp: u32,
    pub treasury_address: Option<Address>,
    pub swap_router: Option<Address>,
    pub tikka_token: Option<Address>,
    pub finalized_at: Option<u64>,
    pub claim_lockup_seconds: u64,
    pub swap_deadline_seconds: u64,
    pub ticket_sales_paused: bool,
    pub early_bird_ticket_percentage: u32,
    pub early_bird_discount_bp: u32,
}

impl View for Raffle {
    type V = RaffleView;

    open spec fn view(&self) -> RaffleView {
        RaffleView {
            creator: self.creator,
            description: self.description@,
            end_time: self.end_time,
            no_deadline: self.no_deadline,
            max_tickets: self.max_tickets,
            max_tickets_per_tx: self.max_tickets_per_tx,
            min_tickets: self.min_tickets,
            allow_multiple: self.allow_multiple,
            ticket_price: self.ticket_price,
            payment_token: self.payment_token,
            prize_token: self.prize_token,
            prize_amount: self.prize_amount,
            prizes: self.prizes@,
            tickets_sold: self.tickets_sold,
            status: self.status,
            prize_deposited: self.prize_deposited,
            winners: self.winners@,
            claimed_winners: self.claimed_winners@,
            randomness_source: self.randomness_source,
            oracle_address: self.oracle_address,
            protocol_fee_bp: self.protocol_fee_bp,
            treasury_address: self.treasury_address,
            swap_router: self.swap_router,
            tikka_token: self.tikka_token,
            finalized_at: self.finalized_at,
            claim_lockup_seconds: self.claim_lockup_seconds,
            swap_deadline_seconds: self.swap_deadline_seconds,
            ticket_sales_paused: self.ticket_sales_paused,
            early_bird_ticket_percentage: self.early_bird_ticket_percentage,
            early_bird_discount_bp: self.early_bird_discount_bp,
        }
    }
}

impl RaffleView {
    /// The limits that every raffle keeps from its creation on.
    pub open spec fn wf(self) -> bool {
        &&& 0 < self.max_tickets <= MAX_TICKETS_LIMIT
        &&& 0 < self.max_tickets_per_tx <= self.max_tickets
        &&& self.min_tickets <= self.max_tickets
        &&& self.tickets_sold <= self.max_tickets
        &&& MIN_TICKET_PRICE <= self.ticket_price <= self.prize_amount <= MAX_PRIZE_AMOUNT
        &&& 0 < self.prizes.len() <= MAX_PRIZES
        &&& sum_of(self.prizes) == 10000
        &&& self.protocol_fee_bp <= 10000
        &&& self.claim_lockup_seconds <= MAX_CLAIM_LOCKUP_SECONDS
        &&& self.swap_deadline_seconds <= MAX_SWAP_DEADLINE_SECONDS
        &&& self.early_bird_ticket_percentage <= 100
        &&& self.early_bird_ticket_percentage > 0 ==> self.early_bird_discount_bp <= 10000
        &&& self.winners.len() == self.claimed_winners.len()
        &&& self.winners.len() == 0 || self.winners.len() == self.prizes.len()
        &&& self.status is Finalized || self.status is Claimed ==> self.winners.len()
            == self.prizes.len() && self.finalized_at is Some
    }
}

/// The record of a draw.
#[derive(Clone, PartialEq, Eq, Debug)]
pub struct FairnessMetadata {
    pub seed: u64,
    pub randomness_source: RandomnessSource,
    pub winning_ticket_indices: Vec<u32>,
    pub draw_timestamp: u64,
    pub draw_sequence: u32,
}

/// A [`FairnessMetadata`], with its list as a sequence.
#[verifier::ext_equal]
pub struct FairnessMetadataView {
    pub seed: u64,
    pub randomness_source: RandomnessSource,
    pub winning_ticket_indices: Seq<u32>,
    pub draw_timestamp: u64,
    pub draw_sequence: u32,
}

impl View for FairnessMetadata {
    type V = FairnessMetadataView;

    open spec fn view(&self) -> FairnessMetadataView {
        FairnessMetadataView {
            seed: self.seed,
            randomness_source: self.randomness_source,
            winning_ticket_indices: self.winning_ticket_indices@,
            draw_timestamp: self.draw_timestamp,
            draw_sequence: self.draw_sequence,
        }
    }
}

/// What anybody needs to check a draw.
#[derive(Clone, PartialEq, Eq, Debug)]
pub struct FairnessData {
    pub seed: u64,
    pub randomness_source: RandomnessSource,
    pub ticket_ids: Vec<u32>,
    pub winning_ticket_indices: Vec<u32>,
    pub draw_timestamp: u64,
    pub draw_sequence: u32,
}

/// A [`FairnessData`], with its lists as sequences.
#[verifier::ext_equal]
pub struct FairnessDataView {
    pub seed: u64,
    pub randomness_source: RandomnessSource,
    pub ticket_ids: Seq<u32>,
    pub winning_ticket_indices: Seq<u32>,
    pub draw_timestamp: u64,
    pub draw_sequence: u32,
}

impl View for FairnessData {
    type V = FairnessDataView;

    open spec fn view(&self) -> FairnessDataView {
        FairnessDataView {
            seed: self.seed,
            randomness_source: self.randomness_source,
            ticket_ids: self.ticket_ids@,
            winning_ticket_indices: self.winning_ticket_indices@,
            draw_timestamp: self.draw_timestamp,
            draw_sequence: self.draw_sequence,
        }
    }
}

} // verus!
