//! The rules of a raffle contract.
//!
//! A creator sets a raffle up and pays a prize in, tickets are sold, winners are drawn
//! from a seed, and each tier of winners claims its share of the prize. If the raffle
//! is called off or too few tickets are sold, the prize and the price of the tickets
//! go back.
//!
//! The library decides and the host acts. A call works on a [`store::Frame`]: the
//! ledger that it runs in, the contract's memory, and the list of actions
//! ([`action::Action`]) that it has the host carry out. What a call comes to is stated
//! by a function from the frame before it to its result and the frame after it, such as
//! [`setup::init_outcome`] for [`contract::Contract::init`].
//!
//! * [`contract`], [`setup`] and [`payout`] hold the calls;
//! * [`tickets`], [`draw`], [`admin`] and [`helpers`] hold what they are made of;
//! * [`randomness`], [`sampling`] and [`lcg`] choose the winners;
//! * [`laws`] and [`promises`] state what holds of all calls together;
//! * [`duties`], [`offices`] and [`refusals`] state what each call owes: when it
//!   succeeds, what it then does, and why it is refused if it is;
//! * [`host`] holds the calls into the Soroban host that are believed and not proved.

use vstd::prelude::*;

pub mod action;
pub mod admin;
pub mod address;
pub mod bytes;
pub mod contract;
pub mod draw;
pub mod duties;
pub mod error;
pub mod helpers;
pub mod host;
pub mod laws;
pub mod lcg;
pub mod offices;
pub mod payout;
pub mod promises;
pub mod randomness;
pub mod refusals;
pub mod sampling;
pub mod setup;
pub mod store;
pub mod table;
pub mod tickets;
pub mod types;

verus! {

/// How many ledgers an oracle has to deliver its seed.
pub const ORACLE_TIMEOUT_LEDGERS: u32 = 200;
/// The longest description, in bytes.
pub const MAX_DESCRIPTION_LENGTH: u32 = 1000;
/// The most tickets that a raffle can have.
pub const MAX_TICKETS_LIMIT: u32 = 100_000;
/// The most tiers that a prize can be shared among.
pub const MAX_PRIZES: u32 = 100;
/// The lowest price of a ticket.
pub const MIN_TICKET_PRICE: i128 = 10_000;
/// The highest prize.
pub const MAX_PRIZE_AMOUNT: i128 = 1_000_000_000_000_000_000_000;
/// How long after the draw claims wait unless the creator says otherwise.
pub const DEFAULT_CLAIM_LOCKUP_SECONDS: u64 = 3_600;
/// The longest that claims can be made to wait after the draw.
pub const MAX_CLAIM_LOCKUP_SECONDS: u64 = 604_800;
/// How long a swap may take unless the creator says otherwise.
pub const DEFAULT_SWAP_DEADLINE_SECONDS: u64 = 300;
/// The longest that a swap can be allowed to take.
pub const MAX_SWAP_DEADLINE_SECONDS: u64 = 3_600;
/// How long the prize stays before it can be withdrawn in an emergency: ninety days.
pub const EMERGENCY_WITHDRAW_DELAY_SECONDS: u64 = 7_776_000;
/// How long a cancellation by the administrator is announced before it can be carried
/// out: one day.
pub const ADMIN_CANCEL_DELAY_SECONDS: u64 = 86_400;
/// The highest fee that an administrator can set, in basis points.
pub const MAX_PROTOCOL_FEE_BP: u32 = 2_000;

} // verus!
