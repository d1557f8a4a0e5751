//! Why calls are refused: the reason that a caller is given for each thing that stands in
//! the way, where nothing else does.

use crate::action::ActionView;
use crate::address::Address;
use crate::admin::{
    cancel_outcome, emergency_outcome, pause_sales_outcome, rescue_outcome, set_admin_outcome,
    set_protocol_fee_bp_outcome, set_swap_deadline_outcome, update_oracle_address_outcome,
    wipe_outcome, withdraw_fees_outcome,
};
use crate::draw::{end_of_sale_outcome, provide_randomness_outcome, trigger_fallback_outcome};
use crate::error::Error;
use crate::helpers::tier_prize;
use crate::laws::{in_order, outcome_of, Call};
use crate::payout::{
    batch_refund_tickets_outcome, claim_prize_outcome, execute_admin_cancel_outcome,
    refund_prize_outcome, refund_ticket_outcome, MAX_BATCH_REFUND,
};
use crate::setup::{deposit_prize_outcome, init_outcome};
use crate::store::{FrameView, StoreView};
use crate::tickets::{sale_outcome, submit_commit_outcome};
use crate::types::{CancelReason, RaffleConfigView};
use crate::{MAX_PRIZES, MAX_PROTOCOL_FEE_BP, MAX_SWAP_DEADLINE_SECONDS, ORACLE_TIMEOUT_LEDGERS};
use vstd::prelude::*;

verus! {

/// Whether a raffle can still be called off: it has not been drawn, claimed or called off.
pub open spec fn is_open(store: StoreView) -> bool {
    store.raffle->0.status is PendingPrize || store.raffle->0.status is Active
        || store.raffle->0.status is Drawing || store.raffle->0.status is Failed
}

/// Before a raffle is created nothing but its creation, and the office of the standing
/// administrator, can succeed.
pub proof fn nothing_works_without_a_raffle(f: FrameView, call: Call)
    requires
        in_order(f.store),
        f.store.raffle is None,
        !(call is Init) && !(call is SetAdmin),
    ensures
        outcome_of(f, call).0 is Some,
        outcome_of(f, call).1.store == f.store,
        call is DepositPrize || call is SubmitCommit || call is FinalizeRaffle || call is ClaimPrize
            || call is CancelRaffle || call is RefundPrize || call is RefundTicket
            || call is BatchRefundTickets || call is PauseTicketSales || call is ResumeTicketSales
            || call is EmergencyWithdraw ==> outcome_of(f, call).0 == Some(Error::NotInitialized),
{
}

/// Why a prize is not paid out.
pub proof fn claims_are_refused(f: FrameView, winner: Address, tier_index: u32)
    requires
        in_order(f.store),
        f.store.raffle is Some,
    ensures
        ({
            let raffle = f.store.raffle->0;
            let tier = tier_index as int;
            let r = claim_prize_outcome(f, winner, tier_index).0;
            let open = f.ledger.timestamp >= raffle.finalized_at->0 + raffle.claim_lockup_seconds;
            &&& raffle.status !is Finalized ==> r == Err::<i128, Error>(Error::InvalidStatus)
            &&& raffle.status is Finalized ==> {
                &&& !open ==> r == Err::<i128, Error>(Error::ClaimTooEarly)
                &&& open && tier >= raffle.prizes.len() ==> r == Err::<i128, Error>(
                    Error::InvalidParameters,
                )
                &&& open && tier < raffle.prizes.len() ==> {
                    &&& raffle.winners[tier] != winner ==> r == Err::<i128, Error>(Error::NotWinner)
                    &&& raffle.winners[tier] == winner && raffle.claimed_winners[tier] ==> r
                        == Err::<i128, Error>(Error::PrizeAlreadyClaimed)
                    &&& raffle.winners[tier] == winner && !raffle.claimed_winners[tier]
                        && tier_prize(raffle, tier) == 0 ==> r == Err::<i128, Error>(
                        Error::ZeroPrize,
                    )
                }
            }
        }),
{
}

/// Why a call that must not be entered again is refused while one is in progress.
pub proof fn guarded_calls_are_not_entered_again(
    f: FrameView,
    winner: Address,
    tier_index: u32,
    ticket_id: u32,
    ids: Seq<u32>,
)
    requires
        f.store.reentrancy_guard,
    ensures
        claim_prize_outcome(f, winner, tier_index).0 == Err::<i128, Error>(Error::Reentrancy),
        refund_ticket_outcome(f, ticket_id).0 is Err,
        batch_refund_tickets_outcome(f, winner, ids).0 == Err::<i128, Error>(Error::Reentrancy),
        claim_prize_outcome(f, winner, tier_index).1.store == f.store,
        refund_ticket_outcome(f, ticket_id).1.store == f.store,
        batch_refund_tickets_outcome(f, winner, ids).1.store == f.store,
{
}

/// Why tickets are not sold.
pub proof fn purchases_are_refused(f: FrameView, buyer: Address, quantity: u32, early_bird: bool)
    requires
        in_order(f.store),
        f.store.raffle is Some,
    ensures
        ({
            let raffle = f.store.raffle->0;
            let r = sale_outcome(f, buyer, quantity, early_bird).0;
            let asked = 0 < quantity <= raffle.max_tickets_per_tx;
            let on_sale = raffle.status is Active && !f.store.paused && !raffle.ticket_sales_paused
                && asked;
            let in_time = raffle.no_deadline || f.ledger.timestamp <= raffle.end_time;
            let left = raffle.tickets_sold + quantity <= raffle.max_tickets;
            &&& raffle.status is Drawing ==> r == Err::<u32, Error>(Error::DrawingAlreadyInProgress)
            &&& raffle.status !is Drawing && quantity == 0 ==> r == Err::<u32, Error>(
                Error::InvalidQuantity,
            )
            &&& raffle.status !is Drawing && quantity > raffle.max_tickets_per_tx ==> r == Err::<
                u32,
                Error,
            >(Error::ExceedsMaxTicketsPerTx)
            &&& raffle.status !is Drawing && asked && f.store.paused ==> r == Err::<u32, Error>(
                Error::ContractPaused,
            )
            &&& raffle.status !is Drawing && raffle.status !is Active && asked && !f.store.paused
                ==> r == Err::<u32, Error>(Error::RaffleInactive)
            &&& raffle.status is Active && asked && raffle.ticket_sales_paused ==> r == Err::<
                u32,
                Error,
            >(Error::ContractPaused)
            &&& on_sale && !in_time ==> r == Err::<u32, Error>(Error::RaffleExpired)
            &&& on_sale && in_time && !left ==> r == Err::<u32, Error>(Error::TicketsSoldOut)
            &&& on_sale && in_time && left && !raffle.allow_multiple && (quantity > 1
                || f.store.count_of(buyer) > 0) ==> r == Err::<u32, Error>(
                Error::MultipleTicketsNotAllowed,
            )
        }),
{
}

/// Why tickets and the prize are not paid back.
pub proof fn refunds_are_refused(f: FrameView, ticket_id: u32, owner: Address, ids: Seq<u32>)
    requires
        in_order(f.store),
        f.store.raffle is Some,
    ensures
        ({
            let raffle = f.store.raffle->0;
            let ended = raffle.status is Failed || raffle.status is Cancelled;
            let open = ended || f.store.pending_admin_cancel is Some;
            let r = refund_ticket_outcome(f, ticket_id).0;
            let b = batch_refund_tickets_outcome(f, owner, ids).0;
            let p = refund_prize_outcome(f).0;
            &&& !open ==> r == Err::<i128, Error>(Error::InvalidStatus)
            &&& open && !(1 <= ticket_id <= raffle.tickets_sold) ==> r == Err::<i128, Error>(
                Error::TicketNotFound,
            )
            &&& open && f.store.refunded.contains(ticket_id) ==> r == Err::<i128, Error>(
                Error::PrizeAlreadyClaimed,
            )
            &&& !ended ==> b == Err::<i128, Error>(Error::InvalidStatus)
            &&& ended && ids.len() > MAX_BATCH_REFUND ==> b == Err::<i128, Error>(
                Error::InvalidParameters,
            )
            &&& !ended ==> p == Err::<(), Error>(Error::InvalidStatus)
            &&& ended && !raffle.prize_deposited ==> p == Err::<(), Error>(Error::PrizeNotDeposited)
        }),
{
}

/// Why one ticket among several cannot be given back: the first one that does not exist or
/// belongs to somebody else decides.
pub proof fn batches_are_refused(f: FrameView, owner: Address, ids: Seq<u32>, k: int)
    requires
        in_order(f.store),
        f.store.raffle is Some,
        f.store.raffle->0.status is Failed || f.store.raffle->0.status is Cancelled,
        0 <= k < ids.len() <= MAX_BATCH_REFUND,
        forall|i: int|
            0 <= i < k ==> 1 <= #[trigger] ids[i] <= f.store.raffle->0.tickets_sold
                && f.store.tickets[ids[i]].owner == owner,
    ensures
        !(1 <= ids[k] <= f.store.raffle->0.tickets_sold) ==> batch_refund_tickets_outcome(
            f,
            owner,
            ids,
        ).0 == Err::<i128, Error>(Error::TicketNotFound),
        1 <= ids[k] <= f.store.raffle->0.tickets_sold && f.store.tickets[ids[k]].owner != owner
            ==> batch_refund_tickets_outcome(f, owner, ids).0 == Err::<i128, Error>(
            Error::NotAuthorized,
        ),
{
    lemma_first_refusal(f.store, owner, ids, k);
}

proof fn lemma_first_refusal(store: StoreView, owner: Address, ids: Seq<u32>, k: int)
    requires
        in_order(store),
        store.raffle is Some,
        0 <= k <= ids.len(),
        forall|i: int|
            0 <= i < k ==> 1 <= #[trigger] ids[i] <= store.raffle->0.tickets_sold
                && store.tickets[ids[i]].owner == owner,
    ensures
        ({
            let refusal = crate::payout::batch_refusal(store.tickets, owner, ids);
            &&& k == ids.len() ==> refusal is None
            &&& k < ids.len() && !(1 <= ids[k] <= store.raffle->0.tickets_sold) ==> refusal == Some(
                Error::TicketNotFound,
            )
            &&& k < ids.len() && 1 <= ids[k] <= store.raffle->0.tickets_sold
                && store.tickets[ids[k]].owner != owner ==> refusal == Some(Error::NotAuthorized)
        }),
    decreases ids.len(),
{
    if ids.len() > 0 {
        let fewer = ids.drop_last();
        assert forall|i: int| 0 <= i < k && i < fewer.len() implies 1 <= #[trigger] fewer[i]
            <= store.raffle->0.tickets_sold && store.tickets[fewer[i]].owner == owner by {
            assert(fewer[i] == ids[i]);
        }
        if k < ids.len() {
            lemma_first_refusal(store, owner, fewer, k);
        } else {
            lemma_first_refusal(store, owner, fewer, k - 1);
            assert(1 <= ids[k - 1]);
        }
        assert(store.tickets.contains_key(ids.last()) == (1 <= ids.last()
            <= store.raffle->0.tickets_sold));
    }
}

/// Why a raffle is not drawn.
pub proof fn draws_are_refused(
    f: FrameView,
    random_seed: u64,
    public_key: Seq<u8>,
    signature: Seq<u8>,
    request_id: u64,
    caller: Address,
    do_refund: bool,
)
    requires
        in_order(f.store),
        f.store.raffle is Some,
    ensures
        ({
            let raffle = f.store.raffle->0;
            let drawing = raffle.status is Drawing;
            let asked_at = match f.store.randomness_request_ledger {
                Some(sequence) => sequence,
                None => 0,
            };
            let managed = caller == raffle.creator || f.store.admin == Some(caller);
            let e = end_of_sale_outcome(f, true).0;
            let p = provide_randomness_outcome(
                f,
                random_seed,
                public_key,
                signature,
                request_id,
            ).0;
            let t = trigger_fallback_outcome(f, caller, do_refund).0;
            &&& raffle.status !is Active && !drawing ==> e == Err::<(), Error>(Error::InvalidStatus)
            &&& raffle.status is Active && raffle.tickets_sold < raffle.max_tickets && (
            raffle.no_deadline || f.ledger.timestamp < raffle.end_time) ==> e == Err::<(), Error>(
                Error::InvalidStateTransition,
            )
            &&& drawing && raffle.randomness_source is External && f.store.randomness_requested ==> e
                == Err::<(), Error>(Error::RandomnessAlreadyRequested)
            &&& !drawing ==> p == Err::<Address, Error>(Error::DrawingAlreadyComplete) && t == Err::<
                (),
                Error,
            >(Error::DrawingAlreadyComplete)
            &&& drawing && raffle.oracle_address is None ==> p == Err::<Address, Error>(
                Error::OracleNotSet,
            )
            &&& drawing && raffle.oracle_address is Some && !f.store.randomness_requested ==> p
                == Err::<Address, Error>(Error::NoRandomnessRequest)
            &&& drawing && raffle.oracle_address is Some && f.store.randomness_requested
                && f.store.randomness_request_id is Some && f.store.randomness_request_id != Some(
                request_id,
            ) ==> p == Err::<Address, Error>(Error::InvalidParameters)
            &&& drawing && !managed ==> t == Err::<(), Error>(Error::NotAuthorized)
            &&& drawing && managed && !f.store.randomness_requested ==> t == Err::<(), Error>(
                Error::NoRandomnessRequest,
            )
            &&& drawing && managed && f.store.randomness_requested && f.ledger.sequence < asked_at
                + ORACLE_TIMEOUT_LEDGERS ==> t == Err::<(), Error>(Error::FallbackTooEarly)
        }),
{
}

/// Why a raffle is not called off, and why its prize is not taken back in an emergency.
pub proof fn endings_are_refused(f: FrameView, reason: CancelReason, caller: Address)
    requires
        in_order(f.store),
        f.store.raffle is Some,
    ensures
        ({
            let raffle = f.store.raffle->0;
            let managed = caller == raffle.creator || f.store.admin == Some(caller);
            let x = execute_admin_cancel_outcome(f).0;
            let m = emergency_outcome(f, caller, true).0;
            &&& !is_open(f.store) ==> cancel_outcome(f, reason).0 == Err::<(), Error>(
                Error::InvalidStatus,
            )
            &&& f.store.pending_admin_cancel is None ==> x == Err::<(), Error>(
                Error::CancelNotScheduled,
            )
            &&& f.store.pending_admin_cancel is Some && !is_open(f.store) ==> x == Err::<(), Error>(
                Error::InvalidStatus,
            )
            &&& f.store.pending_admin_cancel is Some && is_open(f.store) && f.ledger.timestamp
                < f.store.pending_admin_cancel->0 ==> x == Err::<(), Error>(
                Error::CancelTimelockActive,
            )
            &&& !raffle.prize_deposited ==> m == Err::<(), Error>(Error::PrizeNotDeposited)
            &&& raffle.prize_deposited && !managed ==> m == Err::<(), Error>(Error::NotAuthorized)
            &&& raffle.prize_deposited && managed && raffle.status !is Finalized
                && raffle.status !is Drawing ==> m == Err::<(), Error>(Error::InvalidStatus)
            &&& raffle.prize_deposited && managed && (raffle.status is Finalized
                || raffle.status is Drawing) && m is Err ==> m == Err::<(), Error>(
                Error::EmergencyTooEarly,
            )
        }),
{
}

/// Why the settings of a raffle are not changed and fees are not paid out.
pub proof fn settings_are_refused(
    f: FrameView,
    new_admin: Address,
    exists_on_ledger: bool,
    new_oracle: Address,
    fee_bp: u32,
    deadline_seconds: u64,
    recipient: Address,
    amount: i128,
)
    requires
        in_order(f.store),
        f.store.raffle is Some,
    ensures
        ({
            let raffle = f.store.raffle->0;
            let a = set_admin_outcome(f, new_admin, exists_on_ledger).0;
            let o = update_oracle_address_outcome(f, new_oracle).0;
            let p = set_protocol_fee_bp_outcome(f, fee_bp).0;
            let d = set_swap_deadline_outcome(f, deadline_seconds).0;
            let w = withdraw_fees_outcome(f, recipient, amount).0;
            let drawn = raffle.status is Finalized || raffle.status is Claimed;
            &&& f.store.standing_admin is None ==> {
                let refused = Err::<(), Error>(Error::NotAuthorized);
                a == refused && o == refused && p == refused && d == refused && w == refused
            }
            &&& f.store.standing_admin is Some ==> {
                &&& a is Err ==> a == Err::<(), Error>(Error::InvalidAdminAddress)
                &&& raffle.randomness_source !is External || new_oracle == f.ledger.contract ==> o
                    == Err::<(), Error>(Error::InvalidParameters)
                &&& raffle.randomness_source is External && new_oracle != f.ledger.contract
                    && !is_open(f.store) ==> o == Err::<(), Error>(Error::InvalidStatus)
                &&& fee_bp > MAX_PROTOCOL_FEE_BP ==> p == Err::<(), Error>(Error::InvalidParameters)
                &&& fee_bp <= MAX_PROTOCOL_FEE_BP && raffle.tickets_sold > 0 ==> p == Err::<
                    (),
                    Error,
                >(Error::InvalidStatus)
                &&& deadline_seconds > MAX_SWAP_DEADLINE_SECONDS ==> d == Err::<(), Error>(
                    Error::InvalidParameters,
                )
                &&& deadline_seconds <= MAX_SWAP_DEADLINE_SECONDS && raffle.tickets_sold > 0 ==> d
                    == Err::<(), Error>(Error::InvalidStatus)
                &&& !drawn ==> w == Err::<(), Error>(Error::InvalidStatus)
                &&& drawn && amount <= 0 ==> w == Err::<(), Error>(Error::InvalidParameters)
                &&& drawn && amount > 0 && amount > f.store.accumulated_fees ==> w == Err::<
                    (),
                    Error,
                >(Error::InsufficientAccumulatedFees)
            }
        }),
{
}

/// Why a prize is not taken in, a hash is not kept, the sale is not paused, strays are not
/// taken out and a raffle is not wiped out.
pub proof fn services_are_refused(
    f: FrameView,
    ticket_id: u32,
    hash: [u8; 32],
    caller: Address,
    paused: bool,
    token: Address,
    amount: i128,
)
    requires
        in_order(f.store),
        f.store.raffle is Some,
    ensures
        ({
            let raffle = f.store.raffle->0;
            let d = deposit_prize_outcome(f).0;
            let h = submit_commit_outcome(f, ticket_id, hash).0;
            let s = pause_sales_outcome(f, caller, paused).0;
            let r = rescue_outcome(f, token, caller, amount, true).0;
            let w = wipe_outcome(f, true).0;
            let managed = caller == raffle.creator || f.store.admin == Some(caller);
            let runs = raffle.status is Active || raffle.status is Drawing;
            &&& f.store.paused ==> d == Err::<(), Error>(Error::ContractPaused)
            &&& !f.store.paused && raffle.prize_deposited ==> d == Err::<(), Error>(
                Error::PrizeAlreadyDeposited,
            )
            &&& raffle.randomness_source !is CommitReveal ==> h == Err::<(), Error>(
                Error::InvalidParameters,
            )
            &&& raffle.randomness_source is CommitReveal && !runs ==> h == Err::<(), Error>(
                Error::InvalidStatus,
            )
            &&& raffle.randomness_source is CommitReveal && runs && !(1 <= ticket_id
                <= raffle.tickets_sold) ==> h == Err::<(), Error>(Error::TicketNotFound)
            &&& !managed ==> s == Err::<(), Error>(Error::NotAuthorized)
            &&& managed && raffle.status !is Active ==> s == Err::<(), Error>(Error::InvalidStatus)
            &&& r is Err ==> r == Err::<(), Error>(Error::InvalidParameters)
            &&& w is Err ==> w == Err::<(), Error>(Error::InvalidStatus)
        }),
{
}

/// Why a raffle is not created: there is one, its numbers of tickets contradict each
/// other, it has too many tiers, or something else in what is asked for is out of bounds.
pub proof fn creations_are_refused(
    f: FrameView,
    factory: Address,
    admin: Address,
    creator: Address,
    c: RaffleConfigView,
)
    ensures
        ({
            let r = init_outcome(f, factory, admin, creator, c).0;
            &&& f.store.raffle is Some ==> r == Err::<(), Error>(Error::AlreadyInitialized)
            &&& f.store.raffle is None && r is Err ==> {
                ||| r == Err::<(), Error>(Error::InvalidParameters)
                ||| r == Err::<(), Error>(Error::InvalidTicketRange) && c.max_tickets < c.min_tickets
                ||| r == Err::<(), Error>(Error::TooManyPrizes) && c.prizes.len() > MAX_PRIZES
            }
            &&& r == Err::<(), Error>(Error::InvalidParameters) && c.max_tickets < c.min_tickets ==> {
                ||| c.description.len() > crate::MAX_DESCRIPTION_LENGTH
                ||| c.no_deadline && c.end_time != 0
                ||| !c.no_deadline && c.end_time <= f.ledger.timestamp
                ||| c.max_tickets == 0 || c.max_tickets > crate::MAX_TICKETS_LIMIT
            }
            &&& r == Err::<(), Error>(Error::InvalidParameters) && c.prizes.len() > MAX_PRIZES ==> {
                ||| c.description.len() > crate::MAX_DESCRIPTION_LENGTH
                ||| c.no_deadline && c.end_time != 0
                ||| !c.no_deadline && c.end_time <= f.ledger.timestamp
                ||| c.max_tickets == 0 || c.max_tickets > crate::MAX_TICKETS_LIMIT
                ||| c.max_tickets_per_tx == 0 || c.max_tickets_per_tx > c.max_tickets
                ||| c.ticket_price < crate::MIN_TICKET_PRICE
                ||| c.prize_amount < c.ticket_price || c.prize_amount > crate::MAX_PRIZE_AMOUNT
            }
        }),
{
}

/// The host's refusals have their reasons too: an address that is no token and a payment
/// that a token refuses are told as such, and any other refusal aborts the call.
pub proof fn the_hosts_refusals_are_told(action: ActionView)
    ensures
        action is CheckToken ==> action.error_if_refused() == Some(Error::InvalidTokenAddress),
        action is TryTransfer ==> action.error_if_refused() == Some(Error::TokenTransferFailed),
        !(action is CheckToken) && !(action is TryTransfer) ==> action.error_if_refused() is None,
{
}

} // verus!
