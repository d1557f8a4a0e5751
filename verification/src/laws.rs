//! What holds of the contract as a whole, whatever calls are made in whatever order.

use crate::action::ActionView;
use crate::address::Address;
use crate::admin::{
    cancel_outcome, emergency_outcome, pause_outcome, pause_sales_outcome, rescue_outcome,
    set_admin_outcome, set_protocol_fee_bp_outcome, set_swap_deadline_outcome,
    update_oracle_address_outcome, wipe_outcome, wiped, withdraw_fees_outcome,
};
use crate::draw::{
    draw_news, draw_seed, end_of_sale_outcome, provide_randomness_outcome, too_few_sold,
    trigger_fallback_outcome,
};
use crate::error::Error;
use crate::helpers::{
    finalized_frame, ledger_seed, transition_to_drawing_outcome, winners_of, winners_refusal,
    winning_tickets,
};
use crate::payout::{
    batch_refund_tickets_outcome, claim_prize_outcome, execute_admin_cancel_outcome,
    lemma_batch_exists, refund_prize_outcome, refund_ticket_outcome,
};
use crate::sampling::winners_are_distinct_tickets;
use crate::setup::{deposit_prize_outcome, init_outcome};
use crate::store::{FrameView, Ledger, StoreView};
use crate::tickets::{
    fee_of, lemma_costs, new_ticket_ids, sale_outcome, sold_to, submit_commit_outcome,
};
use crate::types::{
    CancelReason, RaffleConfigView, RaffleStatus, RaffleView, RandomnessType, Ticket,
};
use vstd::prelude::*;

verus! {

/// A call of the contract that may change something.
pub enum Call {
    Init { factory: Address, admin: Address, creator: Address, config: RaffleConfigView },
    DepositPrize,
    BuyTickets { buyer: Address, quantity: u32 },
    SubmitCommit { ticket_id: u32, hash: [u8; 32] },
    FinalizeRaffle,
    ProvideRandomness {
        random_seed: u64,
        public_key: Seq<u8>,
        proof: Seq<u8>,
        request_id: u64,
    },
    TriggerRandomnessFallback { caller: Address, do_refund: bool },
    ClaimPrize { winner: Address, tier_index: u32 },
    WithdrawFees { recipient: Address, amount: i128 },
    CancelRaffle { reason: CancelReason },
    ExecuteAdminCancel,
    RefundPrize,
    EmergencyWithdraw { caller: Address },
    RefundTicket { ticket_id: u32 },
    BatchRefundTickets { owner: Address, ticket_ids: Seq<u32> },
    WipeStorage,
    Pause,
    Unpause,
    SetAdmin { new_admin: Address, exists_on_ledger: bool },
    PauseTicketSales { caller: Address },
    ResumeTicketSales { caller: Address },
    RescueTokens { token: Address, recipient: Address, amount: i128 },
    UpdateOracleAddress { new_oracle: Address },
    SetProtocolFeeBp { new_fee_bp: u32 },
    SetSwapDeadline { new_deadline_seconds: u64 },
}

/// Why a call was refused, if it was.
pub open spec fn refusal_in<T>(outcome: (Result<T, Error>, FrameView)) -> Option<Error> {
    match outcome.0 {
        Ok(_) => None,
        Err(e) => Some(e),
    }
}

/// What a call comes to: why it is refused, if it is, and the frame after it.
pub open spec fn outcome_of(f: FrameView, call: Call) -> (Option<Error>, FrameView) {
    match call {
        Call::Init { factory, admin, creator, config } => {
            let o = init_outcome(f, factory, admin, creator, config);
            (refusal_in(o), o.1)
        },
        Call::DepositPrize => {
            let o = deposit_prize_outcome(f);
            (refusal_in(o), o.1)
        },
        Call::BuyTickets { buyer, quantity } => {
            let o = sale_outcome(f, buyer, quantity, true);
            (refusal_in(o), o.1)
        },
        Call::SubmitCommit { ticket_id, hash } => {
            let o = submit_commit_outcome(f, ticket_id, hash);
            (refusal_in(o), o.1)
        },
        Call::FinalizeRaffle => {
            let o = end_of_sale_outcome(f, true);
            (refusal_in(o), o.1)
        },
        Call::ProvideRandomness { random_seed, public_key, proof, request_id } => {
            let o = provide_randomness_outcome(f, random_seed, public_key, proof, request_id);
            (refusal_in(o), o.1)
        },
        Call::TriggerRandomnessFallback { caller, do_refund } => {
            let o = trigger_fallback_outcome(f, caller, do_refund);
            (refusal_in(o), o.1)
        },
        Call::ClaimPrize { winner, tier_index } => {
            let o = claim_prize_outcome(f, winner, tier_index);
            (refusal_in(o), o.1)
        },
        Call::WithdrawFees { recipient, amount } => {
            let o = withdraw_fees_outcome(f, recipient, amount);
            (refusal_in(o), o.1)
        },
        Call::CancelRaffle { reason } => {
            let o = cancel_outcome(f, reason);
            (refusal_in(o), o.1)
        },
        Call::ExecuteAdminCancel => {
            let o = execute_admin_cancel_outcome(f);
            (refusal_in(o), o.1)
        },
        Call::RefundPrize => {
            let o = refund_prize_outcome(f);
            (refusal_in(o), o.1)
        },
        Call::EmergencyWithdraw { caller } => {
            let o = emergency_outcome(f, caller, true);
            (refusal_in(o), o.1)
        },
        Call::RefundTicket { ticket_id } => {
            let o = refund_ticket_outcome(f, ticket_id);
            (refusal_in(o), o.1)
        },
        Call::BatchRefundTickets { owner, ticket_ids } => {
            let o = batch_refund_tickets_outcome(f, owner, ticket_ids);
            (refusal_in(o), o.1)
        },
        Call::WipeStorage => {
            let o = wipe_outcome(f, true);
            (refusal_in(o), o.1)
        },
        Call::Pause => {
            let o = pause_outcome(f, true);
            (refusal_in(o), o.1)
        },
        Call::Unpause => {
            let o = pause_outcome(f, false);
            (refusal_in(o), o.1)
        },
        Call::SetAdmin { new_admin, exists_on_ledger } => {
            let o = set_admin_outcome(f, new_admin, exists_on_ledger);
            (refusal_in(o), o.1)
        },
        Call::PauseTicketSales { caller } => {
            let o = pause_sales_outcome(f, caller, true);
            (refusal_in(o), o.1)
        },
        Call::ResumeTicketSales { caller } => {
            let o = pause_sales_outcome(f, caller, false);
            (refusal_in(o), o.1)
        },
        Call::RescueTokens { token, recipient, amount } => {
            let o = rescue_outcome(f, token, recipient, amount, true);
            (refusal_in(o), o.1)
        },
        Call::UpdateOracleAddress { new_oracle } => {
            let o = update_oracle_address_outcome(f, new_oracle);
            (refusal_in(o), o.1)
        },
        Call::SetProtocolFeeBp { new_fee_bp } => {
            let o = set_protocol_fee_bp_outcome(f, new_fee_bp);
            (refusal_in(o), o.1)
        },
        Call::SetSwapDeadline { new_deadline_seconds } => {
            let o = set_swap_deadline_outcome(f, new_deadline_seconds);
            (refusal_in(o), o.1)
        },
    }
}

/// Whether an action can make the call fail before anything is done: the
/// confirmation of an address, the question to a token or the check of a signature.
pub open spec fn is_check(action: ActionView) -> bool {
    action is RequireAuth || action is CheckToken || action is CheckProof
}

/// Whether a frame has become another by a call that was refused for `refusal`, if
/// it was: the ledger is the same, no action was taken back, and a refusal left the
/// memory as it was and had the host do nothing but check.
pub open spec fn is_tidy(before: FrameView, refusal: Option<Error>, after: FrameView) -> bool {
    &&& after.ledger == before.ledger
    &&& before.actions.len() <= after.actions.len()
    &&& forall|i: int|
        0 <= i < before.actions.len() ==> #[trigger] after.actions[i] == before.actions[i]
    &&& refusal is Some ==> {
        &&& after.store == before.store
        &&& forall|i: int|
            before.actions.len() <= i < after.actions.len() ==> is_check(
                #[trigger] after.actions[i],
            )
    }
}

/// Whether a list holds exactly the numbers of somebody's tickets, in ascending
/// order.
pub open spec fn lists_tickets_of(tickets: Map<u32, Ticket>, owner: Address, ids: Seq<u32>) -> bool {
    &&& forall|i: int|
        0 <= i < ids.len() ==> tickets.contains_key(#[trigger] ids[i]) && tickets[ids[i]].owner
            == owner
    &&& forall|i: int, j: int| 0 <= i < j < ids.len() ==> ids[i] < ids[j]
    &&& forall|id: u32| #[trigger]
        tickets.contains_key(id) && tickets[id].owner == owner ==> ids.contains(id)
}

/// Whether the books of the sale agree: the tickets are numbered from one to the
/// number of tickets sold, everybody's count and entry in the index are right, the
/// buyers are listed once each, and only sold tickets are refunded or have a hash.
pub open spec fn books_agree(store: StoreView) -> bool {
    &&& forall|id: u32| #[trigger]
        store.tickets.contains_key(id) <==> 1 <= id <= store.raffle->0.tickets_sold
    &&& forall|id: u32| #[trigger]
        store.tickets.contains_key(id) ==> store.tickets[id].id == id
            && store.tickets[id].ticket_number == id
    &&& forall|a: Address|
        lists_tickets_of(store.tickets, a, #[trigger] store.tickets_of(a)) && store.count_of(a)
            == store.tickets_of(a).len()
    &&& forall|a: Address| #[trigger]
        store.ticket_buyers.contains(a) <==> store.ticket_counts.contains_key(a)
    &&& forall|a: Address| #[trigger]
        store.owner_tickets.contains_key(a) ==> store.ticket_counts.contains_key(a)
    &&& forall|a: Address| #[trigger]
        store.ticket_counts.contains_key(a) ==> store.ticket_counts[a] > 0
    &&& store.ticket_buyers.no_duplicates()
    &&& forall|id: u32| #[trigger] store.refunded.contains(id) ==> store.tickets.contains_key(id)
    &&& forall|id: u32| #[trigger]
        store.commit_entries.contains_key(id) ==> store.tickets.contains_key(id)
}

/// Whether the record of a draw leads to the winners of the raffle: the seed gives
/// the winning tickets, and the winners are who bought them.
pub open spec fn record_is_right(store: StoreView) -> bool {
    &&& store.randomness_seed is Some
    &&& store.randomness_seed->0.winning_ticket_indices == winning_tickets(
        store,
        store.randomness_seed->0.seed,
    )
    &&& store.raffle->0.winners == winners_of(store, store.randomness_seed->0.seed)
}

/// Whether the state of a raffle is sound: its prize is held from the opening of the
/// sale until it is called off, a draw is under way only with enough tickets sold, the
/// lock is held exactly during a draw and a request is open only then, and after a
/// draw the record leads to the winners.
pub open spec fn state_is_sound(store: StoreView) -> bool {
    let raffle = store.raffle->0;
    &&& raffle.prize_token == raffle.payment_token
    &&& raffle.status is Active || raffle.status is Drawing || raffle.status is Finalized
        || raffle.status is Claimed ==> raffle.prize_deposited
    &&& raffle.status is PendingPrize ==> !raffle.prize_deposited
    &&& raffle.status is Drawing ==> !too_few_sold(raffle)
    &&& store.drawing_lock <==> raffle.status is Drawing
    &&& store.randomness_requested ==> raffle.status is Drawing
    &&& raffle.status is Finalized || raffle.status is Claimed ==> record_is_right(store)
    &&& raffle.status is Claimed ==> (forall|i: int|
        0 <= i < raffle.claimed_winners.len() ==> raffle.claimed_winners[i])
}

/// Whether a memory is in order, as it is between calls. Before a raffle is created
/// it holds nothing but a standing administrator.
pub open spec fn in_order(store: StoreView) -> bool {
    &&& store.wf()
    &&& !store.reentrancy_guard
    &&& match store.raffle {
        Some(raffle) => {
            &&& store.factory is Some
            &&& store.admin is Some
            &&& books_agree(store)
            &&& state_is_sound(store)
        },
        None => store == (StoreView {
            standing_admin: store.standing_admin,
            ..StoreView::blank()
        }),
    }
}

/// Whether a raffle may go from one status to another in one call.
pub open spec fn status_may_move(from: RaffleStatus, to: RaffleStatus) -> bool {
    from == to || match from {
        RaffleStatus::PendingPrize => to is Active || to is Cancelled,
        RaffleStatus::Active => to is Drawing || to is Finalized || to is Failed || to is Cancelled,
        RaffleStatus::Drawing => to is Finalized || to is Cancelled,
        RaffleStatus::Finalized => to is Claimed || to is Cancelled,
        RaffleStatus::Claimed => false,
        RaffleStatus::Failed => to is Active || to is Cancelled,
        RaffleStatus::Cancelled => to is Active,
    }
}

/// Whether two states of a raffle have the same terms: they differ at most in what
/// the sale, the draw, the claims and the settings change.
pub open spec fn same_terms(a: RaffleView, b: RaffleView) -> bool {
    b == (RaffleView {
        tickets_sold: b.tickets_sold,
        status: b.status,
        prize_deposited: b.prize_deposited,
        winners: b.winners,
        claimed_winners: b.claimed_winners,
        oracle_address: b.oracle_address,
        protocol_fee_bp: b.protocol_fee_bp,
        finalized_at: b.finalized_at,
        swap_deadline_seconds: b.swap_deadline_seconds,
        ticket_sales_paused: b.ticket_sales_paused,
        ..a
    })
}

/// Whether one memory may follow another in one call: a raffle begins with no ticket
/// sold and no prize held, keeps its terms, its tickets and its refunds, moves from
/// status to status as it may, keeps its winners and claims once it has been drawn,
/// keeps the record of a draw until the next one, and is wiped out only at its end.
pub open spec fn may_follow(before: StoreView, after: StoreView) -> bool {
    match (before.raffle, after.raffle) {
        (None, None) => true,
        (None, Some(b)) => b.status is PendingPrize && b.tickets_sold == 0,
        (Some(a), None) => a.status is Cancelled || a.status is Claimed || a.status is Failed,
        (Some(a), Some(b)) => {
            &&& status_may_move(a.status, b.status)
            &&& same_terms(a, b)
            &&& a.tickets_sold <= b.tickets_sold
            &&& a.tickets_sold < b.tickets_sold ==> a.status is Active
            &&& forall|id: u32| #[trigger]
                before.tickets.contains_key(id) ==> after.tickets.contains_key(id)
                    && after.tickets[id] == before.tickets[id]
            &&& forall|id: u32| #[trigger]
                before.refunded.contains(id) ==> after.refunded.contains(id)
            &&& b.status !is Finalized ==> b.winners == a.winners && after.randomness_seed
                == before.randomness_seed
            &&& a.status is Finalized || a.status is Claimed ==> {
                &&& b.winners == a.winners
                &&& after.randomness_seed == before.randomness_seed
                &&& forall|i: int|
                    0 <= i < a.claimed_winners.len() && a.claimed_winners[i]
                        ==> #[trigger] b.claimed_winners[i]
            }
        },
    }
}

/// What is to be shown of every call.
spec fn is_lawful(f: FrameView, refusal: Option<Error>, after: FrameView) -> bool {
    &&& is_tidy(f, refusal, after)
    &&& in_order(f.store) ==> in_order(after.store) && may_follow(f.store, after.store)
}

proof fn lemma_init(f: FrameView, factory: Address, admin: Address, creator: Address, config: RaffleConfigView)
    ensures
        ({
            let o = init_outcome(f, factory, admin, creator, config);
            is_lawful(f, refusal_in(o), o.1)
        }),
{
    let o = init_outcome(f, factory, admin, creator, config);
    if in_order(f.store) && o.0 is Ok {
        let after = o.1.store;
        assert forall|a: Address| lists_tickets_of(after.tickets, a, #[trigger] after.tickets_of(a))
            && after.count_of(a) == after.tickets_of(a).len() by {
            assert(after.tickets_of(a) =~= Seq::empty());
        }
        assert(after.raffle->0.ticket_price * 0 == 0);
    }
}

proof fn lemma_deposit(f: FrameView)
    ensures
        ({
            let o = deposit_prize_outcome(f);
            is_lawful(f, refusal_in(o), o.1)
        }),
{
    let o = deposit_prize_outcome(f);
    if in_order(f.store) && o.0 is Ok {
        lemma_same_books(f.store, o.1.store);
    }
}

/// The books agree as long as nothing in them changes.
proof fn lemma_same_books(before: StoreView, after: StoreView)
    requires
        before.raffle is Some,
        after.raffle is Some,
        books_agree(before),
        after.raffle->0.tickets_sold == before.raffle->0.tickets_sold,
        after.tickets == before.tickets,
        after.ticket_counts == before.ticket_counts,
        after.owner_tickets == before.owner_tickets,
        after.ticket_buyers == before.ticket_buyers,
        forall|id: u32| #[trigger]
            after.refunded.contains(id) ==> before.tickets.contains_key(id),
        forall|id: u32| #[trigger]
            after.commit_entries.contains_key(id) ==> before.tickets.contains_key(id),
    ensures
        books_agree(after),
{
    assert forall|a: Address| lists_tickets_of(after.tickets, a, #[trigger] after.tickets_of(a))
        && after.count_of(a) == after.tickets_of(a).len() by {
        assert(after.tickets_of(a) == before.tickets_of(a));
    }
}

/// A purchase leaves the books in agreement and the limits kept.
proof fn lemma_books_after_sale(store: StoreView, buyer: Address, quantity: u32, now: u64, fee: int)
    requires
        store.wf(),
        store.raffle is Some,
        books_agree(store),
        0 < quantity,
        store.raffle->0.tickets_sold + quantity <= store.raffle->0.max_tickets,
        0 <= fee <= store.raffle->0.ticket_price * quantity,
    ensures
        sold_to(store, buyer, quantity, now, fee).wf(),
        books_agree(sold_to(store, buyer, quantity, now, fee)),
{
    let after = sold_to(store, buyer, quantity, now, fee);
    let sold = store.raffle->0.tickets_sold;
    let price = store.raffle->0.ticket_price;
    let new_ids = new_ticket_ids(sold, quantity);
    assert(after.raffle->0.wf());
    assert((sold + quantity) * price == sold * price + price * quantity) by (nonlinear_arith);
    assert((sold + quantity) * price <= 100_000_000_000_000_000_000_000_000) by (nonlinear_arith)
        requires
            0 <= sold + quantity <= 100_000,
            0 <= price <= 1_000_000_000_000_000_000_000,
    ;
    assert(store.tickets_of(buyer).len() == store.count_of(buyer));
    assert forall|a: Address| #[trigger] after.ticket_counts.contains_key(a) implies (
    after.ticket_counts[a] <= sold + quantity && after.ticket_counts[a] > 0
        && after.ticket_buyers.contains(a)) by {
        if store.count_of(buyer) == 0 {
            assert(after.ticket_buyers[store.ticket_buyers.len() as int] == buyer);
            if a != buyer {
                let k = store.ticket_buyers.index_of(a);
                assert(after.ticket_buyers[k] == a);
            }
        }
    }
    assert forall|a: Address| #[trigger] after.ticket_buyers.contains(a) implies after.ticket_counts.contains_key(
        a,
    ) by {
        let k = after.ticket_buyers.index_of(a);
        if k < store.ticket_buyers.len() {
            assert(store.ticket_buyers[k] == a);
            assert(store.ticket_buyers.contains(a));
        }
    }
    assert(after.ticket_buyers.no_duplicates()) by {
        if store.count_of(buyer) == 0 {
            assert(!store.ticket_buyers.contains(buyer));
        }
    }
    assert forall|a: Address| lists_tickets_of(after.tickets, a, #[trigger] after.tickets_of(a))
        && after.count_of(a) == after.tickets_of(a).len() by {
        let ids = store.tickets_of(a);
        let now_ids = after.tickets_of(a);
        assert(lists_tickets_of(store.tickets, a, ids));
        if a == buyer {
            assert(now_ids == ids + new_ids);
            assert forall|i: int| 0 <= i < now_ids.len() implies after.tickets.contains_key(
                #[trigger] now_ids[i],
            ) && after.tickets[now_ids[i]].owner == a by {
                if i < ids.len() {
                    assert(store.tickets.contains_key(ids[i]));
                } else {
                    assert(now_ids[i] == new_ids[i - ids.len()]);
                }
            }
            assert forall|i: int, j: int| 0 <= i < j < now_ids.len() implies now_ids[i] < now_ids[j] by {
                if i < ids.len() {
                    assert(store.tickets.contains_key(ids[i]));
                }
            }
            assert forall|id: u32| #[trigger]
                after.tickets.contains_key(id) && after.tickets[id].owner == a implies now_ids.contains(
                id,
            ) by {
                if store.tickets.contains_key(id) {
                    let k = ids.index_of(id);
                    assert(now_ids[k] == id);
                } else {
                    let k = id - sold - 1;
                    assert(new_ids[k] == id);
                    assert(now_ids[ids.len() + k] == id);
                }
            }
        } else {
            assert(now_ids == ids);
            assert forall|i: int| 0 <= i < ids.len() implies after.tickets.contains_key(
                #[trigger] ids[i],
            ) && after.tickets[ids[i]].owner == a by {
                assert(store.tickets.contains_key(ids[i]));
            }
        }
    }
}

proof fn lemma_sale(f: FrameView, buyer: Address, quantity: u32)
    ensures
        ({
            let o = sale_outcome(f, buyer, quantity, true);
            is_lawful(f, refusal_in(o), o.1)
        }),
{
    let o = sale_outcome(f, buyer, quantity, true);
    lemma_sale_is_tidy(f, buyer, quantity);
    if in_order(f.store) && o.0 is Ok {
        let raffle = f.store.raffle->0;
        let now = f.ledger.timestamp;
        let fee = fee_of(raffle, quantity, true);
        let sold = sold_to(f.store, buyer, quantity, now, fee);
        lemma_costs(raffle, quantity, true);
        lemma_books_after_sale(f.store, buyer, quantity, now, fee);
        lemma_same_books(sold, o.1.store);
    }
}

proof fn lemma_sale_is_tidy(f: FrameView, buyer: Address, quantity: u32)
    ensures
        ({
            let o = sale_outcome(f, buyer, quantity, true);
            is_tidy(f, refusal_in(o), o.1)
        }),
{
}

proof fn lemma_commit(f: FrameView, ticket_id: u32, hash: [u8; 32])
    ensures
        ({
            let o = submit_commit_outcome(f, ticket_id, hash);
            is_lawful(f, refusal_in(o), o.1)
        }),
{
    let o = submit_commit_outcome(f, ticket_id, hash);
    if in_order(f.store) && o.0 is Ok {
        lemma_same_books(f.store, o.1.store);
    }
}

/// A draw that comes to its end leaves everything in order.
pub proof fn lemma_finalized(g: FrameView, seed: u64, randomness_type: RandomnessType)
    requires
        g.store.raffle is Some,
        in_order(g.store),
        g.store.raffle->0.status is Active || g.store.raffle->0.status is Drawing,
        winners_refusal(g.store, seed) is None,
    ensures
        in_order(finalized_frame(g, seed, randomness_type).store),
        may_follow(g.store, finalized_frame(g, seed, randomness_type).store),
{
    let after = finalized_frame(g, seed, randomness_type).store;
    let raffle = g.store.raffle->0;
    winners_are_distinct_tickets(seed, raffle.tickets_sold, raffle.prizes.len() as u32);
    lemma_same_books(g.store, after);
    assert(after.raffle->0.wf());
    assert(winners_of(after, seed) =~= winners_of(g.store, seed));
}

/// A draw that comes to its end only adds actions.
proof fn lemma_finalized_is_tidy(f: FrameView, g: FrameView, seed: u64, randomness_type: RandomnessType)
    requires
        is_tidy(f, None, g),
    ensures
        is_tidy(f, None, finalized_frame(g, seed, randomness_type)),
{
}

proof fn lemma_end_of_sale(f: FrameView, resume: bool)
    ensures
        ({
            let o = end_of_sale_outcome(f, resume);
            is_lawful(f, refusal_in(o), o.1)
        }),
{
    let o = end_of_sale_outcome(f, resume);
    if f.store.raffle is Some {
        let raffle = f.store.raffle->0;
        let g = f.act(ActionView::RequireAuth(raffle.creator));
        let resumed = resume && raffle.status is Drawing;
        let drawing = if resumed {
            g
        } else {
            transition_to_drawing_outcome(g, f.ledger.timestamp).1
        };
        let drawn = drawing.act(draw_news(drawing, raffle.creator));
        let seed = draw_seed(f.store, f.ledger);
        lemma_finalized_is_tidy(f, drawn, seed, RandomnessType::Prng);
        if in_order(f.store) && o.0 is Ok {
            if too_few_sold(raffle) {
                lemma_same_books(f.store, o.1.store);
            } else {
                lemma_same_books(f.store, drawing.store);
                assert(in_order(drawing.store));
                if raffle.randomness_source is External {
                    lemma_same_books(f.store, o.1.store);
                } else {
                    lemma_same_choice(f.store, drawn.store, seed);
                    lemma_finalized(drawn, seed, RandomnessType::Prng);
                }
            }
        }
    }
}

/// Who wins depends on the raffle's tickets and the number of its prizes alone.
proof fn lemma_same_choice(a: StoreView, b: StoreView, seed: u64)
    requires
        a.raffle is Some,
        b.raffle is Some,
        a.raffle->0.tickets_sold == b.raffle->0.tickets_sold,
        a.raffle->0.prizes == b.raffle->0.prizes,
        a.tickets == b.tickets,
    ensures
        winners_refusal(a, seed) == winners_refusal(b, seed),
        winning_tickets(a, seed) == winning_tickets(b, seed),
        winners_of(a, seed) == winners_of(b, seed),
{
    assert(winners_of(a, seed) =~= winners_of(b, seed));
}

proof fn lemma_provide(f: FrameView, random_seed: u64, public_key: Seq<u8>, proof_bytes: Seq<u8>, request_id: u64)
    ensures
        ({
            let o = provide_randomness_outcome(f, random_seed, public_key, proof_bytes, request_id);
            is_lawful(f, refusal_in(o), o.1)
        }),
{
    let o = provide_randomness_outcome(f, random_seed, public_key, proof_bytes, request_id);
    if o.0 is Ok && in_order(f.store) {
        lemma_finalized(f, random_seed, RandomnessType::Vrf);
    }
}

proof fn lemma_fallback(f: FrameView, caller: Address, do_refund: bool)
    ensures
        ({
            let o = trigger_fallback_outcome(f, caller, do_refund);
            is_lawful(f, refusal_in(o), o.1)
        }),
{
    let o = trigger_fallback_outcome(f, caller, do_refund);
    if o.0 is Ok && in_order(f.store) {
        if do_refund {
            lemma_same_books(f.store, o.1.store);
        } else {
            lemma_finalized(f, ledger_seed(f.ledger), RandomnessType::Fallback);
        }
    }
}

proof fn lemma_claim(f: FrameView, winner: Address, tier_index: u32)
    ensures
        ({
            let o = claim_prize_outcome(f, winner, tier_index);
            is_lawful(f, refusal_in(o), o.1)
        }),
{
    let o = claim_prize_outcome(f, winner, tier_index);
    if o.0 is Ok && in_order(f.store) {
        lemma_same_books(f.store, o.1.store);
        lemma_same_choice(f.store, o.1.store, f.store.randomness_seed->0.seed);
    }
}

proof fn lemma_withdraw(f: FrameView, recipient: Address, amount: i128)
    ensures
        ({
            let o = withdraw_fees_outcome(f, recipient, amount);
            is_lawful(f, refusal_in(o), o.1)
        }),
{
    let o = withdraw_fees_outcome(f, recipient, amount);
    if o.0 is Ok && in_order(f.store) {
        lemma_same_books(f.store, o.1.store);
        lemma_same_choice(f.store, o.1.store, f.store.randomness_seed->0.seed);
    }
}

proof fn lemma_cancel(f: FrameView, reason: CancelReason)
    ensures
        ({
            let o = cancel_outcome(f, reason);
            is_lawful(f, refusal_in(o), o.1)
        }),
{
    let o = cancel_outcome(f, reason);
    if o.0 is Ok && in_order(f.store) {
        lemma_same_books(f.store, o.1.store);
    }
}

proof fn lemma_execute_cancel(f: FrameView)
    ensures
        ({
            let o = execute_admin_cancel_outcome(f);
            is_lawful(f, refusal_in(o), o.1)
        }),
{
    let o = execute_admin_cancel_outcome(f);
    if o.0 is Ok && in_order(f.store) {
        lemma_same_books(f.store, o.1.store);
    }
}

proof fn lemma_refund_prize(f: FrameView)
    ensures
        ({
            let o = refund_prize_outcome(f);
            is_lawful(f, refusal_in(o), o.1)
        }),
{
    let o = refund_prize_outcome(f);
    if o.0 is Ok && in_order(f.store) {
        lemma_same_books(f.store, o.1.store);
    }
}

proof fn lemma_emergency(f: FrameView, caller: Address)
    ensures
        ({
            let o = emergency_outcome(f, caller, true);
            is_lawful(f, refusal_in(o), o.1)
        }),
{
    let o = emergency_outcome(f, caller, true);
    if o.0 is Ok && in_order(f.store) {
        lemma_same_books(f.store, o.1.store);
    }
}

proof fn lemma_refund_ticket(f: FrameView, ticket_id: u32)
    ensures
        ({
            let o = refund_ticket_outcome(f, ticket_id);
            is_lawful(f, refusal_in(o), o.1)
        }),
{
    let o = refund_ticket_outcome(f, ticket_id);
    if o.0 is Ok && in_order(f.store) {
        lemma_same_books(f.store, o.1.store);
        if f.store.randomness_seed is Some {
            lemma_same_choice(f.store, o.1.store, f.store.randomness_seed->0.seed);
        }
    }
}

proof fn lemma_batch(f: FrameView, owner: Address, ids: Seq<u32>)
    ensures
        ({
            let o = batch_refund_tickets_outcome(f, owner, ids);
            is_lawful(f, refusal_in(o), o.1)
        }),
{
    let o = batch_refund_tickets_outcome(f, owner, ids);
    if o.0 is Ok && in_order(f.store) {
        lemma_batch_exists(f.store.tickets, owner, ids);
        lemma_same_books(f.store, o.1.store);
    }
}

proof fn lemma_wipe(f: FrameView)
    ensures
        ({
            let o = wipe_outcome(f, true);
            is_lawful(f, refusal_in(o), o.1)
        }),
{
    let o = wipe_outcome(f, true);
    if o.0 is Ok && in_order(f.store) {
        lemma_wiped(f.store);
    }
}

/// Wiping a raffle out leaves a blank memory.
pub proof fn lemma_wiped(store: StoreView)
    requires
        in_order(store),
        store.raffle is Some,
    ensures
        wiped(store, true) == StoreView::blank(),
{
    let after = wiped(store, true);
    assert(after.tickets =~= Map::empty());
    assert(after.refunded =~= Set::empty());
    assert(after.commit_entries =~= Map::empty());
    assert(after.ticket_counts =~= Map::empty());
    assert(after.owner_tickets =~= Map::empty());
}

proof fn lemma_pause(f: FrameView, paused: bool)
    ensures
        ({
            let o = pause_outcome(f, paused);
            is_lawful(f, refusal_in(o), o.1)
        }),
{
    let o = pause_outcome(f, paused);
    if o.0 is Ok && in_order(f.store) {
        lemma_same_books(f.store, o.1.store);
        if f.store.randomness_seed is Some {
            lemma_same_choice(f.store, o.1.store, f.store.randomness_seed->0.seed);
        }
    }
}

proof fn lemma_set_admin(f: FrameView, new_admin: Address, exists_on_ledger: bool)
    ensures
        ({
            let o = set_admin_outcome(f, new_admin, exists_on_ledger);
            is_lawful(f, refusal_in(o), o.1)
        }),
{
    let o = set_admin_outcome(f, new_admin, exists_on_ledger);
    if o.0 is Ok && in_order(f.store) && f.store.raffle is Some {
        lemma_same_books(f.store, o.1.store);
        if f.store.randomness_seed is Some {
            lemma_same_choice(f.store, o.1.store, f.store.randomness_seed->0.seed);
        }
    }
}

proof fn lemma_pause_sales(f: FrameView, caller: Address, paused: bool)
    ensures
        ({
            let o = pause_sales_outcome(f, caller, paused);
            is_lawful(f, refusal_in(o), o.1)
        }),
{
    let o = pause_sales_outcome(f, caller, paused);
    if o.0 is Ok && in_order(f.store) {
        lemma_same_books(f.store, o.1.store);
    }
}

proof fn lemma_rescue(f: FrameView, token: Address, recipient: Address, amount: i128)
    ensures
        ({
            let o = rescue_outcome(f, token, recipient, amount, true);
            is_lawful(f, refusal_in(o), o.1)
        }),
{
}

proof fn lemma_settings(f: FrameView, new_oracle: Address, new_fee_bp: u32, new_deadline_seconds: u64)
    ensures
        ({
            let o = update_oracle_address_outcome(f, new_oracle);
            is_lawful(f, refusal_in(o), o.1)
        }),
        ({
            let o = set_protocol_fee_bp_outcome(f, new_fee_bp);
            is_lawful(f, refusal_in(o), o.1)
        }),
        ({
            let o = set_swap_deadline_outcome(f, new_deadline_seconds);
            is_lawful(f, refusal_in(o), o.1)
        }),
{
    let o = update_oracle_address_outcome(f, new_oracle);
    let p = set_protocol_fee_bp_outcome(f, new_fee_bp);
    let q = set_swap_deadline_outcome(f, new_deadline_seconds);
    if in_order(f.store) {
        if o.0 is Ok {
            lemma_same_books(f.store, o.1.store);
        }
        if p.0 is Ok {
            lemma_same_books(f.store, p.1.store);
            if f.store.randomness_seed is Some {
                lemma_same_choice(f.store, p.1.store, f.store.randomness_seed->0.seed);
            }
        }
        if q.0 is Ok {
            lemma_same_books(f.store, q.1.store);
            if f.store.randomness_seed is Some {
                lemma_same_choice(f.store, q.1.store, f.store.randomness_seed->0.seed);
            }
        }
    }
}

proof fn lemma_lawful(f: FrameView, call: Call)
    ensures
        is_lawful(f, outcome_of(f, call).0, outcome_of(f, call).1),
{
    match call {
        Call::Init { factory, admin, creator, config } => lemma_init(
            f,
            factory,
            admin,
            creator,
            config,
        ),
        Call::DepositPrize => lemma_deposit(f),
        Call::BuyTickets { buyer, quantity } => lemma_sale(f, buyer, quantity),
        Call::SubmitCommit { ticket_id, hash } => lemma_commit(f, ticket_id, hash),
        Call::FinalizeRaffle => lemma_end_of_sale(f, true),
        Call::ProvideRandomness { random_seed, public_key, proof, request_id } => lemma_provide(
            f,
            random_seed,
            public_key,
            proof,
            request_id,
        ),
        Call::TriggerRandomnessFallback { caller, do_refund } => lemma_fallback(
            f,
            caller,
            do_refund,
        ),
        Call::ClaimPrize { winner, tier_index } => lemma_claim(f, winner, tier_index),
        Call::WithdrawFees { recipient, amount } => lemma_withdraw(f, recipient, amount),
        Call::CancelRaffle { reason } => lemma_cancel(f, reason),
        Call::ExecuteAdminCancel => lemma_execute_cancel(f),
        Call::RefundPrize => lemma_refund_prize(f),
        Call::EmergencyWithdraw { caller } => lemma_emergency(f, caller),
        Call::RefundTicket { ticket_id } => lemma_refund_ticket(f, ticket_id),
        Call::BatchRefundTickets { owner, ticket_ids } => lemma_batch(f, owner, ticket_ids),
        Call::WipeStorage => lemma_wipe(f),
        Call::Pause => lemma_pause(f, true),
        Call::Unpause => lemma_pause(f, false),
        Call::SetAdmin { new_admin, exists_on_ledger } => lemma_set_admin(
            f,
            new_admin,
            exists_on_ledger,
        ),
        Call::PauseTicketSales { caller } => lemma_pause_sales(f, caller, true),
        Call::ResumeTicketSales { caller } => lemma_pause_sales(f, caller, false),
        Call::RescueTokens { token, recipient, amount } => lemma_rescue(
            f,
            token,
            recipient,
            amount,
        ),
        Call::UpdateOracleAddress { new_oracle } => lemma_settings(f, new_oracle, 0, 0),
        Call::SetProtocolFeeBp { new_fee_bp } => lemma_settings(
            f,
            f.ledger.contract,
            new_fee_bp,
            0,
        ),
        Call::SetSwapDeadline { new_deadline_seconds } => lemma_settings(
            f,
            f.ledger.contract,
            0,
            new_deadline_seconds,
        ),
    }
}

/// The memory of a new contract is in order.
pub proof fn a_new_memory_is_in_order()
    ensures
        in_order(StoreView::blank()),
{
}

/// A call that is refused leaves the memory as it was and has the host do nothing
/// but check. Whether refused or not, no call changes the ledger that it runs in or
/// takes an action back.
pub proof fn refused_calls_change_nothing(f: FrameView, call: Call)
    ensures
        is_tidy(f, outcome_of(f, call).0, outcome_of(f, call).1),
{
    lemma_lawful(f, call);
}

/// Every call leaves the memory in order if it was so before.
pub proof fn calls_keep_the_memory_in_order(f: FrameView, call: Call)
    requires
        in_order(f.store),
    ensures
        in_order(outcome_of(f, call).1.store),
{
    lemma_lawful(f, call);
}

/// Every call takes a raffle at most one step of the way that it may go.
pub proof fn calls_take_allowed_steps(f: FrameView, call: Call)
    requires
        in_order(f.store),
    ensures
        may_follow(f.store, outcome_of(f, call).1.store),
{
    lemma_lawful(f, call);
}

/// One call, and the ledger that it runs in.
pub struct Step {
    pub ledger: Ledger,
    pub call: Call,
}

/// The memory after one call.
#[verifier::opaque]
pub open spec fn store_after(store: StoreView, step: Step) -> StoreView {
    let f = FrameView { ledger: step.ledger, store, actions: Seq::empty() };
    outcome_of(f, step.call).1.store
}

/// The memory after a number of calls.
pub open spec fn after_steps(store: StoreView, steps: Seq<Step>) -> StoreView
    decreases steps.len(),
{
    if steps.len() == 0 {
        store
    } else {
        store_after(after_steps(store, steps.drop_last()), steps.last())
    }
}

/// Whatever calls are made, the memory is in order after them.
pub proof fn histories_keep_the_memory_in_order(store: StoreView, steps: Seq<Step>)
    requires
        in_order(store),
    ensures
        in_order(after_steps(store, steps)),
    decreases steps.len(),
{
    if steps.len() > 0 {
        let before = after_steps(store, steps.drop_last());
        histories_keep_the_memory_in_order(store, steps.drop_last());
        lemma_step(before, steps.last());
    }
}

/// What one call does to a memory that is in order.
proof fn lemma_step(store: StoreView, step: Step)
    requires
        in_order(store),
    ensures
        in_order(store_after(store, step)),
        may_follow(store, store_after(store, step)),
{
    reveal(store_after);
    let f = FrameView { ledger: step.ledger, store, actions: Seq::empty() };
    lemma_lawful(f, step.call);
}

/// The lock of the draw is held exactly as long as a draw is in progress, and a request
/// is open only then, whatever calls were made.
pub proof fn locks_last_as_long_as_draws(store: StoreView, steps: Seq<Step>)
    requires
        in_order(store),
    ensures
        ({
            let after = after_steps(store, steps);
            let drawing = after.raffle is Some && after.raffle->0.status is Drawing;
            &&& after.drawing_lock <==> drawing
            &&& after.randomness_requested ==> drawing
        }),
{
    histories_keep_the_memory_in_order(store, steps);
}

/// As long as no ticket is sold, a call keeps the record of a draw right.
proof fn lemma_record_stays_right(before: StoreView, after: StoreView)
    requires
        in_order(before),
        in_order(after),
        may_follow(before, after),
        before.raffle is Some,
        after.raffle is Some,
        record_is_right(before),
        after.raffle->0.tickets_sold == before.raffle->0.tickets_sold,
    ensures
        record_is_right(after),
{
    if after.raffle->0.status !is Finalized {
        assert forall|id: u32| #[trigger] after.tickets.contains_key(id) implies before.tickets.contains_key(
            id,
        ) && after.tickets[id] == before.tickets[id] by {
            assert(before.tickets.contains_key(id));
        }
        assert(after.tickets =~= before.tickets);
        lemma_same_choice(before, after, after.randomness_seed->0.seed);
    }
}

/// Whether the call at place `k` of a history draws the raffle: it has been drawn after
/// the call, and not before.
pub open spec fn draws_at(store: StoreView, steps: Seq<Step>, k: int) -> bool {
    &&& after_steps(store, steps.take(k)).raffle->0.status !is Finalized
    &&& after_steps(store, steps.take(k + 1)).raffle->0.status is Finalized
}

/// Whether no call of a history draws the raffle.
pub open spec fn not_drawn_anew(store: StoreView, steps: Seq<Step>) -> bool {
    forall|k: int| 0 <= k < steps.len() ==> !#[trigger] draws_at(store, steps, k)
}

/// Once a raffle has been drawn, the record of the draw and the winners stay as they
/// are after whatever calls, until the raffle is wiped out or drawn anew.
pub proof fn records_stay(store: StoreView, steps: Seq<Step>)
    requires
        in_order(store),
        forall|k: int|
            0 <= k <= steps.len() ==> (#[trigger] after_steps(store, steps.take(k))).raffle is Some,
        store.raffle->0.status is Finalized || store.raffle->0.status is Claimed,
        not_drawn_anew(store, steps),
    ensures
        in_order(after_steps(store, steps)),
        after_steps(store, steps).randomness_seed == store.randomness_seed,
        after_steps(store, steps).raffle->0.winners == store.raffle->0.winners,
    decreases steps.len(),
{
    let n = steps.len() as int;
    assert(steps.take(n) =~= steps);
    assert(after_steps(store, steps.take(n)).raffle is Some);
    if n > 0 {
        let fewer = steps.drop_last();
        assert(steps.take(n - 1) =~= fewer);
        assert forall|k: int| 0 <= k <= fewer.len() implies (#[trigger] after_steps(
            store,
            fewer.take(k),
        )).raffle is Some by {
            assert(fewer.take(k) =~= steps.take(k));
        }
        assert forall|k: int| 0 <= k < fewer.len() implies !#[trigger] draws_at(store, fewer, k) by {
            assert(fewer.take(k) =~= steps.take(k));
            assert(fewer.take(k + 1) =~= steps.take(k + 1));
            assert(!draws_at(store, steps, k));
        }
        records_stay(store, fewer);
        let before = after_steps(store, fewer);
        assert(after_steps(store, steps) == store_after(before, steps.last()));
        assert(after_steps(store, steps.take(n - 1)).raffle is Some);
        assert(!draws_at(store, steps, n - 1));
        lemma_step(before, steps.last());
    } else {
        assert(steps.take(0) =~= steps);
    }
}

/// Once a raffle has been drawn, the record of the draw leads to its winners after
/// whatever calls, until the raffle is wiped out or a ticket is sold after it was
/// called off and its prize paid in again.
pub proof fn records_stay_right(store: StoreView, steps: Seq<Step>)
    requires
        in_order(store),
        forall|k: int|
            0 <= k <= steps.len() ==> (#[trigger] after_steps(store, steps.take(k))).raffle is Some,
        store.raffle->0.status is Finalized || store.raffle->0.status is Claimed,
    ensures
        ({
            let after = after_steps(store, steps);
            &&& after.raffle is Some
            &&& in_order(after)
            &&& after.raffle->0.tickets_sold >= store.raffle->0.tickets_sold
            &&& after.raffle->0.tickets_sold == store.raffle->0.tickets_sold ==> record_is_right(after)
        }),
    decreases steps.len(),
{
    let n = steps.len() as int;
    assert(steps.take(n) =~= steps);
    assert(after_steps(store, steps.take(n)).raffle is Some);
    if n > 0 {
        let fewer = steps.drop_last();
        assert forall|k: int| 0 <= k <= fewer.len() implies (#[trigger] after_steps(
            store,
            fewer.take(k),
        )).raffle is Some by {
            assert(fewer.take(k) =~= steps.take(k));
        }
        records_stay_right(store, fewer);
        let before = after_steps(store, fewer);
        let after = store_after(before, steps.last());
        assert(after_steps(store, steps) == after);
        lemma_step(before, steps.last());
        if after.raffle->0.tickets_sold == store.raffle->0.tickets_sold {
            lemma_record_stays_right(before, after);
        }
    } else {
        assert(steps.take(0) =~= steps);
    }
}

} // verus!
