use soroban_sdk::address_payload::AddressPayload;
use soroban_sdk::testutils::EnvTestConfig;
use soroban_sdk::xdr::ToXdr;
use soroban_sdk::Env;
use tikka_raffle_instance::action::{Action, Event, Payment};
use tikka_raffle_instance::address::{Address, AddressKind};
use tikka_raffle_instance::admin;
use tikka_raffle_instance::contract::Contract;
use tikka_raffle_instance::draw;
use tikka_raffle_instance::error::Error;
use tikka_raffle_instance::helpers::{
    build_internal_seed_u64, build_request_id, calculate_tier_prize, do_finalize_with_seed,
    enforce_swap_guard, get_ticket_owner,
};
use tikka_raffle_instance::randomness::{build_vrf_proof_message, OracleSeedWinnerSelection};
use tikka_raffle_instance::store::{DataKey, Frame, Ledger, Store};
use tikka_raffle_instance::tickets;
use tikka_raffle_instance::types::{
    CancelReason, FailureReason, Raffle, RaffleConfig, RaffleStatus, RandomnessSource,
    RandomnessType,
};

const PRICE: i128 = 10_000;
const PRIZE: i128 = 1_000_003;
const START: u64 = 100;
const END: u64 = 1_000;

fn quiet_env() -> Env {
    Env::new_with_config(EnvTestConfig { capture_snapshot_at_drop: false })
}

fn account(n: u128) -> Address {
    Address { kind: AddressKind::Account, high: 0, low: n }
}

fn contract() -> Address {
    Address { kind: AddressKind::Contract, high: 1, low: 1 }
}

fn token() -> Address {
    Address { kind: AddressKind::Contract, high: 2, low: 2 }
}

fn factory() -> Address {
    Address { kind: AddressKind::Contract, high: 3, low: 3 }
}

fn admin_address() -> Address {
    account(1)
}

fn creator() -> Address {
    account(2)
}

fn oracle() -> Address {
    account(3)
}

fn treasury() -> Address {
    account(4)
}

fn buyer() -> Address {
    account(10)
}

fn other_buyer() -> Address {
    account(11)
}

fn config() -> RaffleConfig {
    RaffleConfig {
        description: b"A raffle".to_vec(),
        end_time: END,
        no_deadline: false,
        max_tickets: 10,
        max_tickets_per_tx: 5,
        min_tickets: 3,
        allow_multiple: true,
        ticket_price: PRICE,
        payment_token: token(),
        prize_amount: PRIZE,
        prizes: vec![5000, 3000, 2000],
        randomness_source: RandomnessSource::Internal,
        oracle_address: None,
        protocol_fee_bp: 500,
        treasury_address: None,
        swap_router: None,
        tikka_token: None,
        metadata_hash: [7; 32],
        claim_lockup_seconds: 0,
        swap_deadline_seconds: 0,
        early_bird_ticket_percentage: 0,
        early_bird_discount_bp: 0,
    }
}

fn external() -> RaffleConfig {
    let mut c = config();
    c.randomness_source = RandomnessSource::External;
    c.oracle_address = Some(oracle());
    c
}

fn new_frame() -> Frame {
    Frame {
        ledger: Ledger { timestamp: START, sequence: 50, contract: contract() },
        store: Store::new(),
        actions: Vec::new(),
    }
}

fn at(frame: &mut Frame, timestamp: u64) {
    frame.ledger.timestamp = timestamp;
    frame.actions.clear();
}

fn created(c: RaffleConfig) -> Frame {
    let mut frame = new_frame();
    assert_eq!(Contract::init(&mut frame, factory(), admin_address(), creator(), c), Ok(()));
    frame.actions.clear();
    frame
}

fn open(c: RaffleConfig) -> Frame {
    let mut frame = created(c);
    assert_eq!(Contract::deposit_prize(&mut frame), Ok(()));
    frame.actions.clear();
    frame
}

fn raffle(frame: &Frame) -> &Raffle {
    Contract::get_raffle(&frame.store).unwrap()
}

/// A raffle with four tickets of the first buyer and three of the second.
fn seven_sold(c: RaffleConfig) -> Frame {
    let env = quiet_env();
    let mut frame = open(c);
    assert_eq!(Contract::buy_tickets(&env, &mut frame, buyer(), 4), Ok(4));
    assert_eq!(Contract::buy_tickets(&env, &mut frame, other_buyer(), 3), Ok(7));
    frame.actions.clear();
    frame
}

/// A raffle whose draw waits for its oracle.
fn awaiting_oracle() -> Frame {
    let env = quiet_env();
    let mut frame = seven_sold(external());
    at(&mut frame, END);
    assert_eq!(Contract::finalize_raffle(&env, &mut frame), Ok(()));
    frame.actions.clear();
    frame
}

/// A raffle that was drawn with a seed.
fn drawn(seed: u64) -> Frame {
    let env = quiet_env();
    let mut frame = awaiting_oracle();
    let id = frame.store.randomness_request_id.unwrap();
    let r = Contract::provide_randomness(&env, &mut frame, seed, [1; 32], [2; 64], id);
    assert_eq!(r, Ok(contract()));
    frame.actions.clear();
    frame
}

fn has_payment(frame: &Frame, payment: Payment) -> usize {
    frame
        .actions
        .iter()
        .filter(|a| **a == Action::Transfer(payment) || **a == Action::TryTransfer(payment))
        .count()
}

fn published(frame: &Frame, event: Event) -> bool {
    frame.actions.contains(&Action::Publish(event))
}

// Creating

#[test]
fn init_writes_the_raffle_down() {
    let mut frame = new_frame();
    assert_eq!(Contract::get_raffle(&frame.store).err(), Some(Error::NotInitialized));
    assert_eq!(
        Contract::init(&mut frame, factory(), admin_address(), creator(), config()),
        Ok(())
    );
    let r = raffle(&frame);
    assert_eq!(r.status, RaffleStatus::PendingPrize);
    assert_eq!(r.creator, creator());
    assert_eq!(r.prize_token, token());
    assert_eq!(r.prizes, vec![5000, 3000, 2000]);
    assert_eq!(r.description, b"A raffle".to_vec());
    assert_eq!(r.claim_lockup_seconds, 3_600);
    assert_eq!(r.swap_deadline_seconds, 300);
    assert_eq!(r.tickets_sold, 0);
    assert_eq!(r.finalized_at, None);
    assert_eq!(frame.store.factory, Some(factory()));
    assert_eq!(frame.store.admin, Some(admin_address()));
    assert_eq!(frame.actions.len(), 2);
    assert_eq!(frame.actions[0], Action::CheckToken(token()));
    match &frame.actions[1] {
        Action::PublishCreated(news) => {
            assert_eq!(news.raffle_id, contract());
            assert_eq!(news.metadata_hash, [7; 32]);
            assert_eq!(news.prize_amount, PRIZE);
        }
        _ => panic!("the creation is not published"),
    }
}

#[test]
fn init_happens_once() {
    let mut frame = created(config());
    assert_eq!(
        Contract::init(&mut frame, factory(), admin_address(), creator(), config()),
        Err(Error::AlreadyInitialized)
    );
    assert!(frame.actions.is_empty());
}

fn refused(change: fn(&mut RaffleConfig)) -> Error {
    let mut c = config();
    change(&mut c);
    let mut frame = new_frame();
    let e = Contract::init(&mut frame, factory(), admin_address(), creator(), c).unwrap_err();
    assert!(frame.store.raffle.is_none());
    e
}

#[test]
fn init_refuses_bad_terms() {
    assert_eq!(refused(|c| c.description = vec![0; 1001]), Error::InvalidParameters);
    assert_eq!(refused(|c| c.no_deadline = true), Error::InvalidParameters);
    assert_eq!(refused(|c| c.end_time = START), Error::InvalidParameters);
    assert_eq!(refused(|c| c.max_tickets = 0), Error::InvalidParameters);
    assert_eq!(refused(|c| c.max_tickets = 100_001), Error::InvalidParameters);
    assert_eq!(refused(|c| c.min_tickets = 11), Error::InvalidTicketRange);
    assert_eq!(refused(|c| c.max_tickets_per_tx = 0), Error::InvalidParameters);
    assert_eq!(refused(|c| c.max_tickets_per_tx = 11), Error::InvalidParameters);
    assert_eq!(refused(|c| c.ticket_price = 9_999), Error::InvalidParameters);
    assert_eq!(refused(|c| c.prize_amount = PRICE - 1), Error::InvalidParameters);
    assert_eq!(
        refused(|c| c.prize_amount = 1_000_000_000_000_000_000_001),
        Error::InvalidParameters
    );
    assert_eq!(refused(|c| c.prizes = vec![]), Error::InvalidParameters);
    assert_eq!(refused(|c| c.prizes = vec![100; 101]), Error::TooManyPrizes);
    assert_eq!(refused(|c| c.prizes = vec![5000, 4999]), Error::InvalidParameters);
    assert_eq!(refused(|c| c.protocol_fee_bp = 10_001), Error::InvalidParameters);
    assert_eq!(refused(|c| c.metadata_hash = [0; 32]), Error::InvalidParameters);
}

#[test]
fn init_refuses_bad_oracles() {
    assert_eq!(
        refused(|c| c.randomness_source = RandomnessSource::External),
        Error::InvalidParameters
    );
    assert_eq!(
        refused(|c| {
            c.randomness_source = RandomnessSource::External;
            c.oracle_address = Some(contract());
        }),
        Error::InvalidParameters
    );
    assert_eq!(refused(|c| c.oracle_address = Some(oracle())), Error::InvalidParameters);
}

#[test]
fn init_refuses_bad_extras_after_asking_the_token() {
    for change in [
        (|c: &mut RaffleConfig| c.claim_lockup_seconds = 604_801) as fn(&mut RaffleConfig),
        |c| c.swap_deadline_seconds = 3_601,
        |c| c.early_bird_ticket_percentage = 101,
        |c| {
            c.early_bird_ticket_percentage = 1;
            c.early_bird_discount_bp = 10_001;
        },
    ] {
        let mut c = config();
        change(&mut c);
        let mut frame = new_frame();
        assert_eq!(
            Contract::init(&mut frame, factory(), admin_address(), creator(), c),
            Err(Error::InvalidParameters)
        );
        assert_eq!(frame.actions, vec![Action::CheckToken(token())]);
    }
}

#[test]
fn init_accepts_the_limits() {
    let mut c = config();
    c.description = vec![1; 1000];
    c.max_tickets = 100_000;
    c.claim_lockup_seconds = 604_800;
    c.swap_deadline_seconds = 3_600;
    c.protocol_fee_bp = 10_000;
    c.prizes = vec![100; 100];
    c.prize_amount = 1_000_000_000_000_000_000_000;
    c.early_bird_discount_bp = 20_000;
    let frame = created(c);
    assert_eq!(raffle(&frame).claim_lockup_seconds, 604_800);
    let mut c = config();
    c.no_deadline = true;
    c.end_time = 0;
    created(c);
}

// The prize

#[test]
fn deposit_opens_the_sale() {
    let mut frame = created(config());
    assert_eq!(Contract::deposit_prize(&mut frame), Ok(()));
    assert_eq!(raffle(&frame).status, RaffleStatus::Active);
    assert!(raffle(&frame).prize_deposited);
    assert_eq!(
        frame.actions,
        vec![
            Action::RequireAuth(creator()),
            Action::TryTransfer(Payment {
                token: token(),
                from: creator(),
                to: contract(),
                amount: PRIZE
            }),
            Action::Publish(Event::PrizeDeposited {
                creator: creator(),
                amount: PRIZE,
                token: token(),
                timestamp: START
            }),
            Action::Publish(Event::RaffleStatusChanged {
                old_status: RaffleStatus::PendingPrize,
                new_status: RaffleStatus::Active,
                timestamp: START
            }),
        ]
    );
    assert_eq!(Contract::deposit_prize(&mut frame), Err(Error::PrizeAlreadyDeposited));
}

#[test]
fn deposit_needs_a_raffle_and_no_pause() {
    let mut frame = new_frame();
    assert_eq!(Contract::deposit_prize(&mut frame), Err(Error::NotInitialized));
    let mut frame = created(config());
    assert_eq!(Contract::pause(&mut frame), Ok(()));
    assert_eq!(Contract::deposit_prize(&mut frame), Err(Error::ContractPaused));
}

// The sale

#[test]
fn purchases_are_numbered_and_indexed() {
    let env = quiet_env();
    let mut frame = open(config());
    assert_eq!(Contract::buy_tickets(&env, &mut frame, buyer(), 2), Ok(2));
    assert_eq!(Contract::buy_tickets(&env, &mut frame, other_buyer(), 1), Ok(3));
    frame.actions.clear();
    assert_eq!(Contract::buy_tickets(&env, &mut frame, buyer(), 3), Ok(6));
    assert_eq!(Contract::get_my_tickets(&frame.store, buyer()), vec![1, 2, 4, 5, 6]);
    assert_eq!(Contract::get_my_tickets(&frame.store, other_buyer()), vec![3]);
    assert!(Contract::get_my_tickets(&frame.store, creator()).is_empty());
    assert_eq!(frame.store.ticket_counts.get(buyer()), Some(&5));
    assert_eq!(frame.store.ticket_buyers, vec![buyer(), other_buyer()]);
    assert_eq!(get_ticket_owner(&frame.store, 3), Some(other_buyer()));
    assert_eq!(get_ticket_owner(&frame.store, 7), None);
    let ticket = frame.store.tickets[&5];
    assert_eq!((ticket.id, ticket.ticket_number, ticket.purchase_time), (5, 5, START));
    // 5 per cent of 20 000, 10 000 and 30 000.
    assert_eq!(Contract::get_accumulated_fees(&frame.store), 3_000);
    assert_eq!(frame.actions[0], Action::RequireAuth(buyer()));
    assert_eq!(
        frame.actions[1],
        Action::RecordVolume { factory: factory(), token: token(), amount: 30_000 }
    );
    assert_eq!(
        frame.actions[2],
        Action::TrackParticipant { factory: factory(), participant: buyer() }
    );
    let payment = Payment { token: token(), from: buyer(), to: contract(), amount: 30_000 };
    assert_eq!(frame.actions[3], Action::TryTransfer(payment));
    match &frame.actions[4] {
        Action::PublishPurchase(news) => {
            assert_eq!(news.ticket_ids, vec![4, 5, 6]);
            assert_eq!(news.protocol_fee, 1_500);
            assert_eq!(news.effective_ticket_price, PRICE);
        }
        _ => panic!("the purchase is not published"),
    }
    assert_eq!(frame.actions.len(), 5);
}

#[test]
fn the_treasury_gets_the_fee() {
    let env = quiet_env();
    let mut c = config();
    c.treasury_address = Some(treasury());
    let mut frame = open(c);
    assert_eq!(Contract::buy_tickets(&env, &mut frame, buyer(), 1), Ok(1));
    let fee = Payment { token: token(), from: contract(), to: treasury(), amount: 500 };
    assert_eq!(has_payment(&frame, fee), 1);
}

#[test]
fn early_birds_pay_less() {
    let env = quiet_env();
    let mut c = config();
    c.early_bird_ticket_percentage = 50;
    c.early_bird_discount_bp = 2_500;
    let mut frame = open(c.clone());
    assert_eq!(tickets::effective_price(raffle(&frame), true), 7_500);
    assert_eq!(tickets::effective_price(raffle(&frame), false), 10_000);
    assert_eq!(Contract::buy_tickets(&env, &mut frame, buyer(), 4), Ok(4));
    let early = Payment { token: token(), from: buyer(), to: contract(), amount: 30_000 };
    assert_eq!(has_payment(&frame, early), 1);
    assert_eq!(Contract::get_accumulated_fees(&frame.store), 1_500);
    // The fifth ticket is the last early one, and the two behind it are not.
    assert_eq!(tickets::purchase_cost(raffle(&frame), 3, true), 27_500);
    assert_eq!(tickets::purchase_cost(raffle(&frame), 3, false), 30_000);
    assert_eq!(Contract::buy_tickets(&env, &mut frame, buyer(), 3), Ok(7));
    let mixed = Payment { token: token(), from: buyer(), to: contract(), amount: 27_500 };
    assert_eq!(has_payment(&frame, mixed), 1);
    assert_eq!(tickets::effective_price(raffle(&frame), true), 10_000);
    frame.actions.clear();
    assert_eq!(Contract::buy_tickets(&env, &mut frame, buyer(), 1), Ok(8));
    let late = Payment { token: token(), from: buyer(), to: contract(), amount: 10_000 };
    assert_eq!(has_payment(&frame, late), 1);
    let mut plain = open(c);
    assert_eq!(tickets::buy_tickets(&env, &mut plain, buyer(), 2), Ok(2));
    let full = Payment { token: token(), from: buyer(), to: contract(), amount: 20_000 };
    assert_eq!(has_payment(&plain, full), 1);
    assert_eq!(Contract::get_my_tickets(&plain.store, buyer()), vec![1, 2]);
}

#[test]
fn purchases_are_refused_for_a_reason() {
    let env = quiet_env();
    let mut frame = new_frame();
    assert_eq!(Contract::buy_tickets(&env, &mut frame, buyer(), 0), Err(Error::InvalidQuantity));
    assert_eq!(Contract::buy_tickets(&env, &mut frame, buyer(), 1), Err(Error::NotInitialized));
    let mut frame = created(config());
    assert_eq!(
        Contract::buy_tickets(&env, &mut frame, buyer(), 6),
        Err(Error::ExceedsMaxTicketsPerTx)
    );
    assert!(frame.actions.is_empty());
    assert_eq!(Contract::buy_tickets(&env, &mut frame, buyer(), 1), Err(Error::RaffleInactive));
    assert_eq!(frame.actions, vec![Action::RequireAuth(buyer())]);
    let mut frame = open(config());
    at(&mut frame, END + 1);
    assert_eq!(Contract::buy_tickets(&env, &mut frame, buyer(), 1), Err(Error::RaffleExpired));
    at(&mut frame, END);
    assert_eq!(Contract::buy_tickets(&env, &mut frame, buyer(), 5), Ok(5));
    assert_eq!(Contract::buy_tickets(&env, &mut frame, buyer(), 4), Ok(9));
    assert_eq!(Contract::buy_tickets(&env, &mut frame, buyer(), 2), Err(Error::TicketsSoldOut));
    assert_eq!(Contract::pause(&mut frame), Ok(()));
    assert_eq!(Contract::buy_tickets(&env, &mut frame, buyer(), 1), Err(Error::ContractPaused));
    let mut frame = open(config());
    assert_eq!(Contract::pause_ticket_sales(&mut frame, creator()), Ok(()));
    assert_eq!(Contract::buy_tickets(&env, &mut frame, buyer(), 1), Err(Error::ContractPaused));
    let mut frame = open(config());
    frame.store.raffle_mut().prize_deposited = false;
    assert_eq!(
        Contract::buy_tickets(&env, &mut frame, buyer(), 1),
        Err(Error::InvalidStateTransition)
    );
    let mut frame = open(config());
    frame.store.drawing_lock = true;
    assert_eq!(
        Contract::buy_tickets(&env, &mut frame, buyer(), 0),
        Err(Error::DrawingAlreadyInProgress)
    );
}

#[test]
fn one_ticket_each_where_more_are_not_allowed() {
    let env = quiet_env();
    let mut c = config();
    c.allow_multiple = false;
    let mut frame = open(c);
    assert_eq!(
        Contract::buy_tickets(&env, &mut frame, buyer(), 2),
        Err(Error::MultipleTicketsNotAllowed)
    );
    assert_eq!(Contract::buy_tickets(&env, &mut frame, buyer(), 1), Ok(1));
    assert_eq!(
        Contract::buy_tickets(&env, &mut frame, buyer(), 1),
        Err(Error::MultipleTicketsNotAllowed)
    );
    assert_eq!(Contract::buy_tickets(&env, &mut frame, other_buyer(), 1), Ok(2));
}

#[test]
fn the_last_ticket_begins_the_draw() {
    let env = quiet_env();
    let mut frame = seven_sold(external());
    assert_eq!(Contract::buy_tickets(&env, &mut frame, buyer(), 3), Ok(10));
    assert_eq!(raffle(&frame).status, RaffleStatus::Drawing);
    assert!(frame.store.drawing_lock);
    assert!(frame.store.randomness_requested);
    let request_id = build_request_id(&env, &frame.ledger);
    assert_eq!(frame.store.randomness_request_id, Some(request_id));
    assert_eq!(frame.store.randomness_request_ledger, Some(50));
    assert!(published(
        &frame,
        Event::DrawTriggered { caller: buyer(), total_tickets_sold: 10, timestamp: START }
    ));
    assert!(published(
        &frame,
        Event::RandomnessRequested { oracle: oracle(), request_id, timestamp: START }
    ));
    assert_eq!(
        Contract::buy_tickets(&env, &mut frame, buyer(), 1),
        Err(Error::DrawingAlreadyInProgress)
    );
    let mut frame = seven_sold(external());
    frame.store.randomness_requested = true;
    assert_eq!(
        Contract::buy_tickets(&env, &mut frame, buyer(), 3),
        Err(Error::RandomnessAlreadyRequested)
    );
}

// The draw

#[test]
fn a_draw_from_the_ledger_can_be_checked() {
    let env = quiet_env();
    let mut frame = seven_sold(config());
    assert_eq!(
        Contract::finalize_raffle(&env, &mut frame),
        Err(Error::InvalidStateTransition)
    );
    assert_eq!(Contract::get_fairness_data(&frame.store).err(), Some(Error::InvalidStatus));
    at(&mut frame, END);
    assert_eq!(Contract::finalize_raffle(&env, &mut frame), Ok(()));
    let seed = build_internal_seed_u64(&env, &frame.ledger);
    let data = Contract::get_fairness_data(&frame.store).unwrap();
    assert_eq!(data.seed, seed);
    assert_eq!(data.ticket_ids, vec![1, 2, 3, 4, 5, 6, 7]);
    assert_eq!(data.draw_timestamp, END);
    assert_eq!(data.draw_sequence, 50);
    assert_eq!(data.randomness_source, RandomnessSource::Internal);
    let expected = OracleSeedWinnerSelection::new(seed).select_winner_indices_pure(7, 3);
    assert_eq!(data.winning_ticket_indices, expected);
    let r = raffle(&frame);
    assert_eq!(r.status, RaffleStatus::Finalized);
    assert_eq!(r.finalized_at, Some(END));
    assert_eq!(r.claimed_winners, vec![false, false, false]);
    for (tier, index) in expected.iter().enumerate() {
        assert_eq!(Some(r.winners[tier]), get_ticket_owner(&frame.store, index + 1));
        assert!(published(
            &frame,
            Event::WinnerDrawn {
                winner: r.winners[tier],
                ticket_id: *index,
                tier_index: tier as u32,
                timestamp: END
            }
        ));
    }
    match frame.actions.last() {
        Some(Action::PublishFinalized(news)) => {
            assert_eq!(news.winning_ticket_ids, expected);
            assert_eq!(news.randomness_type, RandomnessType::Prng);
            assert_eq!(news.total_tickets_sold, 7);
        }
        _ => panic!("the winners are not published"),
    }
    assert!(!frame.store.drawing_lock);
    assert_eq!(Contract::finalize_raffle(&env, &mut frame), Err(Error::InvalidStatus));
}

/// The head of a digest as a number.
fn head(digest: [u8; 32]) -> u64 {
    let mut bytes = [0u8; 8];
    bytes.copy_from_slice(&digest[..8]);
    u64::from_be_bytes(bytes)
}

#[test]
fn ledger_seeds_and_request_numbers_are_digests() {
    let env = quiet_env();
    let frame = new_frame();
    let mut id = [0u8; 32];
    id[15] = 1;
    id[31] = 1;
    let host = AddressPayload::ContractIdHash(soroban_sdk::BytesN::from_array(&env, &id))
        .to_address(&env);
    let packed = (START, 50u32, host.clone()).to_xdr(&env);
    assert_eq!(
        build_internal_seed_u64(&env, &frame.ledger),
        head(env.crypto().sha256(&packed).to_array())
    );
    let packed = (START, 50u32, host.to_xdr(&env)).to_xdr(&env);
    assert_eq!(
        build_request_id(&env, &frame.ledger),
        head(env.crypto().sha256(&packed).to_array())
    );
}

#[test]
fn committed_hashes_make_the_seed() {
    let env = quiet_env();
    let mut c = config();
    c.randomness_source = RandomnessSource::CommitReveal;
    let mut frame = seven_sold(c.clone());
    assert_eq!(Contract::submit_commit(&mut frame, 8, [1; 32]), Err(Error::TicketNotFound));
    assert_eq!(Contract::submit_commit(&mut frame, 5, [9; 32]), Ok(()));
    assert_eq!(frame.actions, vec![Action::RequireAuth(other_buyer())]);
    assert_eq!(Contract::submit_commit(&mut frame, 2, [4; 32]), Ok(()));
    // A second hash for the same ticket takes the place of the first.
    assert_eq!(Contract::submit_commit(&mut frame, 5, [8; 32]), Ok(()));
    at(&mut frame, END);
    assert_eq!(Contract::finalize_raffle(&env, &mut frame), Ok(()));
    let mut combined = soroban_sdk::Bytes::new(&env);
    combined.extend_from_array(&[4u8; 32]);
    combined.extend_from_array(&[8u8; 32]);
    let expected = head(env.crypto().sha256(&combined).to_array());
    assert_eq!(Contract::get_fairness_data(&frame.store).unwrap().seed, expected);
    assert_eq!(Contract::submit_commit(&mut frame, 2, [4; 32]), Err(Error::InvalidStatus));
    // Without hashes the ledger gives the seed.
    let mut frame = seven_sold(c);
    at(&mut frame, END);
    assert_eq!(Contract::finalize_raffle(&env, &mut frame), Ok(()));
    assert_eq!(
        Contract::get_fairness_data(&frame.store).unwrap().seed,
        build_internal_seed_u64(&env, &frame.ledger)
    );
}

#[test]
fn hashes_are_taken_only_where_they_are_asked_for() {
    let mut frame = new_frame();
    assert_eq!(Contract::submit_commit(&mut frame, 1, [1; 32]), Err(Error::NotInitialized));
    let mut frame = seven_sold(config());
    assert_eq!(Contract::submit_commit(&mut frame, 1, [1; 32]), Err(Error::InvalidParameters));
}

#[test]
fn an_oracle_draws_the_winners() {
    let env = quiet_env();
    let mut frame = awaiting_oracle();
    assert_eq!(raffle(&frame).status, RaffleStatus::Drawing);
    let id = frame.store.randomness_request_id.unwrap();
    let wrong = Contract::provide_randomness(&env, &mut frame, 42, [1; 32], [2; 64], id ^ 1);
    assert_eq!(wrong, Err(Error::InvalidParameters));
    assert_eq!(frame.actions, vec![Action::RequireAuth(oracle())]);
    frame.actions.clear();
    let r = Contract::provide_randomness(&env, &mut frame, 42, [1; 32], [2; 64], id);
    assert_eq!(r, Ok(contract()));
    let message = build_vrf_proof_message(&env, &contract(), id, 42);
    assert_eq!(frame.actions[0], Action::RequireAuth(oracle()));
    assert_eq!(
        frame.actions[1],
        Action::CheckProof { public_key: [1; 32], message, proof: [2; 64] }
    );
    assert_eq!(
        frame.actions[2],
        Action::Publish(Event::RandomnessReceived {
            oracle: oracle(),
            seed: 42,
            request_id: id,
            timestamp: END
        })
    );
    let expected = OracleSeedWinnerSelection::new(42).select_winner_indices_pure(7, 3);
    let data = Contract::get_fairness_data(&frame.store).unwrap();
    assert_eq!(data.winning_ticket_indices, expected);
    assert!(!frame.store.randomness_requested);
    let again = Contract::provide_randomness(&env, &mut frame, 43, [1; 32], [2; 64], id);
    assert_eq!(again, Err(Error::DrawingAlreadyComplete));
}

#[test]
fn seeds_are_refused_for_a_reason() {
    let env = quiet_env();
    let mut frame = new_frame();
    frame.store.drawing_lock = true;
    let r = Contract::provide_randomness(&env, &mut frame, 1, [1; 32], [2; 64], 5);
    assert_eq!(r, Err(Error::NotInitialized));
    let mut frame = seven_sold(config());
    frame.store.drawing_lock = true;
    let r = Contract::provide_randomness(&env, &mut frame, 1, [1; 32], [2; 64], 5);
    assert_eq!(r, Err(Error::OracleNotSet));
    let mut frame = seven_sold(external());
    frame.store.drawing_lock = true;
    let r = Contract::provide_randomness(&env, &mut frame, 1, [1; 32], [2; 64], 5);
    assert_eq!(r, Err(Error::InvalidStateTransition));
    let mut frame = awaiting_oracle();
    frame.store.randomness_requested = false;
    let r = Contract::provide_randomness(&env, &mut frame, 1, [1; 32], [2; 64], 5);
    assert_eq!(r, Err(Error::NoRandomnessRequest));
}

#[test]
fn too_few_tickets_let_the_raffle_fail() {
    let env = quiet_env();
    let mut frame = open(config());
    assert_eq!(Contract::buy_tickets(&env, &mut frame, buyer(), 2), Ok(2));
    at(&mut frame, END);
    assert_eq!(Contract::finalize_raffle(&env, &mut frame), Ok(()));
    assert_eq!(raffle(&frame).status, RaffleStatus::Failed);
    assert!(published(
        &frame,
        Event::RaffleFailed {
            creator: creator(),
            reason: FailureReason::MinTicketsNotMet,
            tickets_sold: 2,
            timestamp: END
        }
    ));
}

/// Without a ticket sold the raffle fails even if it asked for none, and the prize
/// can be taken back.
#[test]
fn an_unsold_raffle_returns_the_prize() {
    let env = quiet_env();
    let mut c = config();
    c.min_tickets = 0;
    let mut frame = open(c);
    at(&mut frame, END);
    assert_eq!(Contract::finalize_raffle(&env, &mut frame), Ok(()));
    assert_eq!(raffle(&frame).status, RaffleStatus::Failed);
    assert!(published(
        &frame,
        Event::RaffleFailed {
            creator: creator(),
            reason: FailureReason::ZeroTicketsSold,
            tickets_sold: 0,
            timestamp: END
        }
    ));
    frame.actions.clear();
    assert_eq!(Contract::refund_prize(&mut frame), Ok(()));
    let back = Payment { token: token(), from: contract(), to: creator(), amount: PRIZE };
    assert_eq!(
        frame.actions,
        vec![
            Action::RequireAuth(creator()),
            Action::TryTransfer(back),
            Action::Publish(Event::PrizeRefunded {
                creator: creator(),
                amount: PRIZE,
                token: token(),
                timestamp: END
            }),
        ]
    );
    assert_eq!(Contract::refund_prize(&mut frame), Err(Error::PrizeNotDeposited));
}

#[test]
fn more_prizes_than_tickets_cannot_be_drawn() {
    let env = quiet_env();
    let mut c = config();
    c.min_tickets = 1;
    let mut frame = open(c);
    assert_eq!(Contract::buy_tickets(&env, &mut frame, buyer(), 2), Ok(2));
    at(&mut frame, END);
    assert_eq!(
        Contract::finalize_raffle(&env, &mut frame),
        Err(Error::MorePrizesThanTickets)
    );
    assert_eq!(raffle(&frame).status, RaffleStatus::Active);
    assert!(!frame.store.drawing_lock);
    let r = do_finalize_with_seed(&env, &mut frame, 1, RandomnessType::Prng);
    assert_eq!(r, Err(Error::MorePrizesThanTickets));
    let mut frame = open(config());
    let r = do_finalize_with_seed(&env, &mut frame, 1, RandomnessType::Prng);
    assert_eq!(r, Err(Error::NoTicketsSold));
    let mut frame = seven_sold(config());
    frame.store.tickets.clear();
    let r = do_finalize_with_seed(&env, &mut frame, 1, RandomnessType::Prng);
    assert_eq!(r, Err(Error::TicketNotFound));
    let mut frame = seven_sold(config());
    let r = do_finalize_with_seed(&env, &mut frame, 42, RandomnessType::Prng);
    assert_eq!(r, Ok(()));
    assert_eq!(raffle(&frame).winners.len(), 3);
}

#[test]
fn a_request_is_made_once() {
    let env = quiet_env();
    let mut frame = awaiting_oracle();
    assert_eq!(
        Contract::finalize_raffle(&env, &mut frame),
        Err(Error::RandomnessAlreadyRequested)
    );
    assert_eq!(
        draw::finalize_raffle(&env, &mut frame),
        Err(Error::DrawingAlreadyInProgress)
    );
    let mut frame = seven_sold(config());
    at(&mut frame, END);
    assert_eq!(draw::finalize_raffle(&env, &mut frame), Ok(()));
    assert_eq!(raffle(&frame).status, RaffleStatus::Finalized);
    // A draw that was left open without a request is taken up again.
    let mut frame = seven_sold(config());
    frame.store.raffle_mut().status = RaffleStatus::Drawing;
    assert_eq!(Contract::finalize_raffle(&env, &mut frame), Ok(()));
    assert_eq!(raffle(&frame).status, RaffleStatus::Finalized);
}

// The absent oracle

#[test]
fn an_absent_oracle_is_waited_for() {
    let env = quiet_env();
    let mut frame = awaiting_oracle();
    frame.ledger.sequence = 249;
    assert_eq!(
        Contract::trigger_randomness_fallback(&env, &mut frame, creator(), false),
        Err(Error::FallbackTooEarly)
    );
    assert_eq!(
        Contract::trigger_randomness_fallback(&env, &mut frame, buyer(), false),
        Err(Error::NotAuthorized)
    );
    frame.ledger.sequence = 250;
    frame.actions.clear();
    assert_eq!(
        Contract::trigger_randomness_fallback(&env, &mut frame, admin_address(), false),
        Ok(())
    );
    assert_eq!(raffle(&frame).status, RaffleStatus::Finalized);
    let seed = build_internal_seed_u64(&env, &frame.ledger);
    assert!(published(
        &frame,
        Event::RandomnessFallbackTriggered {
            triggered_by: admin_address(),
            seed_used: seed,
            request_ledger: 50,
            fallback_ledger: 250,
            timestamp: END
        }
    ));
    match frame.actions.last() {
        Some(Action::PublishFinalized(news)) => {
            assert_eq!(news.randomness_type, RandomnessType::Fallback)
        }
        _ => panic!("the winners are not published"),
    }
    assert_eq!(
        Contract::trigger_randomness_fallback(&env, &mut frame, creator(), false),
        Err(Error::DrawingAlreadyComplete)
    );
}

#[test]
fn an_absent_oracle_can_end_the_raffle() {
    let env = quiet_env();
    let mut frame = awaiting_oracle();
    frame.ledger.sequence = 250;
    assert_eq!(
        draw::trigger_randomness_fallback(&env, &mut frame, creator(), true),
        Ok(())
    );
    assert_eq!(raffle(&frame).status, RaffleStatus::Cancelled);
    assert!(!frame.store.drawing_lock && !frame.store.randomness_requested);
    assert!(published(
        &frame,
        Event::RaffleCancelled {
            creator: creator(),
            reason: CancelReason::OracleTimeout,
            tickets_sold: 7,
            prize_refunded: true,
            timestamp: END
        }
    ));
}

#[test]
fn fallbacks_are_refused_for_a_reason() {
    let env = quiet_env();
    let mut frame = seven_sold(external());
    frame.store.drawing_lock = true;
    assert_eq!(
        Contract::trigger_randomness_fallback(&env, &mut frame, creator(), false),
        Err(Error::InvalidStateTransition)
    );
    let mut frame = awaiting_oracle();
    frame.store.randomness_requested = false;
    assert_eq!(
        Contract::trigger_randomness_fallback(&env, &mut frame, creator(), false),
        Err(Error::NoRandomnessRequest)
    );
    let mut frame = new_frame();
    assert_eq!(
        draw::trigger_randomness_fallback(&env, &mut frame, creator(), false),
        Err(Error::DrawingAlreadyComplete)
    );
    frame.store.drawing_lock = true;
    assert_eq!(
        draw::trigger_randomness_fallback(&env, &mut frame, creator(), false),
        Err(Error::NotInitialized)
    );
}

// The prizes

#[test]
fn tiers_share_the_prize_to_the_last_unit() {
    let frame = drawn(42);
    let r = raffle(&frame);
    assert_eq!(calculate_tier_prize(r, 0), Ok(500_001));
    assert_eq!(calculate_tier_prize(r, 1), Ok(300_000));
    assert_eq!(calculate_tier_prize(r, 2), Ok(200_002));
    assert_eq!(calculate_tier_prize(r, 3), Err(Error::InvalidIndex));
}

#[test]
fn winners_claim_their_tiers() {
    let mut frame = drawn(42);
    let winners = raffle(&frame).winners.clone();
    at(&mut frame, END + 3_599);
    assert_eq!(
        Contract::claim_prize(&mut frame, winners[0], 0),
        Err(Error::ClaimTooEarly)
    );
    at(&mut frame, END + 3_600);
    assert_eq!(Contract::claim_prize(&mut frame, winners[0], 3), Err(Error::InvalidParameters));
    assert_eq!(Contract::claim_prize(&mut frame, creator(), 0), Err(Error::NotWinner));
    frame.actions.clear();
    assert_eq!(Contract::claim_prize(&mut frame, winners[0], 0), Ok(500_001));
    assert_eq!(
        frame.actions,
        vec![
            Action::RequireAuth(winners[0]),
            Action::TryTransfer(Payment {
                token: token(),
                from: contract(),
                to: winners[0],
                amount: 500_001
            }),
            Action::Publish(Event::PrizeClaimed {
                winner: winners[0],
                tier_index: 0,
                payment_token: token(),
                gross_amount: 500_001,
                net_amount: 500_001,
                platform_fee: 0,
                claimed_at: END + 3_600
            }),
        ]
    );
    assert_eq!(
        Contract::claim_prize(&mut frame, winners[0], 0),
        Err(Error::PrizeAlreadyClaimed)
    );
    assert_eq!(Contract::claim_prize(&mut frame, winners[2], 2), Ok(200_002));
    assert_eq!(raffle(&frame).status, RaffleStatus::Finalized);
    assert_eq!(Contract::claim_prize(&mut frame, winners[1], 1), Ok(300_000));
    assert_eq!(raffle(&frame).status, RaffleStatus::Claimed);
    assert!(published(
        &frame,
        Event::RaffleStatusChanged {
            old_status: RaffleStatus::Finalized,
            new_status: RaffleStatus::Claimed,
            timestamp: END + 3_600
        }
    ));
    assert_eq!(Contract::claim_prize(&mut frame, winners[1], 1), Err(Error::InvalidStatus));
    assert!(!frame.store.reentrancy_guard);
}

#[test]
fn claims_are_refused_for_a_reason() {
    let mut frame = new_frame();
    assert_eq!(Contract::claim_prize(&mut frame, buyer(), 0), Err(Error::NotInitialized));
    let mut frame = drawn(42);
    frame.store.reentrancy_guard = true;
    assert_eq!(Contract::claim_prize(&mut frame, buyer(), 0), Err(Error::Reentrancy));
}

#[test]
fn a_tier_without_a_share_pays_nothing() {
    let env = quiet_env();
    let mut c = config();
    c.prizes = vec![0, 10_000];
    let mut frame = seven_sold(c);
    at(&mut frame, END);
    assert_eq!(Contract::finalize_raffle(&env, &mut frame), Ok(()));
    at(&mut frame, END + 3_600);
    let winners = raffle(&frame).winners.clone();
    assert_eq!(Contract::claim_prize(&mut frame, winners[0], 0), Err(Error::ZeroPrize));
    assert_eq!(Contract::claim_prize(&mut frame, winners[1], 1), Ok(PRIZE));
}

// Calling off and paying back

#[test]
fn the_creator_and_the_admin_can_call_a_raffle_off() {
    let mut frame = seven_sold(config());
    assert_eq!(
        Contract::cancel_raffle(&mut frame, CancelReason::CreatorCancelled),
        Ok(())
    );
    assert_eq!(frame.actions[0], Action::RequireAuth(creator()));
    assert_eq!(raffle(&frame).status, RaffleStatus::Cancelled);
    assert_eq!(
        Contract::cancel_raffle(&mut frame, CancelReason::AdminCancelled),
        Err(Error::InvalidStatus)
    );
    let mut frame = seven_sold(config());
    assert_eq!(Contract::cancel_raffle(&mut frame, CancelReason::AdminCancelled), Ok(()));
    assert_eq!(frame.actions, vec![Action::RequireAuth(admin_address())]);
    assert_eq!(raffle(&frame).status, RaffleStatus::Active);
    assert_eq!(Contract::get_pending_cancel(&frame.store), Some(START + 86_400));
    let mut frame = seven_sold(config());
    frame.store.admin = None;
    assert_eq!(
        Contract::cancel_raffle(&mut frame, CancelReason::AdminCancelled),
        Err(Error::NotAuthorized)
    );
    let mut frame = new_frame();
    assert_eq!(
        Contract::cancel_raffle(&mut frame, CancelReason::AdminCancelled),
        Err(Error::NotInitialized)
    );
}

#[test]
fn calling_off_ends_a_draw() {
    let mut frame = awaiting_oracle();
    assert_eq!(
        Contract::cancel_raffle(&mut frame, CancelReason::CreatorCancelled),
        Ok(())
    );
    assert!(!frame.store.drawing_lock);
    assert!(!frame.store.randomness_requested);
    assert_eq!(frame.store.randomness_request_id, None);
    assert_eq!(frame.store.randomness_request_ledger, None);
    let mut frame = awaiting_oracle();
    assert_eq!(admin::cancel_raffle(&mut frame, CancelReason::CreatorCancelled), Ok(()));
    assert!(!frame.store.drawing_lock && !frame.store.randomness_requested);
    // A scheduled cancellation leaves the draw alone until it is carried out.
    let mut frame = awaiting_oracle();
    assert_eq!(admin::cancel_raffle(&mut frame, CancelReason::AdminCancelled), Ok(()));
    assert!(frame.store.drawing_lock && frame.store.randomness_requested);
    assert_eq!(raffle(&frame).status, RaffleStatus::Drawing);
    at(&mut frame, END + 86_400);
    assert_eq!(Contract::execute_admin_cancel(&mut frame), Ok(()));
    assert!(!frame.store.drawing_lock && !frame.store.randomness_requested);
    assert_eq!(frame.store.randomness_request_id, None);
    assert_eq!(frame.store.randomness_request_ledger, None);
    let mut frame = drawn(42);
    assert_eq!(
        Contract::cancel_raffle(&mut frame, CancelReason::CreatorCancelled),
        Err(Error::InvalidStatus)
    );
}

#[test]
fn scheduled_cancellations_wait_for_their_time() {
    let mut frame = seven_sold(config());
    assert_eq!(Contract::execute_admin_cancel(&mut frame), Err(Error::CancelNotScheduled));
    assert_eq!(Contract::get_pending_cancel(&frame.store), None);
    assert_eq!(Contract::cancel_raffle(&mut frame, CancelReason::AdminCancelled), Ok(()));
    let due = START + 86_400;
    assert_eq!(Contract::get_pending_cancel(&frame.store), Some(due));
    at(&mut frame, due - 1);
    assert_eq!(Contract::execute_admin_cancel(&mut frame), Err(Error::CancelTimelockActive));
    // Tickets can be given back already.
    assert_eq!(Contract::refund_ticket(&mut frame, 1), Ok(PRICE));
    at(&mut frame, due);
    assert_eq!(Contract::execute_admin_cancel(&mut frame), Ok(()));
    assert_eq!(raffle(&frame).status, RaffleStatus::Cancelled);
    assert_eq!(Contract::get_pending_cancel(&frame.store), None);
    assert!(published(
        &frame,
        Event::RaffleCancelled {
            creator: creator(),
            reason: CancelReason::AdminCancelled,
            tickets_sold: 7,
            prize_refunded: true,
            timestamp: due
        }
    ));
    frame.store.pending_admin_cancel = Some(500);
    assert_eq!(Contract::execute_admin_cancel(&mut frame), Err(Error::InvalidStatus));
    let mut frame = new_frame();
    assert_eq!(Contract::execute_admin_cancel(&mut frame), Err(Error::NotAuthorized));
}

/// At the end of time a cancellation is due at the last moment.
#[test]
fn scheduled_cancellations_stay_within_time() {
    for (now, due) in [
        (u64::MAX - 86_401, u64::MAX - 1),
        (u64::MAX - 86_400, u64::MAX),
        (u64::MAX - 1, u64::MAX),
        (u64::MAX, u64::MAX),
    ] {
        let mut frame = seven_sold(config());
        at(&mut frame, now);
        assert_eq!(Contract::cancel_raffle(&mut frame, CancelReason::AdminCancelled), Ok(()));
        assert_eq!(Contract::get_pending_cancel(&frame.store), Some(due));
        at(&mut frame, due - 1);
        assert_eq!(Contract::execute_admin_cancel(&mut frame), Err(Error::CancelTimelockActive));
        at(&mut frame, due);
        assert_eq!(Contract::execute_admin_cancel(&mut frame), Ok(()));
    }
}

#[test]
fn tickets_are_given_back_once() {
    let mut frame = seven_sold(config());
    assert_eq!(Contract::refund_ticket(&mut frame, 5), Err(Error::InvalidStatus));
    assert_eq!(
        Contract::cancel_raffle(&mut frame, CancelReason::CreatorCancelled),
        Ok(())
    );
    frame.actions.clear();
    assert_eq!(Contract::refund_ticket(&mut frame, 5), Ok(PRICE));
    assert_eq!(frame.actions[0], Action::RequireAuth(other_buyer()));
    let back = Payment { token: token(), from: contract(), to: other_buyer(), amount: PRICE };
    assert_eq!(frame.actions[1], Action::TryTransfer(back));
    assert_eq!(frame.actions.len(), 3);
    assert!(published(
        &frame,
        Event::TicketRefunded {
            buyer: other_buyer(),
            ticket_number: 5,
            amount: PRICE,
            timestamp: START
        }
    ));
    assert_eq!(Contract::refund_ticket(&mut frame, 5), Err(Error::PrizeAlreadyClaimed));
    assert_eq!(Contract::refund_ticket(&mut frame, 8), Err(Error::TicketNotFound));
    frame.store.reentrancy_guard = true;
    assert_eq!(Contract::refund_ticket(&mut frame, 4), Err(Error::Reentrancy));
    let mut frame = new_frame();
    assert_eq!(Contract::refund_ticket(&mut frame, 4), Err(Error::NotInitialized));
}

#[test]
fn tickets_are_given_back_together() {
    let mut frame = seven_sold(config());
    assert_eq!(
        Contract::batch_refund_tickets(&mut frame, buyer(), &vec![1]),
        Err(Error::InvalidStatus)
    );
    assert_eq!(
        Contract::cancel_raffle(&mut frame, CancelReason::CreatorCancelled),
        Ok(())
    );
    frame.actions.clear();
    assert_eq!(
        Contract::batch_refund_tickets(&mut frame, buyer(), &vec![1, 9, 5]),
        Err(Error::TicketNotFound)
    );
    assert_eq!(
        Contract::batch_refund_tickets(&mut frame, buyer(), &vec![1, 5, 9]),
        Err(Error::NotAuthorized)
    );
    assert_eq!(
        Contract::batch_refund_tickets(&mut frame, buyer(), &vec![1; 51]),
        Err(Error::InvalidParameters)
    );
    assert!(frame.store.refunded.is_empty());
    frame.actions.clear();
    assert_eq!(
        Contract::batch_refund_tickets(&mut frame, buyer(), &vec![1, 3, 1]),
        Ok(2 * PRICE)
    );
    let back = Payment { token: token(), from: contract(), to: buyer(), amount: 2 * PRICE };
    assert_eq!(frame.actions[0], Action::RequireAuth(buyer()));
    assert_eq!(frame.actions.len(), 4);
    assert_eq!(frame.actions[3], Action::Transfer(back));
    frame.actions.clear();
    assert_eq!(
        Contract::batch_refund_tickets(&mut frame, buyer(), &vec![3, 2]),
        Ok(PRICE)
    );
    assert_eq!(Contract::batch_refund_tickets(&mut frame, buyer(), &vec![3, 2]), Ok(0));
    assert_eq!(Contract::batch_refund_tickets(&mut frame, buyer(), &vec![]), Ok(0));
    assert!(!frame.store.reentrancy_guard);
    frame.store.reentrancy_guard = true;
    assert_eq!(
        Contract::batch_refund_tickets(&mut frame, buyer(), &vec![4]),
        Err(Error::Reentrancy)
    );
}

#[test]
fn the_prize_goes_back_only_from_an_ended_raffle() {
    let mut frame = seven_sold(config());
    assert_eq!(Contract::refund_prize(&mut frame), Err(Error::InvalidStatus));
    let mut frame = created(config());
    assert_eq!(
        Contract::cancel_raffle(&mut frame, CancelReason::CreatorCancelled),
        Ok(())
    );
    assert_eq!(Contract::refund_prize(&mut frame), Err(Error::PrizeNotDeposited));
    let mut frame = new_frame();
    assert_eq!(Contract::refund_prize(&mut frame), Err(Error::NotInitialized));
}

/// After the prize has gone back a new one can be paid in, and only then the sale
/// goes on.
#[test]
fn the_prize_goes_back_once() {
    let mut frame = seven_sold(config());
    assert_eq!(
        Contract::cancel_raffle(&mut frame, CancelReason::CreatorCancelled),
        Ok(())
    );
    assert_eq!(Contract::refund_prize(&mut frame), Ok(()));
    assert_eq!(Contract::refund_prize(&mut frame), Err(Error::PrizeNotDeposited));
    assert_eq!(
        Contract::emergency_withdraw(&mut frame, creator()),
        Err(Error::PrizeNotDeposited)
    );
    assert_eq!(Contract::claim_prize(&mut frame, buyer(), 0), Err(Error::InvalidStatus));
    assert_eq!(Contract::deposit_prize(&mut frame), Ok(()));
    assert_eq!(raffle(&frame).status, RaffleStatus::Active);
    assert_eq!(raffle(&frame).tickets_sold, 7);
}

/// An emergency withdrawal from a draw ends the draw.
#[test]
fn emergencies_free_the_lock() {
    let env = quiet_env();
    let mut frame = awaiting_oracle();
    at(&mut frame, END + 7_776_000);
    assert_eq!(Contract::emergency_withdraw(&mut frame, creator()), Ok(()));
    assert!(!frame.store.drawing_lock && !frame.store.randomness_requested);
    assert_eq!(frame.store.randomness_request_id, None);
    assert_eq!(frame.store.randomness_request_ledger, None);
    let r = Contract::provide_randomness(&env, &mut frame, 42, [1; 32], [2; 64], 5);
    assert_eq!(r, Err(Error::DrawingAlreadyComplete));
}

/// A ticket that was given back alone is not paid for in a batch, nor the other way
/// round.
#[test]
fn tickets_are_given_back_alone_or_together() {
    let mut frame = seven_sold(config());
    assert_eq!(
        Contract::cancel_raffle(&mut frame, CancelReason::CreatorCancelled),
        Ok(())
    );
    assert_eq!(Contract::refund_ticket(&mut frame, 1), Ok(PRICE));
    frame.actions.clear();
    assert_eq!(Contract::batch_refund_tickets(&mut frame, buyer(), &vec![1]), Ok(0));
    assert_eq!(frame.actions, vec![Action::RequireAuth(buyer())]);
    assert_eq!(Contract::batch_refund_tickets(&mut frame, buyer(), &vec![1, 2]), Ok(PRICE));
    assert_eq!(Contract::refund_ticket(&mut frame, 2), Err(Error::PrizeAlreadyClaimed));
}

/// The draw of a raffle that was called off after it can still be checked.
#[test]
fn draws_can_be_checked_after_an_emergency() {
    let mut frame = drawn(42);
    let before = Contract::get_fairness_data(&frame.store).unwrap();
    let winners = raffle(&frame).winners.clone();
    at(&mut frame, END + 7_776_000);
    assert_eq!(Contract::emergency_withdraw(&mut frame, creator()), Ok(()));
    assert_eq!(Contract::get_fairness_data(&frame.store).unwrap(), before);
    let expected = OracleSeedWinnerSelection::new(42).select_winner_indices_pure(7, 3);
    assert_eq!(before.winning_ticket_indices, expected);
    for (tier, index) in expected.iter().enumerate() {
        assert_eq!(Some(winners[tier]), get_ticket_owner(&frame.store, index + 1));
    }
}

/// What is published of a draw is the same after each claim, and after the last.
#[test]
fn published_draws_stay_through_the_claims() {
    let mut frame = drawn(42);
    let published_first = Contract::get_fairness_data(&frame.store).unwrap();
    assert_eq!(published_first.seed, 42);
    let winners = raffle(&frame).winners.clone();
    assert_eq!(winners.len(), 3);
    at(&mut frame, END + 3_600);
    for (tier, winner) in winners.iter().enumerate() {
        assert!(Contract::claim_prize(&mut frame, *winner, tier as u32).is_ok());
        assert_eq!(Contract::get_fairness_data(&frame.store).unwrap(), published_first);
        assert_eq!(raffle(&frame).winners, winners);
    }
    assert_eq!(raffle(&frame).status, RaffleStatus::Claimed);
}

#[test]
fn refused_actions_have_their_errors() {
    let payment = Payment { token: token(), from: buyer(), to: contract(), amount: 1 };
    assert_eq!(
        Action::CheckToken(token()).error_if_refused(),
        Some(Error::InvalidTokenAddress)
    );
    assert_eq!(
        Action::TryTransfer(payment).error_if_refused(),
        Some(Error::TokenTransferFailed)
    );
    assert_eq!(Action::Transfer(payment).error_if_refused(), None);
    assert_eq!(Action::RequireAuth(buyer()).error_if_refused(), None);
}

#[test]
fn emergencies_come_after_ninety_days() {
    const DELAY: u64 = 7_776_000;
    let mut frame = drawn(42);
    at(&mut frame, END + DELAY - 1);
    assert_eq!(
        Contract::emergency_withdraw(&mut frame, creator()),
        Err(Error::EmergencyTooEarly)
    );
    at(&mut frame, END + DELAY);
    assert_eq!(Contract::emergency_withdraw(&mut frame, buyer()), Err(Error::NotAuthorized));
    frame.actions.clear();
    assert_eq!(Contract::emergency_withdraw(&mut frame, admin_address()), Ok(()));
    assert_eq!(raffle(&frame).status, RaffleStatus::Cancelled);
    let back = Payment { token: token(), from: contract(), to: creator(), amount: PRIZE };
    assert_eq!(has_payment(&frame, back), 1);
    assert_eq!(
        Contract::emergency_withdraw(&mut frame, creator()),
        Err(Error::PrizeNotDeposited)
    );
    // During a draw the end of the sale counts.
    let mut frame = awaiting_oracle();
    at(&mut frame, END + DELAY - 1);
    assert_eq!(
        admin::emergency_withdraw(&mut frame, creator()),
        Err(Error::EmergencyTooEarly)
    );
    at(&mut frame, END + DELAY);
    assert_eq!(admin::emergency_withdraw(&mut frame, creator()), Ok(()));
    let mut frame = open(config());
    assert_eq!(
        Contract::emergency_withdraw(&mut frame, creator()),
        Err(Error::InvalidStatus)
    );
    let mut frame = new_frame();
    assert_eq!(
        Contract::emergency_withdraw(&mut frame, creator()),
        Err(Error::NotInitialized)
    );
}

#[test]
fn without_a_deadline_the_request_counts() {
    let env = quiet_env();
    let mut c = external();
    c.no_deadline = true;
    c.end_time = 0;
    let mut frame = seven_sold(c);
    assert_eq!(Contract::buy_tickets(&env, &mut frame, buyer(), 3), Ok(10));
    // 1 555 200 ledgers of five seconds are ninety days.
    frame.ledger.sequence = 50 + 1_555_199;
    assert_eq!(
        Contract::emergency_withdraw(&mut frame, creator()),
        Err(Error::EmergencyTooEarly)
    );
    frame.ledger.sequence = 50 + 1_555_200;
    assert_eq!(Contract::emergency_withdraw(&mut frame, creator()), Ok(()));
}

// The offices

#[test]
fn fees_are_paid_out_after_the_draw() {
    let mut frame = drawn(42);
    assert_eq!(
        Contract::withdraw_fees(&mut frame, treasury(), 1),
        Err(Error::NotAuthorized)
    );
    frame.store.standing_admin = Some(admin_address());
    assert_eq!(
        Contract::withdraw_fees(&mut frame, treasury(), 0),
        Err(Error::InvalidParameters)
    );
    assert_eq!(
        Contract::withdraw_fees(&mut frame, treasury(), 3_501),
        Err(Error::InsufficientAccumulatedFees)
    );
    frame.actions.clear();
    assert_eq!(Contract::withdraw_fees(&mut frame, treasury(), 3_000), Ok(()));
    assert_eq!(Contract::get_accumulated_fees(&frame.store), 500);
    let paid = Payment { token: token(), from: contract(), to: treasury(), amount: 3_000 };
    assert_eq!(
        frame.actions,
        vec![
            Action::RequireAuth(admin_address()),
            Action::Transfer(paid),
            Action::Publish(Event::FeesWithdrawn {
                recipient: treasury(),
                amount: 3_000,
                token: token(),
                timestamp: END
            }),
        ]
    );
    let mut frame = seven_sold(config());
    frame.store.standing_admin = Some(admin_address());
    assert_eq!(
        Contract::withdraw_fees(&mut frame, treasury(), 1),
        Err(Error::InvalidStatus)
    );
}

#[test]
fn the_standing_admin_hands_the_office_on() {
    let mut frame = open(config());
    assert_eq!(
        Contract::set_admin(&mut frame, account(20), true),
        Err(Error::NotAuthorized)
    );
    frame.store.standing_admin = Some(admin_address());
    assert_eq!(
        Contract::set_admin(&mut frame, account(20), false),
        Err(Error::InvalidAdminAddress)
    );
    assert_eq!(
        Contract::set_admin(&mut frame, contract(), true),
        Err(Error::InvalidAdminAddress)
    );
    assert_eq!(Contract::set_admin(&mut frame, account(20), true), Ok(()));
    assert_eq!(frame.store.standing_admin, Some(account(20)));
}

#[test]
fn settings_change_before_the_sale() {
    let mut frame = open(external());
    assert_eq!(
        Contract::set_protocol_fee_bp(&mut frame, 100),
        Err(Error::NotAuthorized)
    );
    frame.store.standing_admin = Some(admin_address());
    assert_eq!(
        Contract::set_protocol_fee_bp(&mut frame, 2_001),
        Err(Error::InvalidParameters)
    );
    assert_eq!(Contract::set_protocol_fee_bp(&mut frame, 2_000), Ok(()));
    assert_eq!(raffle(&frame).protocol_fee_bp, 2_000);
    assert!(published(
        &frame,
        Event::ProtocolFeeUpdated {
            old_fee_bp: 500,
            new_fee_bp: 2_000,
            updated_by: admin_address(),
            timestamp: START
        }
    ));
    assert_eq!(
        Contract::set_swap_deadline(&mut frame, 3_601),
        Err(Error::InvalidParameters)
    );
    assert_eq!(Contract::set_swap_deadline(&mut frame, 3_600), Ok(()));
    assert_eq!(raffle(&frame).swap_deadline_seconds, 3_600);
    assert_eq!(
        Contract::update_oracle_address(&mut frame, contract()),
        Err(Error::InvalidParameters)
    );
    assert_eq!(Contract::update_oracle_address(&mut frame, account(21)), Ok(()));
    assert_eq!(raffle(&frame).oracle_address, Some(account(21)));
    assert!(published(
        &frame,
        Event::OracleAddressUpdated {
            old_oracle: Some(oracle()),
            new_oracle: account(21),
            updated_by: admin_address(),
            timestamp: START
        }
    ));
    let mut frame = seven_sold(config());
    frame.store.standing_admin = Some(admin_address());
    assert_eq!(Contract::set_protocol_fee_bp(&mut frame, 1), Err(Error::InvalidStatus));
    assert_eq!(Contract::set_swap_deadline(&mut frame, 1), Err(Error::InvalidStatus));
    assert_eq!(
        Contract::update_oracle_address(&mut frame, oracle()),
        Err(Error::InvalidParameters)
    );
    let mut frame = drawn(42);
    frame.store.standing_admin = Some(admin_address());
    assert_eq!(
        Contract::update_oracle_address(&mut frame, account(21)),
        Err(Error::InvalidStatus)
    );
}

#[test]
fn the_factory_pauses_the_contract() {
    let mut frame = open(config());
    assert!(!Contract::is_paused(&frame.store));
    assert_eq!(Contract::pause(&mut frame), Ok(()));
    assert!(Contract::is_paused(&frame.store));
    assert_eq!(
        frame.actions,
        vec![
            Action::RequireAuth(factory()),
            Action::Publish(Event::ContractPaused { paused_by: factory(), timestamp: START }),
        ]
    );
    assert_eq!(Contract::unpause(&mut frame), Ok(()));
    assert!(!Contract::is_paused(&frame.store));
    let mut frame = new_frame();
    assert_eq!(Contract::pause(&mut frame), Err(Error::NotAuthorized));
    assert_eq!(Contract::unpause(&mut frame), Err(Error::NotAuthorized));
}

#[test]
fn the_sale_can_be_paused() {
    let mut frame = open(config());
    assert_eq!(
        Contract::pause_ticket_sales(&mut frame, buyer()),
        Err(Error::NotAuthorized)
    );
    assert_eq!(Contract::pause_ticket_sales(&mut frame, admin_address()), Ok(()));
    assert!(Contract::is_ticket_sales_paused(&frame.store));
    assert_eq!(Contract::resume_ticket_sales(&mut frame, creator()), Ok(()));
    assert!(!Contract::is_ticket_sales_paused(&frame.store));
    assert!(published(
        &frame,
        Event::TicketSalesResumed { resumed_by: creator(), timestamp: START }
    ));
    let mut frame = created(config());
    assert_eq!(
        Contract::pause_ticket_sales(&mut frame, creator()),
        Err(Error::InvalidStatus)
    );
    let mut frame = new_frame();
    assert!(!Contract::is_ticket_sales_paused(&frame.store));
    assert_eq!(
        Contract::resume_ticket_sales(&mut frame, creator()),
        Err(Error::NotInitialized)
    );
}

#[test]
fn strays_are_rescued_but_not_the_prize() {
    let mut frame = open(config());
    assert_eq!(
        Contract::rescue_tokens(&mut frame, token(), treasury(), 5),
        Err(Error::InvalidParameters)
    );
    assert_eq!(
        admin::rescue_tokens(&mut frame, token(), treasury(), 5),
        Err(Error::InvalidParameters)
    );
    assert_eq!(
        Contract::rescue_tokens(&mut frame, account(30), treasury(), 0),
        Err(Error::InvalidParameters)
    );
    frame.actions.clear();
    assert_eq!(Contract::rescue_tokens(&mut frame, account(30), treasury(), 5), Ok(()));
    let rescued = Payment { token: account(30), from: contract(), to: treasury(), amount: 5 };
    assert_eq!(
        frame.actions,
        vec![
            Action::RequireAuth(admin_address()),
            Action::TryTransfer(rescued),
            Action::Publish(Event::TokensRescued {
                rescued_by: admin_address(),
                token: account(30),
                recipient: treasury(),
                amount: 5,
                timestamp: START
            }),
        ]
    );
    let mut frame = created(config());
    assert_eq!(Contract::rescue_tokens(&mut frame, token(), treasury(), 5), Ok(()));
    let mut frame = new_frame();
    assert_eq!(
        Contract::rescue_tokens(&mut frame, token(), treasury(), 5),
        Err(Error::NotAuthorized)
    );
}

#[test]
fn wiping_leaves_room_for_a_new_raffle() {
    let mut c = config();
    c.randomness_source = RandomnessSource::CommitReveal;
    let mut frame = seven_sold(c);
    assert_eq!(Contract::submit_commit(&mut frame, 1, [1; 32]), Ok(()));
    assert_eq!(Contract::wipe_storage(&mut frame), Err(Error::InvalidStatus));
    frame.store.pending_admin_cancel = Some(5);
    assert_eq!(
        Contract::cancel_raffle(&mut frame, CancelReason::CreatorCancelled),
        Ok(())
    );
    assert_eq!(Contract::refund_ticket(&mut frame, 2), Ok(PRICE));
    assert_eq!(Contract::wipe_storage(&mut frame), Ok(()));
    for key in [
        DataKey::Raffle,
        DataKey::TicketCount(buyer()),
        DataKey::Ticket(1),
        DataKey::TicketRefunded(2),
        DataKey::Factory,
        DataKey::ReentrancyGuard,
        DataKey::Paused,
        DataKey::Admin,
        DataKey::RandomnessSeed,
        DataKey::RandomnessRequested,
        DataKey::RandomnessRequestLedger,
        DataKey::RandomnessRequestId,
        DataKey::FinishTime,
        DataKey::AccumulatedFees,
        DataKey::CommitEntry(1),
        DataKey::DrawingLock,
        DataKey::TicketBuyers,
        DataKey::OwnerTickets(buyer()),
        DataKey::PendingAdminCancel,
    ] {
        assert!(!frame.store.has(key), "{key:?} is left");
    }
    assert_eq!(Contract::wipe_storage(&mut frame), Err(Error::NotAuthorized));
    assert_eq!(
        Contract::init(&mut frame, factory(), admin_address(), creator(), config()),
        Ok(())
    );
}

#[test]
fn the_other_wipe_keeps_the_index() {
    let mut frame = seven_sold(config());
    assert!(frame.store.has(DataKey::OwnerTickets(buyer())));
    assert!(frame.store.has(DataKey::AccumulatedFees));
    frame.store.pending_admin_cancel = Some(5);
    assert_eq!(
        Contract::cancel_raffle(&mut frame, CancelReason::CreatorCancelled),
        Ok(())
    );
    assert_eq!(admin::wipe_storage(&mut frame), Ok(()));
    assert!(!frame.store.has(DataKey::Ticket(1)));
    assert!(frame.store.has(DataKey::OwnerTickets(buyer())));
    assert!(frame.store.has(DataKey::PendingAdminCancel));
}

#[test]
fn swaps_must_give_enough() {
    let frame = open(config());
    let r = raffle(&frame);
    assert_eq!(enforce_swap_guard(&frame.ledger, r, 99, 100), Err(Error::SlippageExceeded));
    assert_eq!(enforce_swap_guard(&frame.ledger, r, 100, 100), Ok(()));
}

#[test]
fn errors_have_their_numbers() {
    assert_eq!(Error::RaffleNotFound.code(), 1);
    assert_eq!(Error::FallbackTooEarly.code(), 9);
    assert_eq!(Error::PrizeNotDeposited.code(), 11);
    assert_eq!(Error::InvalidParameters.code(), 21);
    assert_eq!(Error::InsufficientTickets.code(), 31);
    assert_eq!(Error::ArithmeticOverflow.code(), 41);
    assert_eq!(Error::MorePrizesThanTickets.code(), 50);
    assert_eq!(Error::RandomnessTooEarly.code(), 64);
}
