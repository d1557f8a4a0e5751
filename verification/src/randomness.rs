//! Seeds, and the two ways of choosing winners.
//!
//! A seed from the ledger is visible to everybody and can be biased by
//! validators: it is meant for raffles with low stakes. For high stakes an oracle
//! delivers a seed that nobody could predict or bend.

use crate::address::Address;
use crate::bytes::{big_endian, leading_u64};
use crate::host::{
    holds_numbers, host_vec_get, host_vec_len, host_vec_new, host_vec_push_back, items_of,
    ledger_network_id,
    ledger_sequence, ledger_timestamp, prng_below, prng_seed, proof_message_to_xdr,
    seed_and_tickets_to_xdr, seed_inputs_to_xdr, sha256, sha256_of, xdr_of_proof_message,
    xdr_of_seed_and_tickets, xdr_of_seed_inputs,
};
use crate::lcg::advance;
use crate::sampling::{
    accepted_comes_first, accepts, distinct_indices, draw_always_ends, first_accepted,
    first_accepted_at, indices_with_repeats_from, is_draw, largest_multiple,
    rejected_is_passed_over, requested_indices, requests_are_met, some_ticket_is_left,
    winners_are_distinct_tickets, winners_from, winning_indices,
};
use soroban_sdk::Env;
use vstd::prelude::*;

verus! {

/// A digest, unless it is all zero: that is no digest but the mark of a failed
/// computation, and would make the draw predictable.
pub open spec fn valid_digest(digest: Seq<u8>) -> Option<Seq<u8>> {
    if forall|i: int| 0 <= i < digest.len() ==> digest[i] == 0 {
        None
    } else {
        Some(digest)
    }
}

/// The contents of an optional digest.
pub open spec fn contents(digest: Option<[u8; 32]>) -> Option<Seq<u8>> {
    match digest {
        Some(d) => Some(d@),
        None => None,
    }
}

/// Hands a digest on, unless it is all zero.
pub fn check_digest(digest: [u8; 32]) -> (r: Option<[u8; 32]>)
    ensures
        contents(r) == valid_digest(digest@),
        r matches Some(d) ==> d == digest,
{
    let mut i: usize = 0;
    while i < 32
        invariant
            i <= 32,
            forall|j: int| 0 <= j < i ==> digest@[j] == 0,
        decreases 32 - i,
    {
        if digest[i] != 0 {
            assert(digest@[i as int] != 0);
            return Some(digest);
        }
        i += 1;
    }
    None
}

/// Hashes a byte string with SHA-256; `None` if the digest is all zero.
fn hash_bytes32(env: &Env, input: &Vec<u8>) -> (r: Option<[u8; 32]>)
    requires
        input@.len() <= u32::MAX,
    ensures
        contents(r) == valid_digest(sha256_of(input@)),
{
    check_digest(sha256(env, input))
}

/// The seed that a ledger gives a raffle: the digest of the ledger's time and
/// number, the network's identifier and the raffle's address.
pub open spec fn internal_seed_of(
    timestamp: u64,
    sequence: u32,
    network_id: Seq<u8>,
    raffle_id: Address,
) -> Option<Seq<u8>> {
    valid_digest(sha256_of(xdr_of_seed_inputs(timestamp, sequence, network_id, raffle_id)))
}

/// Builds the seed of a raffle from the given state of the ledger.
pub fn internal_seed(
    env: &Env,
    timestamp: u64,
    sequence: u32,
    network_id: &[u8; 32],
    raffle_id: &Address,
) -> (r: Option<[u8; 32]>)
    ensures
        contents(r) == internal_seed_of(timestamp, sequence, network_id@, *raffle_id),
{
    let raw = seed_inputs_to_xdr(env, timestamp, sequence, network_id, raffle_id);
    hash_bytes32(env, &raw)
}

/// Builds a 32-byte seed for the host's generator by hashing the state of the
/// ledger and the raffle's address; `None` if the hash failed.
///
/// For low stakes only: anybody who knows the ledger can compute it.
pub fn build_internal_seed(env: &Env, raffle_id: &Address) -> (r: Option<[u8; 32]>)
    ensures
        exists|timestamp: u64, sequence: u32, network_id: [u8; 32]|
            contents(r) == #[trigger] internal_seed_of(timestamp, sequence, network_id@, *raffle_id),
{
    let timestamp: u64 = ledger_timestamp(env);
    let sequence: u32 = ledger_sequence(env);
    let network_id = ledger_network_id(env);
    internal_seed(env, timestamp, sequence, &network_id, raffle_id)
}

/// The seed of a draw: the ledger's seed hashed once more together with the
/// number of tickets sold.
pub open spec fn mixed_seed_of(base: Option<Seq<u8>>, tickets_sold: u32) -> Option<Seq<u8>> {
    match base {
        Some(b) => valid_digest(sha256_of(xdr_of_seed_and_tickets(b, tickets_sold))),
        None => None,
    }
}

/// Mixes the number of tickets sold into a seed.
pub fn mix_seed(env: &Env, base: Option<[u8; 32]>, tickets_sold: u32) -> (r: Option<[u8; 32]>)
    ensures
        contents(r) == mixed_seed_of(contents(base), tickets_sold),
{
    match base {
        Some(b) => {
            let combined = seed_and_tickets_to_xdr(env, &b, tickets_sold);
            hash_bytes32(env, &combined)
        },
        None => None,
    }
}

/// The fingerprint of a seed: the leading eight bytes of its digest.
pub open spec fn fingerprint_of(seed: Option<Seq<u8>>) -> Option<u64> {
    match seed {
        Some(s) => match valid_digest(sha256_of(s)) {
            Some(d) => Some(big_endian(d.take(8)) as u64),
            None => None,
        },
        None => None,
    }
}

/// Computes the fingerprint of a seed.
pub fn fingerprint(env: &Env, seed: Option<[u8; 32]>) -> (r: Option<u64>)
    ensures
        r == fingerprint_of(contents(seed)),
{
    match seed {
        Some(s) => {
            let mut input: Vec<u8> = Vec::new();
            let mut i: usize = 0;
            while i < 32
                invariant
                    i <= 32,
                    input@ == s@.take(i as int),
                decreases 32 - i,
            {
                input.push(s[i]);
                i += 1;
                assert(s@.take(i as int) =~= s@.take(i - 1).push(s@[i - 1]));
            }
            assert(s@.take(32) =~= s@);
            match hash_bytes32(env, &input) {
                Some(d) => Some(leading_u64(&d)),
                None => None,
            }
        },
        None => None,
    }
}

/// Builds the message that binds an oracle's proof to one seed for one request of one
/// raffle: the oracle has to sign exactly these bytes, and they stand for no other
/// raffle, request or seed.
pub fn build_vrf_proof_message(env: &Env, contract: &Address, request_id: u64, random_seed: u64) -> (r: Vec<u8>)
    ensures
        r@ == xdr_of_proof_message(*contract, request_id, random_seed),
        forall|c: Address, q: u64, s: u64| #[trigger]
            xdr_of_proof_message(c, q, s) == r@ <==> c == *contract && q == request_id && s
                == random_seed,
{
    proof_message_to_xdr(env, contract, request_id, random_seed)
}

/// A way of choosing the winning tickets.
pub trait WinnerSelectionStrategy {
    /// Chooses `winner_count` different ticket indices below `total_tickets`, or
    /// all of them if there are fewer. `None` means that no seed could be had.
    fn select_winner_indices(&self, env: &Env, total_tickets: u32, winner_count: u32) -> (r: Option<
        soroban_sdk::Vec<u32>,
    >)
        ensures
            r matches Some(v) ==> is_draw(items_of(v), total_tickets, winner_count)
                && holds_numbers(v),
    ;
}

/// Whether a ticket index is on a host list.
fn host_contains(v: &soroban_sdk::Vec<u32>, index: u32) -> (r: bool)
    requires
        holds_numbers(*v),
    ensures
        r == items_of(*v).contains(index),
{
    let n: u32 = host_vec_len(v);
    let mut i: u32 = 0;
    while i < n
        invariant
            i <= n,
            holds_numbers(*v),
            n == items_of(*v).len(),
            forall|j: int| 0 <= j < i ==> items_of(*v)[j] != index,
        decreases n - i,
    {
        if host_vec_get(v, i) == Some(index) {
            return true;
        }
        i += 1;
    }
    false
}

/// Appends a ticket index to a host list unless it is there already, and says
/// whether it was appended.
pub fn offer_index(v: &mut soroban_sdk::Vec<u32>, index: u32) -> (added: bool)
    requires
        items_of(*old(v)).len() < u32::MAX,
        holds_numbers(*old(v)),
    ensures
        holds_numbers(*final(v)),
        added == !items_of(*old(v)).contains(index),
        items_of(*final(v)) == if items_of(*old(v)).contains(index) {
            items_of(*old(v))
        } else {
            items_of(*old(v)).push(index)
        },
{
    if host_contains(v, index) {
        false
    } else {
        host_vec_push_back(v, index);
        true
    }
}

/// Selection by the host's generator, seeded from the ledger. That the same inputs
/// lead to the same winners rests on the generator: the host gives the same numbers
/// after the same seed, which no contract here states, since its state is hidden.
///
/// For low stakes only.
pub struct PrngWinnerSelection {
    pub raffle_id: Address,
    pub tickets_sold: u32,
}

impl PrngWinnerSelection {
    /// Makes the selection for a raffle with the given number of tickets sold.
    pub fn new(raffle_id: Address, tickets_sold: u32) -> (r: Self)
        ensures
            r.raffle_id == raffle_id,
            r.tickets_sold == tickets_sold,
    {
        PrngWinnerSelection { raffle_id, tickets_sold }
    }

    /// The seed of this draw in the given state of the ledger.
    pub open spec fn seed_in(&self, timestamp: u64, sequence: u32, network_id: Seq<u8>) -> Option<Seq<u8>> {
        mixed_seed_of(
            internal_seed_of(timestamp, sequence, network_id, self.raffle_id),
            self.tickets_sold,
        )
    }

    /// Returns a number that stands for the seed in the record of a draw; `None`
    /// if a hash failed.
    pub fn seed_fingerprint(&self, env: &Env) -> (r: Option<u64>)
        ensures
            exists|timestamp: u64, sequence: u32, network_id: [u8; 32]|
                r == fingerprint_of(#[trigger] self.seed_in(timestamp, sequence, network_id@)),
    {
        let seed = self.seed_bytes(env);
        fingerprint(env, seed)
    }

    /// Returns the 32 bytes that seed the host's generator; `None` if a hash
    /// failed.
    fn seed_bytes(&self, env: &Env) -> (r: Option<[u8; 32]>)
        ensures
            exists|timestamp: u64, sequence: u32, network_id: [u8; 32]|
                contents(r) == #[trigger] self.seed_in(timestamp, sequence, network_id@),
    {
        let base = build_internal_seed(env, &self.raffle_id);
        let r = mix_seed(env, base, self.tickets_sold);
        proof {
            let (timestamp, sequence, network_id) = choose|
                timestamp: u64,
                sequence: u32,
                network_id: [u8; 32],
            |
                contents(base) == #[trigger] internal_seed_of(
                    timestamp,
                    sequence,
                    network_id@,
                    self.raffle_id,
                );
            assert(contents(r) == self.seed_in(timestamp, sequence, network_id@));
        }
        r
    }
}

/// Draws one more index from the host's generator. Should it repeat indices that
/// are taken for `u64::MAX` draws on end, the smallest free index is given.
fn draw_fresh_index(env: &Env, v: &mut soroban_sdk::Vec<u32>, total_tickets: u32)
    requires
        distinct_indices(items_of(*old(v)), total_tickets),
        items_of(*old(v)).len() < total_tickets,
        holds_numbers(*old(v)),
    ensures
        holds_numbers(*final(v)),
        distinct_indices(items_of(*final(v)), total_tickets),
        items_of(*final(v)).len() == items_of(*old(v)).len() + 1,
        items_of(*old(v)) == items_of(*final(v)).drop_last(),
{
    let mut draws: u64 = 0;
    while draws < u64::MAX
        invariant
            items_of(*v) == items_of(*old(v)),
            holds_numbers(*v),
            distinct_indices(items_of(*v), total_tickets),
            items_of(*v).len() < total_tickets,
        decreases u64::MAX - draws,
    {
        let idx: u32 = prng_below(env, total_tickets as u64) as u32;
        if offer_index(v, idx) {
            assert(items_of(*v).drop_last() =~= items_of(*old(v)));
            return;
        }
        draws += 1;
    }
    let mut idx: u32 = 0;
    while idx < total_tickets
        invariant
            items_of(*v) == items_of(*old(v)),
            holds_numbers(*v),
            distinct_indices(items_of(*v), total_tickets),
            items_of(*v).len() < total_tickets,
            forall|t: u32| t < idx ==> items_of(*v).contains(t),
        decreases total_tickets - idx,
    {
        if offer_index(v, idx) {
            assert(items_of(*v).drop_last() =~= items_of(*old(v)));
            return;
        }
        idx += 1;
    }
    proof {
        some_ticket_is_left(items_of(*v), total_tickets);
    }
}

impl WinnerSelectionStrategy for PrngWinnerSelection {
    fn select_winner_indices(&self, env: &Env, total_tickets: u32, winner_count: u32) -> (r: Option<
        soroban_sdk::Vec<u32>,
    >)
        ensures
            total_tickets == 0 || winner_count == 0 ==> r is Some,
            r is None ==> exists|timestamp: u64, sequence: u32, network_id: [u8; 32]|
                #[trigger] self.seed_in(timestamp, sequence, network_id@) is None,
    {
        let mut indices = host_vec_new(env);
        if total_tickets == 0 || winner_count == 0 {
            return Some(indices);
        }
        match self.seed_bytes(env) {
            Some(seed) => prng_seed(env, &seed),
            None => return None,
        }
        let count: u32 = if winner_count < total_tickets {
            winner_count
        } else {
            total_tickets
        };
        let mut drawn: u32 = 0;
        while drawn < count
            invariant
                drawn <= count <= total_tickets,
                items_of(indices).len() == drawn,
                holds_numbers(indices),
                distinct_indices(items_of(indices), total_tickets),
            decreases count - drawn,
        {
            draw_fresh_index(env, &mut indices, total_tickets);
            drawn += 1;
        }
        Some(indices)
    }
}

/// Computes the bound at which samples are rejected.
fn rejection_bound(n: u32) -> (r: u64)
    requires
        n > 0,
    ensures
        r == largest_multiple(n),
{
    let q: u64 = u64::MAX / n as u64;
    assert(0 <= q * n <= u64::MAX) by (nonlinear_arith)
        requires
            n > 0,
            q as int == u64::MAX as int / n as int,
    ;
    q * n as u64
}

/// Tells whether a list holds an index.
fn list_contains(list: &Vec<u32>, index: u32) -> (r: bool)
    ensures
        r == list@.contains(index),
{
    let mut i: usize = 0;
    while i < list.len()
        invariant
            i <= list@.len(),
            forall|j: int| 0 <= j < i ==> list@[j] != index,
        decreases list@.len() - i,
    {
        if list[i] == index {
            return true;
        }
        i += 1;
    }
    false
}

/// Finds the first sample, from `start` on, that yields an index off the list.
fn fresh_sample_off(start: u64, n: u32, chosen: &Vec<u32>) -> (r: u64)
    requires
        distinct_indices(chosen@, n),
        chosen@.len() < n,
    ensures
        r == first_accepted(start, n, chosen@),
        accepts(r, n, chosen@),
{
    let bound: u64 = rejection_bound(n);
    let mut x: u64 = start;
    proof {
        draw_always_ends(start, n, chosen@);
    }
    let ghost mut left: nat = choose|k: nat| first_accepted_at(start, n, chosen@, k);
    loop
        invariant
            n > 0,
            bound == largest_multiple(n),
            first_accepted_at(x, n, chosen@, left),
            first_accepted(x, n, chosen@) == first_accepted(start, n, chosen@),
        decreases left,
    {
        if x < bound && !list_contains(chosen, (x % n as u64) as u32) {
            proof {
                accepted_comes_first(x, n, chosen@);
            }
            return x;
        }
        proof {
            rejected_is_passed_over(x, n, chosen@, left);
            left = (left - 1) as nat;
        }
        x = advance(x);
    }
}

/// Finds the first sample, from `start` on, that yields an index off the host list.
fn fresh_sample_off_host(start: u64, n: u32, chosen: &soroban_sdk::Vec<u32>) -> (r: u64)
    requires
        distinct_indices(items_of(*chosen), n),
        items_of(*chosen).len() < n,
        holds_numbers(*chosen),
    ensures
        r == first_accepted(start, n, items_of(*chosen)),
        accepts(r, n, items_of(*chosen)),
{
    let bound: u64 = rejection_bound(n);
    let mut x: u64 = start;
    proof {
        draw_always_ends(start, n, items_of(*chosen));
    }
    let ghost mut left: nat = choose|k: nat| first_accepted_at(start, n, items_of(*chosen), k);
    loop
        invariant
            n > 0,
            holds_numbers(*chosen),
            bound == largest_multiple(n),
            first_accepted_at(x, n, items_of(*chosen), left),
            first_accepted(x, n, items_of(*chosen)) == first_accepted(start, n, items_of(*chosen)),
        decreases left,
    {
        if x < bound && !host_contains(chosen, (x % n as u64) as u32) {
            proof {
                accepted_comes_first(x, n, items_of(*chosen));
            }
            return x;
        }
        proof {
            rejected_is_passed_over(x, n, items_of(*chosen), left);
            left = (left - 1) as nat;
        }
        x = advance(x);
    }
}

/// Selection from a seed that an oracle delivered, by rejection sampling.
pub struct OracleSeedWinnerSelection {
    seed: u64,
}

impl OracleSeedWinnerSelection {
    /// The seed of the selection.
    pub closed spec fn seed(&self) -> u64 {
        self.seed
    }

    /// Makes the selection from a seed.
    pub fn new(seed: u64) -> (r: Self)
        ensures
            r.seed() == seed,
    {
        OracleSeedWinnerSelection { seed }
    }

    /// Chooses winners without a host, one for each that is asked for. As long as
    /// there are enough tickets they are the winners of the draw, all different. Where
    /// more are asked for than there are tickets, a ticket may win again; without
    /// tickets nobody wins.
    pub fn select_winner_indices_pure(&self, total_tickets: u32, winner_count: u32) -> (r: Vec<u32>)
        ensures
            r@ == requested_indices(self.seed(), total_tickets, winner_count),
            total_tickets > 0 ==> r@.len() == winner_count,
            winner_count <= total_tickets ==> is_draw(r@, total_tickets, winner_count),
    {
        if total_tickets == 0 {
            return Vec::new();
        }
        proof {
            requests_are_met(self.seed, total_tickets, winner_count);
        }
        if winner_count <= total_tickets {
            self.select_different(total_tickets, winner_count)
        } else {
            self.select_with_repeats(total_tickets, winner_count)
        }
    }

    /// Chooses different winners.
    fn select_different(&self, total_tickets: u32, count: u32) -> (r: Vec<u32>)
        requires
            count <= total_tickets,
        ensures
            r@ == winning_indices(self.seed(), total_tickets, count),
            is_draw(r@, total_tickets, count),
    {
        let mut indices: Vec<u32> = Vec::new();
        proof {
            winners_are_distinct_tickets(self.seed, total_tickets, count);
        }
        let mut current_seed: u64 = self.seed;
        let mut drawn: u32 = 0;
        while drawn < count
            invariant
                drawn <= count <= total_tickets,
                indices@.len() == drawn,
                distinct_indices(indices@, total_tickets),
                winners_from(current_seed, total_tickets, indices@, (count - drawn) as nat)
                    == winning_indices(self.seed, total_tickets, count),
            decreases count - drawn,
        {
            let x: u64 = fresh_sample_off(current_seed, total_tickets, &indices);
            indices.push((x % total_tickets as u64) as u32);
            current_seed = advance(x);
            drawn += 1;
        }
        indices
    }

    /// Chooses winners that may win again.
    fn select_with_repeats(&self, total_tickets: u32, count: u32) -> (r: Vec<u32>)
        requires
            total_tickets > 0,
        ensures
            r@ == indices_with_repeats_from(
                self.seed(),
                total_tickets,
                Seq::empty(),
                count as nat,
            ),
    {
        let nobody: Vec<u32> = Vec::new();
        let mut indices: Vec<u32> = Vec::new();
        let mut current_seed: u64 = self.seed;
        let mut drawn: u32 = 0;
        while drawn < count
            invariant
                drawn <= count,
                total_tickets > 0,
                nobody@ == Seq::<u32>::empty(),
                indices_with_repeats_from(
                    current_seed,
                    total_tickets,
                    indices@,
                    (count - drawn) as nat,
                ) == indices_with_repeats_from(
                    self.seed,
                    total_tickets,
                    Seq::empty(),
                    count as nat,
                ),
            decreases count - drawn,
        {
            let x: u64 = fresh_sample_off(current_seed, total_tickets, &nobody);
            indices.push((x % total_tickets as u64) as u32);
            current_seed = advance(x);
            drawn += 1;
        }
        indices
    }
}

impl WinnerSelectionStrategy for OracleSeedWinnerSelection {
    fn select_winner_indices(&self, env: &Env, total_tickets: u32, winner_count: u32) -> (r: Option<
        soroban_sdk::Vec<u32>,
    >)
        ensures
            r is Some,
            items_of(r->0) == winning_indices(self.seed(), total_tickets, winner_count),
    {
        let mut indices = host_vec_new(env);
        proof {
            winners_are_distinct_tickets(self.seed, total_tickets, winner_count);
        }
        let count: u32 = if winner_count < total_tickets {
            winner_count
        } else {
            total_tickets
        };
        let mut current_seed: u64 = self.seed;
        let mut drawn: u32 = 0;
        while drawn < count
            invariant
                drawn <= count <= total_tickets,
                items_of(indices).len() == drawn,
                holds_numbers(indices),
                distinct_indices(items_of(indices), total_tickets),
                winners_from(current_seed, total_tickets, items_of(indices), (count - drawn) as nat)
                    == winning_indices(self.seed, total_tickets, winner_count),
            decreases count - drawn,
        {
            let x: u64 = fresh_sample_off_host(current_seed, total_tickets, &indices);
            host_vec_push_back(&mut indices, (x % total_tickets as u64) as u32);
            current_seed = advance(x);
            drawn += 1;
        }
        Some(indices)
    }
}

} // verus!
