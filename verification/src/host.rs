//! The calls that this library makes into the Soroban host.
//!
//! Nothing in this file is proved: each function below hands its arguments to
//! one function of `soroban_sdk` and is believed to do what its contract says.

use crate::address::{Address, AddressKind};
use soroban_sdk::address_payload::AddressPayload;
use soroban_sdk::xdr::ToXdr;
use soroban_sdk::{Bytes, BytesN, Env};
use vstd::prelude::*;

verus! {

/// The host environment of `soroban_sdk`, carried through unread.
#[verifier::external_type_specification]
#[verifier::external_body]
pub struct ExEnv(soroban_sdk::Env);

/// The host's vector, `soroban_sdk::Vec`.
#[verifier::external_type_specification]
#[verifier::external_body]
#[verifier::reject_recursive_types(T)]
pub struct ExHostVec<T>(soroban_sdk::Vec<T>);

/// The items of a host vector of numbers, in order.
pub uninterp spec fn items_of(v: soroban_sdk::Vec<u32>) -> Seq<u32>;

/// Whether every item of a host vector can be read as a number. A host vector is
/// taken for one of numbers without its items being looked at.
pub uninterp spec fn holds_numbers(v: soroban_sdk::Vec<u32>) -> bool;

/// `soroban_sdk::Vec::new`: the new vector is empty, so that nothing in it is other
/// than a number.
#[verifier::external_body]
pub(crate) fn host_vec_new(env: &Env) -> (v: soroban_sdk::Vec<u32>)
    ensures
        items_of(v) == Seq::<u32>::empty(),
        holds_numbers(v),
{
    soroban_sdk::Vec::new(env)
}

/// `soroban_sdk::Vec::push_back`: the item, a number, becomes the last one and the
/// others stay. A host vector is counted by a `u32`, so a full one is left out.
#[verifier::external_body]
pub(crate) fn host_vec_push_back(v: &mut soroban_sdk::Vec<u32>, item: u32)
    requires
        items_of(*old(v)).len() < u32::MAX,
    ensures
        items_of(*final(v)) == items_of(*old(v)).push(item),
        holds_numbers(*final(v)) == holds_numbers(*old(v)),
{
    v.push_back(item)
}

/// `soroban_sdk::Vec::len`: the number of items.
#[verifier::external_body]
pub(crate) fn host_vec_len(v: &soroban_sdk::Vec<u32>) -> (n: u32)
    ensures
        n == items_of(*v).len(),
{
    v.len()
}

/// `soroban_sdk::Vec::get`: the item at a position, or nothing behind the end. It
/// fails on an item that is no number, so a vector that may hold one is left out.
#[verifier::external_body]
pub(crate) fn host_vec_get(v: &soroban_sdk::Vec<u32>, i: u32) -> (item: Option<u32>)
    requires
        holds_numbers(*v),
    ensures
        item == if i < items_of(*v).len() {
            Some(items_of(*v)[i as int])
        } else {
            None
        },
{
    v.get(i)
}

/// What SHA-256 gives for a string of bytes.
pub uninterp spec fn sha256_of(input: Seq<u8>) -> Seq<u8>;

/// `soroban_sdk::crypto::Crypto::sha256`: the digest depends on the input alone.
/// A host byte string is counted by a `u32`, so a longer input is left out.
#[verifier::external_body]
pub(crate) fn sha256(env: &Env, input: &Vec<u8>) -> (digest: [u8; 32])
    requires
        input@.len() <= u32::MAX,
    ensures
        digest@ == sha256_of(input@),
{
    env.crypto().sha256(&Bytes::from_slice(env, input)).to_array()
}

/// The XDR form of an address.
pub uninterp spec fn xdr_of_address(address: Address) -> Seq<u8>;

/// `soroban_sdk::xdr::ToXdr::to_xdr` on an address: the bytes depend on the
/// address alone. They are the marks of an address, of its kind and, for an account,
/// of its key, of four bytes each, and the identifier.
#[verifier::external_body]
pub(crate) fn address_to_xdr(env: &Env, address: &Address) -> (xdr: Vec<u8>)
    ensures
        xdr@ == xdr_of_address(*address),
        xdr@.len() <= 44,
{
    let halves = [address.high.to_be_bytes(), address.low.to_be_bytes()].concat();
    let id = BytesN::from_array(env, &halves.try_into().unwrap());
    let payload = match address.kind {
        AddressKind::Account => AddressPayload::AccountIdPublicKeyEd25519(id),
        AddressKind::Contract => AddressPayload::ContractIdHash(id),
    };
    payload.to_address(env).to_xdr(env).to_alloc_vec()
}

/// The XDR form of the tuple of a timestamp, a sequence number and a byte string.
pub uninterp spec fn xdr_of_request(timestamp: u64, sequence: u32, contract_xdr: Seq<u8>) -> Seq<u8>;

/// `soroban_sdk::xdr::ToXdr::to_xdr` on a tuple of a timestamp, a sequence number
/// and a byte string: the bytes depend on the three alone, and a host byte
/// string is counted by a `u32`. The host fails on strings of many megabytes, so
/// long ones are left out.
#[verifier::external_body]
pub(crate) fn request_to_xdr(
    env: &Env,
    timestamp: u64,
    sequence: u32,
    contract_xdr: &Vec<u8>,
) -> (xdr: Vec<u8>)
    requires
        contract_xdr@.len() <= 1000,
    ensures
        xdr@ == xdr_of_request(timestamp, sequence, contract_xdr@),
        xdr@.len() <= u32::MAX,
{
    (timestamp, sequence, Bytes::from_slice(env, contract_xdr)).to_xdr(env).to_alloc_vec()
}

/// The XDR form of the tuple of a timestamp, a sequence number and an address.
pub uninterp spec fn xdr_of_ledger(timestamp: u64, sequence: u32, contract: Address) -> Seq<u8>;

/// `soroban_sdk::xdr::ToXdr::to_xdr` on a tuple of a timestamp, a sequence number
/// and an address: the bytes depend on the three alone, and a host byte string
/// is counted by a `u32`.
#[verifier::external_body]
pub(crate) fn ledger_to_xdr(env: &Env, timestamp: u64, sequence: u32, contract: &Address) -> (xdr: Vec<u8>)
    ensures
        xdr@ == xdr_of_ledger(timestamp, sequence, *contract),
        xdr@.len() <= u32::MAX,
{
    let halves = [contract.high.to_be_bytes(), contract.low.to_be_bytes()].concat();
    let id = BytesN::from_array(env, &halves.try_into().unwrap());
    let payload = match contract.kind {
        AddressKind::Account => AddressPayload::AccountIdPublicKeyEd25519(id),
        AddressKind::Contract => AddressPayload::ContractIdHash(id),
    };
    (timestamp, sequence, payload.to_address(env)).to_xdr(env).to_alloc_vec()
}

/// The XDR form of the tuple of a timestamp, a sequence number, a network
/// identifier and an address.
pub uninterp spec fn xdr_of_seed_inputs(
    timestamp: u64,
    sequence: u32,
    network_id: Seq<u8>,
    raffle_id: Address,
) -> Seq<u8>;

/// `soroban_sdk::xdr::ToXdr::to_xdr` on a tuple of a timestamp, a sequence number,
/// a network identifier and an address: the bytes depend on the four alone, and
/// a host byte string is counted by a `u32`.
#[verifier::external_body]
pub(crate) fn seed_inputs_to_xdr(
    env: &Env,
    timestamp: u64,
    sequence: u32,
    network_id: &[u8; 32],
    raffle_id: &Address,
) -> (xdr: Vec<u8>)
    ensures
        xdr@ == xdr_of_seed_inputs(timestamp, sequence, network_id@, *raffle_id),
        xdr@.len() <= u32::MAX,
{
    let halves = [raffle_id.high.to_be_bytes(), raffle_id.low.to_be_bytes()].concat();
    let id = BytesN::from_array(env, &halves.try_into().unwrap());
    let payload = match raffle_id.kind {
        AddressKind::Account => AddressPayload::AccountIdPublicKeyEd25519(id),
        AddressKind::Contract => AddressPayload::ContractIdHash(id),
    };
    let network = BytesN::from_array(env, network_id);
    (timestamp, sequence, network, payload.to_address(env)).to_xdr(env).to_alloc_vec()
}

/// The XDR form of the tuple of a 32-byte seed and a ticket count.
pub uninterp spec fn xdr_of_seed_and_tickets(base: Seq<u8>, tickets_sold: u32) -> Seq<u8>;

/// `soroban_sdk::xdr::ToXdr::to_xdr` on a tuple of a 32-byte seed and a ticket
/// count: the bytes depend on the two alone, and a host byte string is counted
/// by a `u32`.
#[verifier::external_body]
pub(crate) fn seed_and_tickets_to_xdr(env: &Env, base: &[u8; 32], tickets_sold: u32) -> (xdr: Vec<u8>)
    ensures
        xdr@ == xdr_of_seed_and_tickets(base@, tickets_sold),
        xdr@.len() <= u32::MAX,
{
    (BytesN::from_array(env, base), tickets_sold).to_xdr(env).to_alloc_vec()
}

/// The XDR form of the tuple of an address, a request number and a seed.
pub uninterp spec fn xdr_of_proof_message(contract: Address, request_id: u64, random_seed: u64) -> Seq<u8>;

/// `soroban_sdk::xdr::ToXdr::to_xdr` on a tuple of an address, a request number
/// and a seed: the bytes depend on the three alone, and no other three have the
/// same, as XDR is read back without loss.
#[verifier::external_body]
pub(crate) fn proof_message_to_xdr(env: &Env, contract: &Address, request_id: u64, random_seed: u64) -> (xdr:
    Vec<u8>)
    ensures
        xdr@ == xdr_of_proof_message(*contract, request_id, random_seed),
        forall|c: Address, q: u64, s: u64| #[trigger]
            xdr_of_proof_message(c, q, s) == xdr@ ==> c == *contract && q == request_id && s
                == random_seed,
{
    let halves = [contract.high.to_be_bytes(), contract.low.to_be_bytes()].concat();
    let id = BytesN::from_array(env, &halves.try_into().unwrap());
    let payload = match contract.kind {
        AddressKind::Account => AddressPayload::AccountIdPublicKeyEd25519(id),
        AddressKind::Contract => AddressPayload::ContractIdHash(id),
    };
    (payload.to_address(env), request_id, random_seed).to_xdr(env).to_alloc_vec()
}

/// `soroban_sdk::ledger::Ledger::timestamp`: the closing time of the ledger, of
/// which nothing is known in advance.
#[verifier::external_body]
pub(crate) fn ledger_timestamp(env: &Env) -> u64 {
    env.ledger().timestamp()
}

/// `soroban_sdk::ledger::Ledger::sequence`: the number of the ledger, of which
/// nothing is known in advance.
#[verifier::external_body]
pub(crate) fn ledger_sequence(env: &Env) -> u32 {
    env.ledger().sequence()
}

/// `soroban_sdk::ledger::Ledger::network_id`: the digest of the network's
/// passphrase, of which nothing is known in advance.
#[verifier::external_body]
pub(crate) fn ledger_network_id(env: &Env) -> [u8; 32] {
    env.ledger().network_id().to_array()
}

/// `soroban_sdk::prng::Prng::seed`: restarts the generator of the running
/// contract from a 32-byte seed. The generator is hidden in the host, so nothing
/// is said here of the numbers that it gives afterwards, not even that they depend
/// on the seed alone.
#[verifier::external_body]
pub(crate) fn prng_seed(env: &Env, seed: &[u8; 32]) {
    env.prng().seed(Bytes::from_array(env, seed))
}

/// `soroban_sdk::prng::Prng::u64_in_range` on the range from zero up to `bound`:
/// some number below the bound; which one is left unsaid. The empty range, on which the host fails, is
/// left out.
#[verifier::external_body]
#[allow(deprecated)]
pub(crate) fn prng_below(env: &Env, bound: u64) -> (n: u64)
    requires
        bound > 0,
    ensures
        n < bound,
{
    env.prng().u64_in_range(0..bound)
}

} // verus!
