use soroban_sdk::address_payload::AddressPayload;
use soroban_sdk::testutils::{Address as _, EnvTestConfig, Ledger as _};
use soroban_sdk::xdr::ToXdr;
use soroban_sdk::{BytesN, Env};
use tikka_raffle_instance::address::{Address, AddressKind};
use tikka_raffle_instance::randomness::{
    build_internal_seed, build_vrf_proof_message, check_digest, fingerprint, internal_seed, mix_seed,
    offer_index, OracleSeedWinnerSelection, PrngWinnerSelection, WinnerSelectionStrategy,
};

fn halves(id: [u8; 32]) -> (u128, u128) {
    let mut high = [0u8; 16];
    let mut low = [0u8; 16];
    high.copy_from_slice(&id[..16]);
    low.copy_from_slice(&id[16..]);
    (u128::from_be_bytes(high), u128::from_be_bytes(low))
}

/// The library's form of a host address.
fn own(address: &soroban_sdk::Address) -> Address {
    match address.to_payload() {
        Some(AddressPayload::AccountIdPublicKeyEd25519(id)) => {
            let (high, low) = halves(id.to_array());
            Address { kind: AddressKind::Account, high, low }
        }
        Some(AddressPayload::ContractIdHash(id)) => {
            let (high, low) = halves(id.to_array());
            Address { kind: AddressKind::Contract, high, low }
        }
        None => panic!("neither an account nor a contract"),
    }
}

/// An environment that writes no snapshot of itself.
fn quiet_env() -> Env {
    Env::new_with_config(EnvTestConfig { capture_snapshot_at_drop: false })
}

fn generate(env: &Env) -> Address {
    own(&soroban_sdk::Address::generate(env))
}

fn register(env: &Env) -> soroban_sdk::Address {
    env.register_stellar_asset_contract_v2(soroban_sdk::Address::generate(env)).address()
}

/// build_internal_seed produces different values for different raffle IDs.
#[test]
fn build_internal_seed_differs_by_raffle_id() {
    let env = quiet_env();
    let id_a = generate(&env);
    let id_b = generate(&env);
    let contract = register(&env);

    let (seed_a, seed_b) = env.as_contract(&contract, || {
        (build_internal_seed(&env, &id_a).unwrap(), build_internal_seed(&env, &id_b).unwrap())
    });

    assert_ne!(seed_a, seed_b, "different raffle IDs must produce different seeds");
}

/// build_internal_seed is deterministic: same inputs, same output.
#[test]
fn build_internal_seed_is_deterministic() {
    let env = quiet_env();
    let raffle_id = generate(&env);
    let contract = register(&env);

    let (first, second) = env.as_contract(&contract, || {
        (
            build_internal_seed(&env, &raffle_id).unwrap(),
            build_internal_seed(&env, &raffle_id).unwrap(),
        )
    });

    assert_eq!(first, second, "same inputs must always yield the same seed");
}

/// build_internal_seed output is exactly 32 bytes.
#[test]
fn build_internal_seed_is_32_bytes() {
    let env = quiet_env();
    let raffle_id = generate(&env);
    let contract = register(&env);

    let seed = env.as_contract(&contract, || build_internal_seed(&env, &raffle_id).unwrap());
    assert_eq!(seed.len(), 32);
}

/// build_internal_seed must not produce the all-zero hash.
#[test]
fn build_internal_seed_is_not_zero() {
    let env = quiet_env();
    let raffle_id = generate(&env);
    let contract = register(&env);

    let seed = env.as_contract(&contract, || build_internal_seed(&env, &raffle_id).unwrap());
    assert_ne!(seed, [0u8; 32], "sha256 output must not be all zero");
}

/// PRNG selections fall within [0, total_tickets).
#[test]
fn prng_selection_is_in_ticket_range() {
    let env = quiet_env();
    let raffle_id = generate(&env);
    let strategy = PrngWinnerSelection::new(raffle_id, 17);

    let contract_id = register(&env);
    let indices = env.as_contract(&contract_id, || {
        strategy.select_winner_indices(&env, 17, 25).unwrap()
    });
    assert_eq!(indices.len(), 17);
    for idx in indices.iter() {
        assert!(idx < 17, "winner index {idx} must be < total_tickets 17");
    }
}

/// Same PRNG inputs always produce the same winner sequence.
#[test]
fn prng_selection_is_deterministic_for_same_inputs() {
    let env = quiet_env();
    let raffle_id = generate(&env);

    let contract_id = register(&env);
    let first = env.as_contract(&contract_id, || {
        PrngWinnerSelection::new(raffle_id, 17).select_winner_indices(&env, 17, 8).unwrap()
    });
    let second = env.as_contract(&contract_id, || {
        PrngWinnerSelection::new(raffle_id, 17).select_winner_indices(&env, 17, 8).unwrap()
    });

    assert_eq!(first, second, "identical inputs must yield identical winners");
}

/// Seed fingerprint changes when raffle_id changes.
#[test]
fn seed_fingerprint_differs_by_raffle_id() {
    let env = quiet_env();
    let id_a = generate(&env);
    let id_b = generate(&env);
    let contract = register(&env);

    let (fp_a, fp_b) = env.as_contract(&contract, || {
        let s_a = PrngWinnerSelection::new(id_a, 10);
        let s_b = PrngWinnerSelection::new(id_b, 10);
        (s_a.seed_fingerprint(&env).unwrap(), s_b.seed_fingerprint(&env).unwrap())
    });

    assert_ne!(fp_a, fp_b, "fingerprints must differ for different raffle IDs");
}

/// Seed fingerprint changes when ticket count changes.
#[test]
fn seed_fingerprint_differs_by_ticket_count() {
    let env = quiet_env();
    let raffle_id = generate(&env);
    let contract = register(&env);

    let (fp_a, fp_b) = env.as_contract(&contract, || {
        let s_a = PrngWinnerSelection::new(raffle_id, 10);
        let s_b = PrngWinnerSelection::new(raffle_id, 11);
        (s_a.seed_fingerprint(&env).unwrap(), s_b.seed_fingerprint(&env).unwrap())
    });

    assert_ne!(fp_a, fp_b, "fingerprints must differ for different ticket counts");
}

/// The seed is the digest of the ledger's time and number, the network and the
/// raffle's address, packed as a tuple.
#[test]
fn internal_seed_hashes_the_ledger_and_the_address() {
    let env = quiet_env();
    let host_address = soroban_sdk::Address::generate(&env);
    let network = [9u8; 32];
    let packed = (77u64, 5u32, BytesN::from_array(&env, &network), host_address.clone()).to_xdr(&env);
    let expected = env.crypto().sha256(&packed).to_array();
    let seed = internal_seed(&env, 77, 5, &network, &own(&host_address));
    assert_eq!(seed, Some(expected));
    assert_ne!(internal_seed(&env, 78, 5, &network, &own(&host_address)), seed);
    assert_ne!(internal_seed(&env, 77, 6, &network, &own(&host_address)), seed);
    assert_ne!(internal_seed(&env, 77, 5, &[8u8; 32], &own(&host_address)), seed);
}

/// The seed that the environment gives is that of its own ledger.
#[test]
fn build_internal_seed_reads_the_ledger() {
    let env = quiet_env();
    env.ledger().with_mut(|info| {
        info.timestamp = 1234;
        info.sequence_number = 56;
    });
    let network = env.ledger().network_id().to_array();
    let raffle_id = generate(&env);
    assert_eq!(
        build_internal_seed(&env, &raffle_id),
        internal_seed(&env, 1234, 56, &network, &raffle_id)
    );
}

/// The seed of a draw mixes the number of tickets into the ledger's seed.
#[test]
fn mix_seed_hashes_the_seed_and_the_count() {
    let env = quiet_env();
    let base = [3u8; 32];
    let packed = (BytesN::from_array(&env, &base), 17u32).to_xdr(&env);
    let expected = env.crypto().sha256(&packed).to_array();
    assert_eq!(mix_seed(&env, Some(base), 17), Some(expected));
    assert_eq!(mix_seed(&env, None, 17), None);
}

/// SHA-256 of 32 zero bytes is 66687aad f862bd77 ...
#[test]
fn fingerprint_is_the_head_of_the_digest() {
    let env = quiet_env();
    assert_eq!(fingerprint(&env, Some([0u8; 32])), Some(0x66687aadf862bd77));
    assert_eq!(fingerprint(&env, None), None);
}

/// The fingerprint of a draw is that of its mixed seed.
#[test]
fn seed_fingerprint_is_that_of_the_mixed_seed() {
    let env = quiet_env();
    let raffle_id = generate(&env);
    let seed = mix_seed(&env, build_internal_seed(&env, &raffle_id), 10);
    assert_eq!(
        PrngWinnerSelection::new(raffle_id, 10).seed_fingerprint(&env),
        fingerprint(&env, seed)
    );
}

#[test]
fn an_empty_digest_is_refused() {
    assert_eq!(check_digest([0u8; 32]), None);
    let mut digest = [0u8; 32];
    digest[31] = 1;
    assert_eq!(check_digest(digest), Some(digest));
}

/// The message of the oracle is the XDR of the contract, the request and the seed.
#[test]
fn vrf_message_binds_contract_request_and_seed() {
    let env = quiet_env();
    let contract = register(&env);
    let message = build_vrf_proof_message(&env, &own(&contract), 11, 22);
    let expected = (contract, 11u64, 22u64).to_xdr(&env).to_alloc_vec();
    assert_eq!(message, expected);
    assert_ne!(message, build_vrf_proof_message(&env, &generate(&env), 11, 22));
    let account = Address { kind: AddressKind::Account, high: 1, low: 2 };
    let contract = Address { kind: AddressKind::Contract, high: 1, low: 2 };
    assert_ne!(
        build_vrf_proof_message(&env, &account, 11, 22),
        build_vrf_proof_message(&env, &contract, 11, 22)
    );
    assert_ne!(
        build_vrf_proof_message(&env, &contract, 11, 22),
        build_vrf_proof_message(&env, &contract, 22, 11)
    );
}

#[test]
fn prng_selection_has_no_repeats() {
    let env = quiet_env();
    let contract = register(&env);
    let raffle_id = generate(&env);
    let indices = env.as_contract(&contract, || {
        PrngWinnerSelection::new(raffle_id, 50).select_winner_indices(&env, 50, 20).unwrap()
    });
    assert_eq!(indices.len(), 20);
    for i in 0..20u32 {
        for j in 0..i {
            assert_ne!(indices.get(i), indices.get(j));
        }
    }
}

#[test]
fn no_tickets_or_no_winners_give_an_empty_selection() {
    let env = quiet_env();
    let contract = register(&env);
    let raffle_id = generate(&env);
    env.as_contract(&contract, || {
        let prng = PrngWinnerSelection::new(raffle_id, 0);
        assert_eq!(prng.select_winner_indices(&env, 0, 3).unwrap().len(), 0);
        assert_eq!(prng.select_winner_indices(&env, 3, 0).unwrap().len(), 0);
        let oracle = OracleSeedWinnerSelection::new(1);
        assert_eq!(oracle.select_winner_indices(&env, 0, 3).unwrap().len(), 0);
        assert_eq!(oracle.select_winner_indices(&env, 3, 0).unwrap().len(), 0);
    });
}

/// Both forms of the oracle's selection give the same winners.
#[test]
fn oracle_selection_is_the_same_on_the_host() {
    let env = quiet_env();
    for seed in [0u64, 1, 42, 123456789, u64::MAX] {
        for (tickets, count) in [(1u32, 1u32), (3, 2), (10, 3), (10, 10), (255, 40)] {
            let selector = OracleSeedWinnerSelection::new(seed);
            let on_host = selector.select_winner_indices(&env, tickets, count).unwrap();
            let pure = selector.select_winner_indices_pure(tickets, count);
            assert_eq!(on_host.len() as usize, pure.len());
            for (i, index) in pure.iter().enumerate() {
                assert_eq!(on_host.get(i as u32), Some(*index));
            }
        }
    }
}

#[test]
fn indices_are_offered_once() {
    let env = quiet_env();
    let mut list = soroban_sdk::Vec::new(&env);
    assert!(offer_index(&mut list, 4));
    assert!(offer_index(&mut list, 6));
    assert!(!offer_index(&mut list, 4));
    assert_eq!(list.len(), 2);
    assert_eq!(list.get(0), Some(4));
    assert_eq!(list.get(1), Some(6));
}
