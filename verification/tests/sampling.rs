use std::collections::HashSet;
use tikka_raffle_instance::lcg::advance;
use tikka_raffle_instance::randomness::OracleSeedWinnerSelection;

fn select(seed: u64, tickets: u32, count: u32) -> Vec<u32> {
    OracleSeedWinnerSelection::new(seed).select_winner_indices_pure(tickets, count)
}

#[test]
fn the_generator_steps_as_it_should() {
    assert_eq!(advance(0), 1442695040888963407);
    assert_eq!(advance(u64::MAX), 13525302890751722018);
}

#[test]
fn seeds_lead_to_known_winners() {
    assert_eq!(select(42, 10, 3), vec![2, 3, 0]);
    assert_eq!(select(42, 10, 10), vec![2, 3, 0, 5, 4, 8, 7, 6, 9, 1]);
    assert_eq!(select(0, 5, 5), vec![0, 2, 1, 3, 4]);
    assert_eq!(select(7, 1, 1), vec![0]);
    assert_eq!(select(123456789, 3, 3), vec![0, 2, 1]);
}

/// A sample in the tail that would favour low indices is passed over.
#[test]
fn biased_samples_are_rejected() {
    assert_eq!(select(u64::MAX, 3, 2), vec![2, 1]);
    assert_eq!(select(u64::MAX, 10, 2), vec![8, 9]);
}

#[test]
fn nobody_wins_without_tickets_or_prizes() {
    assert!(select(5, 0, 3).is_empty());
    assert!(select(5, 3, 0).is_empty());
}

/// Where more winners are asked for than there are tickets, tickets win again.
#[test]
fn more_winners_than_tickets_win_repeatedly() {
    assert_eq!(select(42, 3, 9), vec![0, 2, 2, 2, 1, 2, 2, 2, 0]);
    assert_eq!(select(42, 2, 5), vec![0, 1, 0, 1, 0]);
    assert_eq!(select(1, 3, 4), vec![1, 1, 2, 2]);
    assert_eq!(select(u64::MAX, 10, 12), vec![8, 9, 6, 1, 2, 7, 6, 9, 8, 7, 4, 1]);
    assert_eq!(select(7, 1, 3), vec![0, 0, 0]);
    assert!(select(42, 0, 9).is_empty());
}

/// A further winner leaves those before it as they are.
#[test]
fn fewer_winners_come_first() {
    for seed in [0u64, 1, 42, u64::MAX] {
        let all = select(seed, 10, 10);
        let repeated = select(seed, 10, 40);
        for count in 0..=10u32 {
            assert_eq!(select(seed, 10, count), all[..count as usize].to_vec());
        }
        for count in 11..=40u32 {
            assert_eq!(select(seed, 10, count), repeated[..count as usize].to_vec());
        }
    }
    // The winners of a draw are different; those of a larger request need not be.
    assert_eq!(select(1, 3, 2), vec![1, 2]);
    assert_eq!(select(1, 3, 4)[..2].to_vec(), vec![1, 1]);
}

/// The right number of winners, all in range and all different.
#[test]
fn selections_are_complete_in_range_and_unique() {
    for seed in [0u64, 1, 2, 99, 1 << 40, u64::MAX - 7, u64::MAX] {
        for total in 1u32..=60 {
            for raw in [1u32, 2, 7, 31, 59] {
                let count = (raw % total).max(1);
                let indices = select(seed, total, count);
                assert_eq!(indices.len(), count as usize);
                assert!(indices.iter().all(|i| *i < total));
                let unique: HashSet<u32> = indices.iter().copied().collect();
                assert_eq!(unique.len(), indices.len());
            }
        }
    }
}

/// When every ticket is to win, every ticket does.
#[test]
fn full_draws_reach_every_ticket() {
    for seed in [3u64, 1 << 33, u64::MAX] {
        let mut indices = select(seed, 40, 40);
        indices.sort();
        let all: Vec<u32> = (0..40).collect();
        assert_eq!(indices, all);
    }
}
