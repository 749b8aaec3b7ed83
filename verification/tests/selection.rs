use tikka::hashing::{aggregate_quorum_seeds, checkpoint_digest};
use tikka::{Address, OracleSeedWinnerSelection};

/// A deliberately biased selector: it wraps around an asymmetric range.
struct BiasedWinnerSelection {
    seed: u64,
}

impl BiasedWinnerSelection {
    fn select_winner_indices_biased(&self, total_tickets: u32) -> u32 {
        let n = total_tickets as u64;
        ((self.seed % (n + 1)) % n) as u32
    }
}

fn compute_chi_squared(histogram: &[u32], total_samples: u32) -> f64 {
    let k = histogram.len() as f64;
    let expected = total_samples as f64 / k;
    let mut chi2 = 0.0;
    for &count in histogram {
        let diff = count as f64 - expected;
        chi2 += (diff * diff) / expected;
    }
    chi2
}

fn critical_value_999(degrees_of_freedom: usize) -> f64 {
    match degrees_of_freedom {
        4 => 18.47,
        8 => 26.12,
        32 => 62.49,
        df => (df as f64) + 3.0 * (2.0 * df as f64).sqrt(),
    }
}

fn run_uniformity_simulation(ticket_counts: &[u32], total_draws: u32) {
    for &n in ticket_counts {
        let mut histogram = vec![0u32; n as usize];
        for seed in 1..=(total_draws as u64) {
            let strategy = OracleSeedWinnerSelection::new(seed);
            let winners = strategy.select_winner_indices_pure(n, 1);
            assert_eq!(winners.len(), 1);
            histogram[winners[0] as usize] += 1;
        }
        let df = (n - 1) as usize;
        let chi2 = compute_chi_squared(&histogram, total_draws);
        let crit = critical_value_999(df);
        assert!(
            chi2 < crit,
            "selector failed the uniformity test for ticket_count={n}: chi2={chi2} >= critical={crit}"
        );
    }
}

#[test]
fn test_statistical_uniformity_ci() {
    run_uniformity_simulation(&[5, 9, 33], 5_000);
}

#[test]
fn test_statistical_uniformity_full() {
    run_uniformity_simulation(&[5, 9, 33], 100_000);
}

#[test]
fn test_statistical_uniformity_rejects_biased_selector() {
    let total_draws = 5_000u32;
    for &n in &[5u32, 9u32, 33u32] {
        let mut histogram = vec![0u32; n as usize];
        for seed in 1..=(total_draws as u64) {
            let biased = BiasedWinnerSelection { seed };
            let winner = biased.select_winner_indices_biased(n);
            histogram[winner as usize] += 1;
        }
        let df = (n - 1) as usize;
        let chi2 = compute_chi_squared(&histogram, total_draws);
        let crit = critical_value_999(df);
        assert!(
            chi2 >= crit,
            "the uniformity test must reject the biased selector for ticket_count={n}: chi2={chi2} expected >= critical={crit}"
        );
    }
}

fn test_env() -> soroban_sdk::Env {
    soroban_sdk::Env::new_with_config(soroban_sdk::testutils::EnvTestConfig {
        capture_snapshot_at_drop: false,
    })
}

#[test]
fn pure_selection_gives_known_indices() {
    assert_eq!(OracleSeedWinnerSelection::new(1).select_winner_indices_pure(5, 3), vec![1, 2, 4]);
    assert_eq!(
        OracleSeedWinnerSelection::new(42).select_winner_indices_pure(100, 4),
        vec![42, 93, 20, 75]
    );
    assert_eq!(OracleSeedWinnerSelection::new(7).select_winner_indices_pure(1, 3), vec![0]);
    assert_eq!(OracleSeedWinnerSelection::new(0).select_winner_indices_pure(1, 2), vec![0]);
}

#[test]
fn pure_selection_matches_host_selection() {
    let env = test_env();
    for seed in 0..40u64 {
        for (n, k) in [(1u32, 2u32), (3, 3), (10, 4), (7, 9)] {
            let s = OracleSeedWinnerSelection::new(seed);
            assert_eq!(s.select_winner_indices_pure(n, k), to_std(&s.select_winner_indices(&env, n, k)));
        }
    }
}

#[test]
fn pure_selection_with_zero_counts_is_empty() {
    assert!(OracleSeedWinnerSelection::new(9).select_winner_indices_pure(0, 3).is_empty());
    assert!(OracleSeedWinnerSelection::new(9).select_winner_indices_pure(10, 0).is_empty());
}

fn to_std(v: &soroban_sdk::Vec<u32>) -> Vec<u32> {
    let mut out = Vec::new();
    for i in 0..v.len() {
        out.push(v.get(i).unwrap());
    }
    out
}

#[test]
fn distinct_selection_gives_known_indices() {
    let env = test_env();
    assert_eq!(to_std(&OracleSeedWinnerSelection::new(1).select_winner_indices(&env, 3, 3)), vec![1, 2, 0]);
    assert_eq!(
        to_std(&OracleSeedWinnerSelection::new(42).select_winner_indices(&env, 10, 5)),
        vec![2, 3, 0, 5, 4]
    );
}

#[test]
fn distinct_selection_caps_at_ticket_count() {
    let env = test_env();
    let winners = to_std(&OracleSeedWinnerSelection::new(5).select_winner_indices(&env, 4, 10));
    assert_eq!(winners, vec![1, 0, 3, 2]);
    assert_eq!(OracleSeedWinnerSelection::new(5).select_winner_indices(&env, 0, 10).len(), 0);
}

#[test]
fn distinct_selection_never_repeats() {
    let env = test_env();
    for seed in 0..50u64 {
        let winners = to_std(&OracleSeedWinnerSelection::new(seed).select_winner_indices(&env, 12, 7));
        assert_eq!(winners.len(), 7);
        for i in 0..winners.len() {
            assert!(winners[i] < 12);
            for j in (i + 1)..winners.len() {
                assert_ne!(winners[i], winners[j]);
            }
        }
    }
}

#[test]
fn quorum_seed_hashes_seeds_in_order() {
    let env = test_env();
    let seeds = vec![
        (Address::from_strkey("GORACLEONE".to_string()), 1u64),
        (Address::from_strkey("GORACLETWO".to_string()), 2u64),
    ];
    assert_eq!(aggregate_quorum_seeds(&env, &seeds), 10121370589403482978);
    assert_eq!(aggregate_quorum_seeds(&env, &Vec::new()), 0);
}

#[test]
fn checkpoint_digest_is_sha256_of_count_sequence_time() {
    let env = test_env();
    let expected: [u8; 32] = [
        19, 217, 34, 127, 5, 6, 108, 111, 39, 39, 197, 23, 112, 91, 167, 52, 187, 241, 190, 174,
        0, 134, 77, 246, 24, 182, 49, 211, 102, 119, 46, 240,
    ];
    assert_eq!(checkpoint_digest(&env, 1000, 7, 5000), expected);
}
