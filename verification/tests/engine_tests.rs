use tigrinho::engine::{
    compute_reel_window, evaluate_payout, spin_once, spin_with_seeds, verify_reels,
    window_to_indices, EngineParams,
};
use tigrinho::{Paytable, PaytableEntry, ProvablyFairRng, ReelsConfig, Symbol};

fn default_params() -> EngineParams {
    EngineParams {
        reels: ReelsConfig::default_3x3(),
        paytable: Paytable::simple_default(),
        rtp_target: 95,
    }
}

#[test]
fn test_spin_deterministic() {
    let params = default_params();
    let rng = ProvablyFairRng::new("server", "client", 1);
    let out1 = spin_once(&rng, &params, 1, 1);
    let out2 = spin_once(&rng, &params, 1, 1);
    assert_eq!(out1.payout, out2.payout);
    assert_eq!(out1.reel_window, out2.reel_window);
}

#[test]
fn conformance_vector() {
    // server seed "server", client seed "client", nonce 1, built-in 3x3
    // layout: the exact window and payout every conforming derivation
    // must reproduce (payout in hundredths of the bet unit).
    let params = default_params();
    let out = spin_with_seeds("server", "client", 1, &params, 1, 1);
    let indices = window_to_indices(&out.reel_window);
    assert_eq!(
        indices,
        vec![vec![2u8, 2, 4], vec![3, 3, 0], vec![4, 0, 1]]
    );
    assert_eq!(out.payout, 800);
}

#[test]
fn window_shape() {
    let reels = ReelsConfig::default_3x3();
    let rng = ProvablyFairRng::new("shape", "check", 3);
    let w = compute_reel_window(&rng, &reels);
    assert_eq!(w.len(), 3);
    for row in &w {
        assert_eq!(row.len(), 3);
    }
}

#[test]
fn window_wraps_when_rows_exceed_strip() {
    // a two-symbol strip with five visible rows: positions wrap modulo
    // the strip length, so rows repeat with period two
    let reels = ReelsConfig {
        reels: vec![vec![Symbol::A, Symbol::B]],
        rows: 5,
    };
    let rng = ProvablyFairRng::new("server", "client", 1);
    let w = compute_reel_window(&rng, &reels);
    assert_eq!(w.len(), 5);
    for r in 0..5 {
        assert_eq!(w[r][0], w[r % 2][0]);
    }
    assert_ne!(w[0][0], w[1][0]);
}

#[test]
fn spin_with_seeds_equals_explicit_rng() {
    let params = default_params();
    let rng = ProvablyFairRng::new("server", "client", 5);
    let a = spin_once(&rng, &params, 2, 1);
    let b = spin_with_seeds("server", "client", 5, &params, 2, 1);
    assert_eq!(a.payout, b.payout);
    assert_eq!(a.reel_window, b.reel_window);
}

#[test]
fn wild_row_prices_under_partner_symbol() {
    // a row of (Wild, B, B) with entry (symbol B, count 3, multiplier
    // 4.00) and bet 1 prices at 4.00, written in hundredths
    let window = vec![vec![Symbol::Wild, Symbol::B, Symbol::B]];
    let table = Paytable(vec![PaytableEntry {
        symbol: Symbol::B.to_index(),
        count: 3,
        payout_multiplier: 400,
    }]);
    assert_eq!(evaluate_payout(&window, &table, 1), 400);
}

#[test]
fn all_wilds_price_under_wild_entry() {
    let window = vec![vec![Symbol::Wild, Symbol::Wild, Symbol::Wild]];
    let table = Paytable::simple_default();
    assert_eq!(evaluate_payout(&window, &table, 1), 1000);
}

#[test]
fn single_wild_matches_mixed_row() {
    // any wild makes the row a match; the effective symbol is the first
    // column unless it is wild
    let window = vec![vec![Symbol::A, Symbol::Wild, Symbol::C]];
    let table = Paytable::simple_default();
    assert_eq!(evaluate_payout(&window, &table, 1), 500);
}

#[test]
fn unmatched_row_pays_zero() {
    let window = vec![vec![Symbol::A, Symbol::B, Symbol::C]];
    let table = Paytable::simple_default();
    assert_eq!(evaluate_payout(&window, &table, 1), 0);
}

#[test]
fn payout_scales_with_bet_and_sums_rows() {
    let window = vec![
        vec![Symbol::B, Symbol::B, Symbol::B],
        vec![Symbol::D, Symbol::D, Symbol::D],
        vec![Symbol::A, Symbol::C, Symbol::D],
    ];
    let table = Paytable::simple_default();
    // (400 + 200) per bet unit, bet of 3 units
    assert_eq!(evaluate_payout(&window, &table, 3), 1800);
}

#[test]
fn missing_entry_pays_zero() {
    let window = vec![vec![Symbol::C, Symbol::C, Symbol::C]];
    let table = Paytable(vec![PaytableEntry {
        symbol: Symbol::A.to_index(),
        count: 3,
        payout_multiplier: 500,
    }]);
    assert_eq!(evaluate_payout(&window, &table, 7), 0);
}

#[test]
fn verify_accepts_recomputed_window() {
    let reels = ReelsConfig::default_3x3();
    let rng = ProvablyFairRng::new("server", "client", 1);
    let window = compute_reel_window(&rng, &reels);
    let indices = window_to_indices(&window);
    assert!(verify_reels("server", "client", 1, &reels, &indices));
}

#[test]
fn verify_rejects_any_changed_input() {
    let reels = ReelsConfig::default_3x3();
    let rng = ProvablyFairRng::new("server", "client", 1);
    let indices = window_to_indices(&compute_reel_window(&rng, &reels));

    assert!(!verify_reels("other", "client", 1, &reels, &indices));
    assert!(!verify_reels("server", "other", 1, &reels, &indices));
    assert!(!verify_reels("server", "client", 2, &reels, &indices));

    let mut tampered = indices.clone();
    tampered[1][2] = (tampered[1][2] + 1) % 5;
    assert!(!verify_reels("server", "client", 1, &reels, &tampered));
}

#[test]
fn verify_rejects_wrong_shape() {
    let reels = ReelsConfig::default_3x3();
    let rng = ProvablyFairRng::new("server", "client", 1);
    let mut indices = window_to_indices(&compute_reel_window(&rng, &reels));
    indices.pop();
    assert!(!verify_reels("server", "client", 1, &reels, &indices));

    let rng2 = ProvablyFairRng::new("server", "client", 1);
    let mut indices2 = window_to_indices(&compute_reel_window(&rng2, &reels));
    indices2[0].push(0);
    assert!(!verify_reels("server", "client", 1, &reels, &indices2));
}
