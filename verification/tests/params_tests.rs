use tigrinho::engine::{compute_reel_window, verify_reels, window_to_indices};
use tigrinho::{
    ApiError, OperatorParams, Paytable, ProvablyFairRng, ReelsConfig, Symbol, VerifyResponse,
};

#[test]
fn rotation_resets_fairness_window() {
    let reels = ReelsConfig::default_3x3();

    // an outcome produced and published under the old seed
    let old_rng = ProvablyFairRng::new("server", "client", 41);
    let historical = window_to_indices(&compute_reel_window(&old_rng, &reels));

    let mut params = OperatorParams {
        server_seed: "server".to_string(),
        server_seed_hash: String::new(),
        rtp_target: 95,
        nonce: 41,
    };
    params.refresh_hash();
    let old_hash = params.server_seed_hash.clone();

    params.rotate_seed("newseed");
    assert_eq!(params.nonce, 0);
    assert_ne!(params.server_seed_hash, old_hash);
    assert_eq!(
        params.server_seed_hash,
        "421c90eeb0d18e142ce464a7ebc17a61caf98cc03ad2f4de169e91f7c0c7b4bf"
    );

    // the revealed old seed still verifies the historical outcome
    assert!(verify_reels("server", "client", 41, &reels, &historical));
}

#[test]
fn refresh_hash_repairs_stale_commitment() {
    let mut params = OperatorParams {
        server_seed: "server".to_string(),
        server_seed_hash: "stale".to_string(),
        rtp_target: 95,
        nonce: 7,
    };
    assert!(params.refresh_hash());
    assert_eq!(
        params.server_seed_hash,
        "b3eacd33433b31b5252351032c9b3e7a2e7aa7738d5decdf0dd6c62680853c06"
    );
    // a second refresh finds nothing to repair
    assert!(!params.refresh_hash());
    assert_eq!(params.nonce, 7);
    assert_eq!(params.server_seed, "server");
}

#[test]
fn advance_nonce_counts_up() {
    let mut params = OperatorParams {
        server_seed: "server".to_string(),
        server_seed_hash: String::new(),
        rtp_target: 95,
        nonce: 0,
    };
    assert_eq!(params.advance_nonce(), 1);
    assert_eq!(params.advance_nonce(), 2);
    assert_eq!(params.nonce, 2);
}

#[test]
fn boundary_types_carry_plain_values() {
    let resp = VerifyResponse {
        server_seed_hash: "abc".to_string(),
    };
    assert_eq!(resp.server_seed_hash, "abc");
    let err = ApiError::Invalid("bet must be positive".to_string());
    match err {
        ApiError::Invalid(msg) => assert_eq!(msg, "bet must be positive"),
        ApiError::Internal => panic!("wrong variant"),
    }
    let _table = Paytable::simple_default();
    assert_eq!(Symbol::from_index(9), Symbol::Wild);
    assert_eq!(Symbol::from_index(9), Symbol::from_index(4));
    assert_eq!(Symbol::D.to_index(), 3);
}
