use kip::resolve::{resolve_listing, select_candidate, Resolution};

fn listing() -> Vec<String> {
    vec![
        "ebay.com".to_string(),
        "ebay-shop.com".to_string(),
        "amazon.com".to_string(),
    ]
}

#[test]
fn exact_match_wins_outright() {
    match resolve_listing(&listing(), "ebay.com") {
        Resolution::Exact(n) => assert_eq!(n, "ebay.com"),
        _ => panic!("expected the exact-match fast path"),
    }
}

#[test]
fn fragment_with_two_matches_is_ambiguous_in_stable_order() {
    match resolve_listing(&listing(), "ebay") {
        Resolution::Ambiguous(c) => {
            assert_eq!(c, vec!["ebay-shop.com".to_string(), "ebay.com".to_string()]);
        },
        _ => panic!("expected the two-candidate ambiguous case"),
    }
}

#[test]
fn fragment_with_one_match_is_unique() {
    match resolve_listing(&listing(), "amaz") {
        Resolution::Unique(n) => assert_eq!(n, "amazon.com"),
        _ => panic!("expected a unique fuzzy match"),
    }
}

#[test]
fn unmatched_fragment_is_not_found() {
    assert!(matches!(resolve_listing(&listing(), "zzz"), Resolution::NotFound));
}

#[test]
fn empty_listing_is_not_found() {
    let empty: Vec<String> = Vec::new();
    assert!(matches!(resolve_listing(&empty, "anything"), Resolution::NotFound));
}

#[test]
fn select_candidate_picks_by_index() {
    let cands = vec!["ebay-shop.com".to_string(), "ebay.com".to_string()];
    assert_eq!(select_candidate(&cands, "1\n").unwrap(), "ebay.com");
    assert_eq!(select_candidate(&cands, " 0 ").unwrap(), "ebay-shop.com");
}

#[test]
fn select_candidate_rejects_bad_answers() {
    let cands = vec!["a".to_string(), "b".to_string()];
    assert!(select_candidate(&cands, "2").is_err());
    assert!(select_candidate(&cands, "x").is_err());
    assert!(select_candidate(&cands, "").is_err());
    assert!(select_candidate(&cands, "-1").is_err());
}
