use trust_ledger::models::TrustFactors;
use trust_ledger::trust::{classify, compute_trust_score};

#[test]
fn nothing_known_scores_the_base() {
    let c = compute_trust_score(0, 0, 0, 0, 0);
    assert_eq!(c.score, 300);
    assert_eq!(c.status, "Fair");
}

#[test]
fn many_critical_requests_bottom_out() {
    let c = compute_trust_score(0, 0, 34, 0, 0);
    assert_eq!(c.score, 0);
    assert_eq!(c.status, "Critical");
}

#[test]
fn every_coefficient_counts() {
    // 300 + 20*2 + 4 + 10*4 - 15*1 - 30*1
    let c = compute_trust_score(2, 1, 1, 3, 4);
    assert_eq!(c.score, 339);
    assert_eq!(c.status, "Fair");
    assert_eq!(compute_trust_score(1, 0, 0, 0, 0).score, 320);
    assert_eq!(compute_trust_score(0, 1, 0, 0, 0).score, 285);
    assert_eq!(compute_trust_score(0, 0, 1, 0, 0).score, 270);
    assert_eq!(compute_trust_score(0, 0, 0, 0, 1).score, 310);
}

#[test]
fn interaction_bonus_rounds_toward_zero() {
    assert_eq!(compute_trust_score(0, 0, 0, 1, 0).score, 301);
    assert_eq!(compute_trust_score(0, 0, 0, 2, 0).score, 303);
    assert_eq!(compute_trust_score(0, 0, 0, 3, 0).score, 304);
    assert_eq!(compute_trust_score(0, 0, 0, -1, 0).score, 299);
    assert_eq!(compute_trust_score(0, 0, 0, -3, 0).score, 296);
}

#[test]
fn interaction_bonus_agrees_with_the_floating_step() {
    for interactions in -50i32..=50 {
        let expected = 300 + (interactions as f64 * 1.5) as i32;
        assert_eq!(compute_trust_score(0, 0, 0, interactions, 0).score, expected);
    }
}

#[test]
fn thresholds_are_inclusive() {
    let healthy = compute_trust_score(5, 0, 0, 0, 0);
    assert_eq!((healthy.score, healthy.status.as_str()), (400, "Healthy"));
    let almost = compute_trust_score(0, 0, 0, 66, 0);
    assert_eq!((almost.score, almost.status.as_str()), (399, "Fair"));
    let fair = compute_trust_score(1, 0, 4, 0, 0);
    assert_eq!((fair.score, fair.status.as_str()), (200, "Fair"));
    let critical = compute_trust_score(0, 7, 0, 3, 0);
    assert_eq!((critical.score, critical.status.as_str()), (199, "Critical"));
}

#[test]
fn score_saturates_at_both_ends() {
    let top = compute_trust_score(100, 0, 0, 0, 0);
    assert_eq!((top.score, top.status.as_str()), (1000, "Healthy"));
    assert_eq!(compute_trust_score(35, 0, 0, 0, 0).score, 1000);
    assert_eq!(compute_trust_score(0, 20, 0, 0, 0).score, 0);
    assert_eq!(compute_trust_score(0, 21, 0, 0, 0).score, 0);
}

#[test]
fn extreme_counts_do_not_overflow() {
    let m = i32::MAX;
    let n = i32::MIN;
    assert_eq!(compute_trust_score(m, 0, 0, m, m).score, 1000);
    assert_eq!(compute_trust_score(0, m, m, 0, 0).score, 0);
    assert_eq!(compute_trust_score(n, 0, 0, n, n).score, 0);
    assert_eq!(compute_trust_score(0, n, n, 0, 0).score, 1000);
    assert_eq!(compute_trust_score(m, m, m, m, m).score, 0);
}

#[test]
fn computation_reports_its_factors() {
    let c = compute_trust_score(1, 2, 3, 4, 5);
    assert_eq!(
        c.factors,
        TrustFactors {
            completed_requests: 1,
            stalled_requests: 2,
            critical_requests: 3,
            total_interactions: 4,
            peer_count: 5,
        }
    );
}

#[test]
fn scoring_is_monotonic_on_a_grid() {
    let values = [0, 1, 2, 5, 13, 40];
    for &c in &values {
        for &s in &values {
            for &k in &values {
                for &i in &values {
                    for &p in &values {
                        let base = compute_trust_score(c, s, k, i, p).score;
                        assert!(compute_trust_score(c + 1, s, k, i, p).score >= base);
                        assert!(compute_trust_score(c, s, k, i + 1, p).score >= base);
                        assert!(compute_trust_score(c, s, k, i, p + 1).score >= base);
                        assert!(compute_trust_score(c, s + 1, k, i, p).score <= base);
                        assert!(compute_trust_score(c, s, k + 1, i, p).score <= base);
                        assert!((0..=1000).contains(&base));
                    }
                }
            }
        }
    }
}

#[test]
fn classification_follows_the_thresholds() {
    assert_eq!(classify(1000), "Healthy");
    assert_eq!(classify(400), "Healthy");
    assert_eq!(classify(399), "Fair");
    assert_eq!(classify(200), "Fair");
    assert_eq!(classify(199), "Critical");
    assert_eq!(classify(0), "Critical");
    assert_eq!(classify(-5), "Critical");
}
