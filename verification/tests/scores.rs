use trust_ledger::auth::register_with;
use trust_ledger::db::{create_tables, Store};
use trust_ledger::errors::ApiError;
use trust_ledger::models::{
    NetworkPeer, RegisterRequest, Request, RequestStatus, TrustFactors, TrustScore,
};
use trust_ledger::requests::update_status;
use trust_ledger::trust::{
    current_score, get_trust_score, list_network_peers, network_of, recalculate,
    recalculate_trust_score, trust_factors,
};

const ADA: u128 = 1;
const BOB: u128 = 11;
const ADA_HEADER: &str = "Bearer aaaaaaaaaaaaaaaaaaaaaaaaaaaaaaaaaaaaaaaaaaaaaaaaaaaaaaaaaaaaaaaa";

fn two_users() -> Store {
    let mut store = create_tables();
    for (name, id, fill) in [("ada", ADA, 'a'), ("bob", BOB, 'b')] {
        let body = RegisterRequest {
            username: name.to_string(),
            email: format!("{}@example.org", name),
            password: "password".to_string(),
        };
        let token: String = std::iter::repeat(fill).take(64).collect();
        register_with(&mut store, &body, "hash".to_string(), id, id + 1, token, 1_000).unwrap();
    }
    store
}

fn request(id: u128, owner: u128, status: RequestStatus) -> Request {
    Request {
        id,
        user_id: owner,
        title: "t".to_string(),
        description: String::new(),
        status,
        stalled_days: 0,
        document_id: None,
        created_at: 1_000,
        updated_at: 1_000,
    }
}

fn peer(id: u128, owner: u128, name: &str, interactions: i32) -> NetworkPeer {
    NetworkPeer {
        id,
        user_id: owner,
        peer_name: name.to_string(),
        trust_level: "Medium".to_string(),
        interactions,
        last_interaction: 1_000,
        position_x: 0.25f64.to_bits(),
        position_y: (-0.5f64).to_bits(),
    }
}

fn populated() -> Store {
    let mut store = two_users();
    let statuses = [
        RequestStatus::Completed,
        RequestStatus::Completed,
        RequestStatus::Stalled,
        RequestStatus::Critical,
        RequestStatus::Fair,
        RequestStatus::Completed,
    ];
    for (i, status) in statuses.into_iter().enumerate() {
        store.add_request(request(100 + i as u128, ADA, status)).unwrap();
    }
    store.add_request(request(200, BOB, RequestStatus::Critical)).unwrap();
    store.add_network_peer(peer(300, ADA, "Sarah", 5)).unwrap();
    store.add_network_peer(peer(301, BOB, "Zed", 1000)).unwrap();
    store.add_network_peer(peer(302, ADA, "Marcus", 24)).unwrap();
    store.add_network_peer(peer(303, ADA, "Priya", 24)).unwrap();
    store.add_network_peer(peer(304, ADA, "Alex", 0)).unwrap();
    store
}

#[test]
fn factors_are_counted_per_owner() {
    let store = populated();
    assert_eq!(
        trust_factors(&store, ADA),
        TrustFactors {
            completed_requests: 3,
            stalled_requests: 1,
            critical_requests: 1,
            total_interactions: 53,
            peer_count: 4,
        }
    );
    assert_eq!(
        trust_factors(&store, BOB),
        TrustFactors {
            completed_requests: 0,
            stalled_requests: 0,
            critical_requests: 1,
            total_interactions: 1000,
            peer_count: 1,
        }
    );
    assert_eq!(
        trust_factors(&store, 99),
        TrustFactors {
            completed_requests: 0,
            stalled_requests: 0,
            critical_requests: 0,
            total_interactions: 0,
            peer_count: 0,
        }
    );
}

#[test]
fn total_interactions_saturate() {
    let mut store = two_users();
    store.add_network_peer(peer(300, ADA, "a", i32::MAX)).unwrap();
    store.add_network_peer(peer(301, ADA, "b", i32::MAX)).unwrap();
    assert_eq!(trust_factors(&store, ADA).total_interactions, i32::MAX);
    assert_eq!(trust_factors(&store, ADA).peer_count, 2);
}

#[test]
fn recalculate_overwrites_the_one_row() {
    let mut store = populated();
    let before = current_score(&store, ADA).unwrap();
    assert_eq!((before.score, before.status.as_str(), before.updated_at), (300, "Healthy", 1_000));
    // 300 + 20*3 + 79 + 10*4 - 15 - 30
    let computation = recalculate(&mut store, ADA, 5_000);
    assert_eq!(computation.score, 434);
    assert_eq!(computation.status, "Healthy");
    assert_eq!(computation.factors, trust_factors(&store, ADA));
    assert_eq!(
        current_score(&store, ADA),
        Ok(TrustScore {
            id: before.id,
            user_id: ADA,
            score: 434,
            status: "Healthy".to_string(),
            updated_at: 5_000,
        })
    );
    assert_eq!(store.trust_scores().len(), 2);
    let other = current_score(&store, BOB).unwrap();
    assert_eq!((other.score, other.updated_at), (300, 1_000));
}

#[test]
fn recalculate_through_the_call() {
    let mut store = populated();
    assert_eq!(
        recalculate_trust_score(&mut store, None, 5_000),
        Err(ApiError::NotAuthenticated)
    );
    assert_eq!(current_score(&store, ADA).unwrap().updated_at, 1_000);
    let computation = recalculate_trust_score(&mut store, Some(ADA_HEADER), 5_000).unwrap();
    assert_eq!(computation.score, 434);
    let stored = get_trust_score(&store, Some(ADA_HEADER)).unwrap();
    assert_eq!((stored.score, stored.updated_at), (434, 5_000));
}

#[test]
fn a_new_user_recalculates_to_fair() {
    let mut store = two_users();
    let computation = recalculate(&mut store, ADA, 5_000);
    assert_eq!((computation.score, computation.status.as_str()), (300, "Fair"));
    let stored = current_score(&store, ADA).unwrap();
    assert_eq!((stored.score, stored.status.as_str()), (300, "Fair"));
}

#[test]
fn status_updates_do_not_move_the_score_by_themselves() {
    let mut store = populated();
    recalculate(&mut store, ADA, 5_000);
    update_status(&mut store, ADA, 100, "critical", 6_000).unwrap();
    let stored = current_score(&store, ADA).unwrap();
    assert_eq!((stored.score, stored.updated_at), (434, 5_000));
    // one completed fewer, one critical more
    assert_eq!(recalculate(&mut store, ADA, 7_000).score, 384);
    assert_eq!(current_score(&store, ADA).unwrap().status, "Fair");
}

#[test]
fn recalculate_without_a_row_stores_nothing() {
    let mut store = two_users();
    let computation = recalculate(&mut store, 99, 5_000);
    assert_eq!(computation.score, 300);
    assert_eq!(store.trust_scores().len(), 2);
    assert_eq!(current_score(&store, 99), Err(ApiError::TrustScoreNotFound));
}

#[test]
fn current_score_is_found_or_not() {
    let store = create_tables();
    assert_eq!(current_score(&store, ADA), Err(ApiError::TrustScoreNotFound));
    assert_eq!(get_trust_score(&store, Some(ADA_HEADER)), Err(ApiError::NotAuthenticated));
    let store = two_users();
    assert_eq!(get_trust_score(&store, None), Err(ApiError::NotAuthenticated));
    assert_eq!(get_trust_score(&store, Some(ADA_HEADER)).unwrap().user_id, ADA);
}

#[test]
fn network_lists_most_interactions_first() {
    let store = populated();
    let listed = network_of(&store, ADA);
    let names: Vec<&str> = listed.iter().map(|p| p.peer_name.as_str()).collect();
    assert_eq!(names, vec!["Marcus", "Priya", "Sarah", "Alex"]);
    assert_eq!(listed[0], peer(302, ADA, "Marcus", 24));
    assert_eq!(f64::from_bits(listed[0].position_x), 0.25);
    assert_eq!(f64::from_bits(listed[0].position_y), -0.5);
    assert_eq!(list_network_peers(&store, Some(ADA_HEADER)), Ok(listed));
    assert_eq!(list_network_peers(&store, None), Err(ApiError::NotAuthenticated));
    assert_eq!(network_of(&store, 99), vec![]);
}
