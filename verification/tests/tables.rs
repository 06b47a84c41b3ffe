use trust_ledger::db::{create_tables, Store};
use trust_ledger::db::status_fits_score;
use trust_ledger::errors::ApiError;
use trust_ledger::models::{
    Alert, NetworkPeer, Request, RequestPeer, RequestStatus, Session, TrustScore, User,
};
use trust_ledger::trust::classify;

const TOKEN: &str = "0123456789abcdefghijklmnopqrstuvwxyz0123456789abcdefghijklmnopqr";
const OTHER_TOKEN: &str = "zzzzzzzzzzzzzzzzzzzzzzzzzzzzzzzzzzzzzzzzzzzzzzzzzzzzzzzzzzzzzzzz";

fn user(id: u128, name: &str) -> User {
    User {
        id,
        username: name.to_string(),
        email: format!("{}@example.org", name),
        password_hash: "hash".to_string(),
        created_at: 1,
    }
}

fn session(token: &str, user_id: u128) -> Session {
    Session { token: token.to_string(), user_id, created_at: 3 }
}

fn request(id: u128, user_id: u128) -> Request {
    Request {
        id,
        user_id,
        title: "t".to_string(),
        description: "d".to_string(),
        status: RequestStatus::Stalled,
        stalled_days: 2,
        document_id: Some("DOC".to_string()),
        created_at: 4,
        updated_at: 4,
    }
}

fn request_peer(id: u128, request_id: u128) -> RequestPeer {
    RequestPeer { id, request_id, peer_name: "p".to_string() }
}

fn score(id: u128, user_id: u128, score: i32) -> TrustScore {
    TrustScore { id, user_id, score, status: classify(score), updated_at: 5 }
}

fn labelled(id: u128, user_id: u128, score: i32, status: &str) -> TrustScore {
    TrustScore { id, user_id, score, status: status.to_string(), updated_at: 5 }
}

fn network_peer(id: u128, user_id: u128, interactions: i32) -> NetworkPeer {
    NetworkPeer {
        id,
        user_id,
        peer_name: "n".to_string(),
        trust_level: "Low".to_string(),
        interactions,
        last_interaction: 6,
        position_x: 0,
        position_y: 0,
    }
}

fn alert(id: u128, user_id: u128) -> Alert {
    Alert {
        id,
        user_id,
        title: "a".to_string(),
        message: "m".to_string(),
        alert_type: "system".to_string(),
        is_read: false,
        created_at: 7,
    }
}

fn filled() -> Store {
    let mut store = create_tables();
    store.add_user(user(1, "ada")).unwrap();
    store.add_user(user(2, "bob")).unwrap();
    store.add_session(session(TOKEN, 2)).unwrap();
    store.add_request(request(10, 1)).unwrap();
    store.add_request_peer(request_peer(20, 10)).unwrap();
    store.add_trust_score(score(30, 1, 1000)).unwrap();
    store.add_network_peer(network_peer(40, 2, 0)).unwrap();
    store.add_alert(alert(50, 1)).unwrap();
    store
}

#[test]
fn rows_are_kept_in_the_order_of_insertion() {
    let store = filled();
    assert_eq!(store.users(), &vec![user(1, "ada"), user(2, "bob")]);
    assert_eq!(store.sessions(), &vec![session(TOKEN, 2)]);
    assert_eq!(store.requests(), &vec![request(10, 1)]);
    assert_eq!(store.request_peers(), &vec![request_peer(20, 10)]);
    assert_eq!(store.trust_scores(), &vec![score(30, 1, 1000)]);
    assert_eq!(store.network_peers(), &vec![network_peer(40, 2, 0)]);
    assert_eq!(store.alerts(), &vec![alert(50, 1)]);
}

#[test]
fn positions_are_found_by_key() {
    let store = filled();
    assert_eq!(store.position_of_user(1), Some(0));
    assert_eq!(store.position_of_user(2), Some(1));
    assert_eq!(store.position_of_user(3), None);
    assert_eq!(store.position_of_email("bob@example.org"), Some(1));
    assert_eq!(store.position_of_email("Bob@example.org"), None);
    assert_eq!(store.position_of_username("ada"), Some(0));
    assert_eq!(store.position_of_username("ad"), None);
    assert_eq!(store.position_of_token(TOKEN), Some(0));
    assert_eq!(store.position_of_token(&TOKEN[1..]), None);
    assert_eq!(store.position_of_request(10), Some(0));
    assert_eq!(store.position_of_request(1), None);
    assert_eq!(store.position_of_request_peer(20), Some(0));
    assert_eq!(store.position_of_request_peer(10), None);
    assert_eq!(store.position_of_score(30), Some(0));
    assert_eq!(store.position_of_score(1), None);
    assert_eq!(store.position_of_score_owner(1), Some(0));
    assert_eq!(store.position_of_score_owner(2), None);
    assert_eq!(store.position_of_network_peer(40), Some(0));
    assert_eq!(store.position_of_network_peer(2), None);
    assert_eq!(store.position_of_alert(50), Some(0));
    assert_eq!(store.position_of_alert(1), None);
}

#[test]
fn keys_that_are_taken_are_refused() {
    let mut store = filled();
    let mut same_email = user(3, "eve");
    same_email.email = "ada@example.org".to_string();
    let mut same_name = user(3, "eve");
    same_name.username = "bob".to_string();
    assert_eq!(store.add_user(user(1, "eve")), Err(ApiError::Storage));
    assert_eq!(store.add_user(same_email), Err(ApiError::Storage));
    assert_eq!(store.add_user(same_name), Err(ApiError::Storage));
    assert_eq!(store.add_session(session(TOKEN, 1)), Err(ApiError::Storage));
    assert_eq!(store.add_request(request(10, 2)), Err(ApiError::Storage));
    assert_eq!(store.add_request_peer(request_peer(20, 10)), Err(ApiError::Storage));
    assert_eq!(store.add_trust_score(score(30, 2, 5)), Err(ApiError::Storage));
    assert_eq!(store.add_trust_score(score(31, 1, 5)), Err(ApiError::Storage));
    assert_eq!(store.add_network_peer(network_peer(40, 1, 1)), Err(ApiError::Storage));
    assert_eq!(store.add_alert(alert(50, 2)), Err(ApiError::Storage));
    assert_eq!(store.users().len(), 2);
    assert_eq!(store.sessions().len(), 1);
    assert_eq!(store.requests().len(), 1);
    assert_eq!(store.request_peers().len(), 1);
    assert_eq!(store.trust_scores().len(), 1);
    assert_eq!(store.network_peers().len(), 1);
    assert_eq!(store.alerts().len(), 1);
}

#[test]
fn references_to_nothing_are_refused() {
    let mut store = filled();
    assert_eq!(store.add_session(session(OTHER_TOKEN, 3)), Err(ApiError::Storage));
    assert_eq!(store.add_request(request(11, 3)), Err(ApiError::Storage));
    assert_eq!(store.add_request_peer(request_peer(21, 11)), Err(ApiError::Storage));
    assert_eq!(store.add_trust_score(score(31, 3, 5)), Err(ApiError::Storage));
    assert_eq!(store.add_network_peer(network_peer(41, 3, 1)), Err(ApiError::Storage));
    assert_eq!(store.add_alert(alert(51, 3)), Err(ApiError::Storage));
    assert_eq!(create_tables().add_session(session(TOKEN, 1)), Err(ApiError::Storage));
}

#[test]
fn values_out_of_range_are_refused() {
    let mut store = filled();
    assert_eq!(store.add_session(session("short", 1)), Err(ApiError::Storage));
    assert_eq!(store.add_session(session(&TOKEN.to_uppercase(), 1)), Err(ApiError::Storage));
    assert_eq!(store.add_trust_score(score(31, 2, -1)), Err(ApiError::Storage));
    assert_eq!(store.add_trust_score(score(31, 2, 1001)), Err(ApiError::Storage));
    assert_eq!(store.add_network_peer(network_peer(41, 1, -1)), Err(ApiError::Storage));
    assert_eq!(store.add_trust_score(score(31, 2, 0)), Ok(()));
    assert_eq!(store.add_session(session(OTHER_TOKEN, 1)), Ok(()));
    assert_eq!(store.add_network_peer(network_peer(41, 1, i32::MAX)), Ok(()));
}

#[test]
fn a_status_fits_the_class_of_its_score() {
    for (score, status) in [(1000, "Healthy"), (400, "Healthy"), (399, "Fair"), (200, "Fair"), (199, "Critical"), (0, "Critical")] {
        assert!(status_fits_score(score, status));
    }
    for (score, status) in [(320, "Healthy"), (400, "Fair"), (199, "Fair"), (200, "Critical"), (500, "healthy"), (500, ""), (301, "Healthy"), (299, "Healthy")] {
        assert!(!status_fits_score(score, status));
    }
    // the row that a registration starts with
    assert!(status_fits_score(300, "Healthy"));
    assert!(status_fits_score(300, "Fair"));
    assert!(!status_fits_score(300, "Critical"));
}

#[test]
fn a_status_that_does_not_fit_is_refused() {
    let mut store = filled();
    assert_eq!(store.add_trust_score(labelled(31, 2, 320, "Healthy")), Err(ApiError::Storage));
    assert_eq!(store.add_trust_score(labelled(31, 2, 0, "Fair")), Err(ApiError::Storage));
    assert_eq!(store.add_trust_score(labelled(31, 2, 700, "Good")), Err(ApiError::Storage));
    assert_eq!(store.trust_scores().len(), 1);
    assert_eq!(store.add_trust_score(labelled(31, 2, 300, "Healthy")), Ok(()));
    assert_eq!(store.trust_scores().len(), 2);
}
