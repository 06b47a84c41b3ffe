use trust_ledger::auth::register_with;
use trust_ledger::db::{create_tables, Store};
use trust_ledger::errors::{ApiError, ErrorKind};
use trust_ledger::models::{
    CreateRequestBody, RegisterRequest, Request, RequestPeer, RequestStatus, RequestWithPeers,
    UpdateRequestStatus,
};
use trust_ledger::requests::{
    create_request, create_request_with, get_request, list_requests, listing_key_of, peers_of,
    request_of, requests_of, update_request_status, update_status,
};

const ADA: u128 = 1;
const BOB: u128 = 11;
const ADA_HEADER: &str = "Bearer aaaaaaaaaaaaaaaaaaaaaaaaaaaaaaaaaaaaaaaaaaaaaaaaaaaaaaaaaaaaaaaa";
const BOB_HEADER: &str = "Bearer bbbbbbbbbbbbbbbbbbbbbbbbbbbbbbbbbbbbbbbbbbbbbbbbbbbbbbbbbbbbbbbb";

fn two_users() -> Store {
    let mut store = create_tables();
    for (name, id, fill) in [("ada", ADA, 'a'), ("bob", BOB, 'b')] {
        let body = RegisterRequest {
            username: name.to_string(),
            email: format!("{}@example.org", name),
            password: "password".to_string(),
        };
        let token: String = std::iter::repeat(fill).take(64).collect();
        register_with(&mut store, &body, "hash".to_string(), id, id + 1, token, 1_000).unwrap();
    }
    store
}

fn titled(title: &str) -> CreateRequestBody {
    CreateRequestBody {
        title: title.to_string(),
        description: "what is owed".to_string(),
        status: None,
        peers: None,
        document_id: None,
    }
}

fn row(id: u128, owner: u128, status: RequestStatus, stalled_days: i32) -> Request {
    Request {
        id,
        user_id: owner,
        title: format!("request {}", id),
        description: String::new(),
        status,
        stalled_days,
        document_id: None,
        created_at: 1_000,
        updated_at: 1_000,
    }
}

fn ids_of(listed: &[RequestWithPeers]) -> Vec<u128> {
    listed.iter().map(|r| r.id).collect()
}

#[test]
fn status_names_round_trip() {
    for status in [
        RequestStatus::Fair,
        RequestStatus::Stalled,
        RequestStatus::Critical,
        RequestStatus::Completed,
    ] {
        assert_eq!(RequestStatus::parse(status.as_str()), Some(status));
    }
    assert_eq!(RequestStatus::Fair.as_str(), "fair");
    assert_eq!(RequestStatus::Stalled.as_str(), "stalled");
    assert_eq!(RequestStatus::Critical.as_str(), "critical");
    assert_eq!(RequestStatus::Completed.as_str(), "completed");
}

#[test]
fn unknown_status_names_are_none() {
    for text in ["archived", "", "Fair", "FAIR", " fair", "fair ", "critica", "completed!"] {
        assert_eq!(RequestStatus::parse(text), None);
    }
}

#[test]
fn urgency_puts_critical_first() {
    assert_eq!(RequestStatus::Critical.urgency(), 2);
    assert_eq!(RequestStatus::Stalled.urgency(), 1);
    assert_eq!(RequestStatus::Fair.urgency(), 0);
    assert_eq!(RequestStatus::Completed.urgency(), 0);
    assert_eq!(listing_key_of(RequestStatus::Fair, 0), 0);
    assert_eq!(listing_key_of(RequestStatus::Stalled, 7), (1 << 32) + 7);
    assert_eq!(listing_key_of(RequestStatus::Critical, 3), (2 << 32) + 3);
    assert!(listing_key_of(RequestStatus::Critical, i32::MIN) > listing_key_of(RequestStatus::Stalled, i32::MAX));
    assert!(listing_key_of(RequestStatus::Stalled, i32::MIN) > listing_key_of(RequestStatus::Fair, i32::MAX));
    assert_eq!(
        listing_key_of(RequestStatus::Completed, 5),
        listing_key_of(RequestStatus::Fair, 5)
    );
}

#[test]
fn create_request_with_stores_the_trimmed_title() {
    let mut store = two_users();
    let answer =
        create_request_with(&mut store, ADA, &titled("  Fix budget  "), 100, &vec![], 2_000).unwrap();
    assert_eq!(
        answer,
        RequestWithPeers {
            id: 100,
            user_id: ADA,
            title: "Fix budget".to_string(),
            description: "what is owed".to_string(),
            status: RequestStatus::Fair,
            stalled_days: 0,
            document_id: None,
            peers: vec![],
            created_at: 2_000,
            updated_at: 2_000,
        }
    );
    assert_eq!(store.requests().len(), 1);
    assert_eq!(store.requests()[0].title, "Fix budget");
    assert_eq!(request_of(&store, ADA, 100), Ok(answer));
}

#[test]
fn white_space_title_is_refused() {
    let mut store = two_users();
    for title in ["   ", "", "\t\n", "\u{a0}"] {
        let answer = create_request_with(&mut store, ADA, &titled(title), 100, &vec![], 2_000);
        assert_eq!(answer, Err(ApiError::TitleRequired));
        assert_eq!(answer.unwrap_err().kind(), ErrorKind::Validation);
        assert_eq!(
            create_request(&mut store, Some(ADA_HEADER), &titled(title), 2_000),
            Err(ApiError::TitleRequired)
        );
    }
    assert!(store.requests().is_empty());
}

#[test]
fn create_request_takes_status_peers_and_document() {
    let mut store = two_users();
    let body = CreateRequestBody {
        title: "Review".to_string(),
        description: "d".to_string(),
        status: Some("critical".to_string()),
        peers: Some(vec!["Sarah".to_string(), "Marcus".to_string(), "Sarah".to_string()]),
        document_id: Some("DOC-1".to_string()),
    };
    let answer = create_request_with(&mut store, ADA, &body, 100, &vec![7, 8, 9], 2_000).unwrap();
    assert_eq!(answer.status, RequestStatus::Critical);
    assert_eq!(answer.document_id, Some("DOC-1".to_string()));
    assert_eq!(answer.peers, vec!["Sarah", "Marcus", "Sarah"]);
    assert_eq!(
        store.request_peers(),
        &vec![
            RequestPeer { id: 7, request_id: 100, peer_name: "Sarah".to_string() },
            RequestPeer { id: 8, request_id: 100, peer_name: "Marcus".to_string() },
            RequestPeer { id: 9, request_id: 100, peer_name: "Sarah".to_string() },
        ]
    );
    assert_eq!(peers_of(&store, 100), vec!["Sarah", "Marcus", "Sarah"]);
    assert_eq!(peers_of(&store, 101), Vec::<String>::new());
    assert_eq!(request_of(&store, ADA, 100), Ok(answer));
}

#[test]
fn create_request_refuses_a_status_that_is_none() {
    let mut store = two_users();
    let mut body = titled("Review");
    body.status = Some("archived".to_string());
    assert_eq!(
        create_request_with(&mut store, ADA, &body, 100, &vec![], 2_000),
        Err(ApiError::InvalidStatus)
    );
    body.title = " ".to_string();
    assert_eq!(
        create_request_with(&mut store, ADA, &body, 100, &vec![], 2_000),
        Err(ApiError::TitleRequired)
    );
    assert!(store.requests().is_empty());
}

#[test]
fn create_request_fails_on_identifiers_that_do_not_fit() {
    let mut store = two_users();
    let mut body = titled("Review");
    body.peers = Some(vec!["Sarah".to_string(), "Marcus".to_string()]);
    create_request_with(&mut store, ADA, &body, 100, &vec![7, 8], 2_000).unwrap();
    let attempts: [(u128, u128, Vec<u128>); 7] = [
        (ADA, 100, vec![17, 18]),
        (99, 101, vec![17, 18]),
        (ADA, 101, vec![17]),
        (ADA, 101, vec![17, 18, 19]),
        (ADA, 101, vec![17, 17]),
        (ADA, 101, vec![17, 8]),
        (ADA, 101, vec![7, 18]),
    ];
    for (owner, request_id, peer_ids) in attempts {
        assert_eq!(
            create_request_with(&mut store, owner, &body, request_id, &peer_ids, 2_000),
            Err(ApiError::Storage)
        );
    }
    assert_eq!(store.requests().len(), 1);
    assert_eq!(store.request_peers().len(), 2);
    assert!(create_request_with(&mut store, ADA, &body, 101, &vec![17, 18], 2_000).is_ok());
}

#[test]
fn create_request_draws_identifiers() {
    let mut store = two_users();
    let mut body = titled(" Review ");
    body.peers = Some(vec!["Sarah".to_string(), "Marcus".to_string()]);
    let first = create_request(&mut store, Some(ADA_HEADER), &body, 2_000).unwrap();
    let second = create_request(&mut store, Some(ADA_HEADER), &body, 3_000).unwrap();
    assert_ne!(first.id, second.id);
    assert_eq!(first.id & 0xf000_c000_0000_0000_0000, 0x4000_8000_0000_0000_0000);
    assert_eq!(first.user_id, ADA);
    assert_eq!(first.title, "Review");
    assert_eq!(first.peers, vec!["Sarah", "Marcus"]);
    assert_eq!(store.request_peers().len(), 4);
    assert_eq!(store.request_peers()[0].request_id, first.id);
    assert_eq!(store.request_peers()[3].request_id, second.id);
    assert_eq!(get_request(&store, Some(ADA_HEADER), first.id), Ok(first));
    assert_eq!(
        create_request(&mut store, None, &body, 2_000),
        Err(ApiError::NotAuthenticated)
    );
    assert_eq!(store.requests().len(), 2);
}

#[test]
fn request_of_another_user_is_not_found() {
    let mut store = two_users();
    create_request_with(&mut store, ADA, &titled("mine"), 100, &vec![], 2_000).unwrap();
    let foreign = request_of(&store, BOB, 100);
    let missing = request_of(&store, BOB, 101);
    assert_eq!(foreign, Err(ApiError::RequestNotFound));
    assert_eq!(foreign, missing);
    assert_eq!(foreign.unwrap_err().kind(), ErrorKind::NotFound);
    assert_eq!(get_request(&store, Some(BOB_HEADER), 100), Err(ApiError::RequestNotFound));
    assert_eq!(get_request(&store, None, 100), Err(ApiError::NotAuthenticated));
    assert!(get_request(&store, Some(ADA_HEADER), 100).is_ok());
}

#[test]
fn update_with_an_unknown_status_changes_nothing() {
    let mut store = two_users();
    create_request_with(&mut store, ADA, &titled("mine"), 100, &vec![], 2_000).unwrap();
    assert_eq!(update_status(&mut store, ADA, 100, "archived", 3_000), Err(ApiError::InvalidStatus));
    assert_eq!(store.requests()[0].status, RequestStatus::Fair);
    assert_eq!(store.requests()[0].updated_at, 2_000);
    let body = UpdateRequestStatus { status: "archived".to_string() };
    assert_eq!(
        update_request_status(&mut store, Some(ADA_HEADER), 100, &body, 3_000),
        Err(ApiError::InvalidStatus)
    );
    // the status is checked before the request is looked for
    assert_eq!(update_status(&mut store, ADA, 999, "archived", 3_000), Err(ApiError::InvalidStatus));
    assert_eq!(store.requests()[0], row_like(&store.requests()[0], RequestStatus::Fair, 2_000));
}

fn row_like(request: &Request, status: RequestStatus, updated_at: i64) -> Request {
    Request { status, updated_at, ..request.clone() }
}

#[test]
fn update_moves_the_status_and_the_time() {
    let mut store = two_users();
    create_request_with(&mut store, ADA, &titled("one"), 100, &vec![], 2_000).unwrap();
    create_request_with(&mut store, ADA, &titled("two"), 101, &vec![], 2_000).unwrap();
    let before = store.requests()[0].clone();
    assert_eq!(update_status(&mut store, ADA, 100, "stalled", 3_000), Ok(true));
    assert_eq!(store.requests()[0], row_like(&before, RequestStatus::Stalled, 3_000));
    assert_eq!(store.requests()[0].created_at, 2_000);
    assert_eq!(store.requests()[1].status, RequestStatus::Fair);
    assert_eq!(store.requests()[1].updated_at, 2_000);
    for (text, status) in [
        ("critical", RequestStatus::Critical),
        ("completed", RequestStatus::Completed),
        ("fair", RequestStatus::Fair),
    ] {
        let body = UpdateRequestStatus { status: text.to_string() };
        assert_eq!(update_request_status(&mut store, Some(ADA_HEADER), 100, &body, 4_000), Ok(true));
        assert_eq!(store.requests()[0].status, status);
    }
}

#[test]
fn update_of_a_foreign_or_missing_request_is_not_found() {
    let mut store = two_users();
    create_request_with(&mut store, ADA, &titled("mine"), 100, &vec![], 2_000).unwrap();
    assert_eq!(update_status(&mut store, BOB, 100, "stalled", 3_000), Err(ApiError::RequestNotFound));
    assert_eq!(update_status(&mut store, ADA, 101, "stalled", 3_000), Err(ApiError::RequestNotFound));
    let body = UpdateRequestStatus { status: "stalled".to_string() };
    assert_eq!(
        update_request_status(&mut store, Some(BOB_HEADER), 100, &body, 3_000),
        Err(ApiError::RequestNotFound)
    );
    assert_eq!(
        update_request_status(&mut store, Some("Bearer x"), 100, &body, 3_000),
        Err(ApiError::NotAuthenticated)
    );
    assert_eq!(store.requests()[0].status, RequestStatus::Fair);
}

#[test]
fn critical_lists_before_stalled_whatever_the_days() {
    let mut store = two_users();
    store.add_request(row(1, ADA, RequestStatus::Fair, 0)).unwrap();
    store.add_request(row(2, ADA, RequestStatus::Stalled, 7)).unwrap();
    store.add_request(row(3, ADA, RequestStatus::Critical, 3)).unwrap();
    let listed = requests_of(&store, ADA);
    assert_eq!(ids_of(&listed), vec![3, 2, 1]);
    assert_eq!(listed[0].status, RequestStatus::Critical);
    assert_eq!(listed[0].stalled_days, 3);
    assert_eq!(listed[1].status, RequestStatus::Stalled);
    assert_eq!(listed[1].stalled_days, 7);
    assert_eq!(listed[2].status, RequestStatus::Fair);
}

#[test]
fn within_a_tier_longer_stalled_lists_first() {
    let mut store = two_users();
    store.add_request(row(1, ADA, RequestStatus::Completed, 9)).unwrap();
    store.add_request(row(2, ADA, RequestStatus::Stalled, 3)).unwrap();
    store.add_request(row(3, ADA, RequestStatus::Fair, 1)).unwrap();
    store.add_request(row(4, BOB, RequestStatus::Critical, 50)).unwrap();
    store.add_request(row(5, ADA, RequestStatus::Stalled, 4)).unwrap();
    store.add_request(row(6, ADA, RequestStatus::Critical, 0)).unwrap();
    store.add_request(row(7, ADA, RequestStatus::Fair, 9)).unwrap();
    store.add_request(row(8, ADA, RequestStatus::Critical, 2)).unwrap();
    store.add_request(row(9, ADA, RequestStatus::Stalled, 4)).unwrap();
    assert_eq!(ids_of(&requests_of(&store, ADA)), vec![8, 6, 5, 9, 2, 1, 7, 3]);
    assert_eq!(ids_of(&requests_of(&store, BOB)), vec![4]);
    assert_eq!(ids_of(&requests_of(&store, 99)), Vec::<u128>::new());
    assert_eq!(ids_of(&list_requests(&store, Some(BOB_HEADER)).unwrap()), vec![4]);
    assert_eq!(list_requests(&store, None), Err(ApiError::NotAuthenticated));
}

#[test]
fn listing_joins_each_request_with_its_peers() {
    let mut store = two_users();
    let mut body = titled("first");
    body.peers = Some(vec!["Sarah".to_string()]);
    create_request_with(&mut store, ADA, &body, 100, &vec![7], 2_000).unwrap();
    let mut body = titled("second");
    body.status = Some("stalled".to_string());
    body.peers = Some(vec!["Marcus".to_string(), "Priya".to_string()]);
    create_request_with(&mut store, ADA, &body, 101, &vec![8, 9], 2_000).unwrap();
    create_request_with(&mut store, ADA, &titled("third"), 102, &vec![], 2_000).unwrap();
    let listed = list_requests(&store, Some(ADA_HEADER)).unwrap();
    assert_eq!(ids_of(&listed), vec![101, 100, 102]);
    assert_eq!(listed[0].peers, vec!["Marcus", "Priya"]);
    assert_eq!(listed[1].peers, vec!["Sarah"]);
    assert_eq!(listed[2].peers, Vec::<String>::new());
    assert_eq!(listed[0].title, "second");
}
