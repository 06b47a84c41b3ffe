use trust_ledger::alerts::{alerts_of, list_alerts, mark_alert_read, mark_read};
use trust_ledger::auth::register_with;
use trust_ledger::db::{create_tables, Store};
use trust_ledger::errors::ApiError;
use trust_ledger::models::{Alert, AlertFilter, RegisterRequest};

const ADA: u128 = 1;
const BOB: u128 = 11;
const ADA_HEADER: &str = "Bearer aaaaaaaaaaaaaaaaaaaaaaaaaaaaaaaaaaaaaaaaaaaaaaaaaaaaaaaaaaaaaaaa";
const BOB_HEADER: &str = "Bearer bbbbbbbbbbbbbbbbbbbbbbbbbbbbbbbbbbbbbbbbbbbbbbbbbbbbbbbbbbbbbbbb";

fn alert(id: u128, owner: u128, category: &str, created_at: i64) -> Alert {
    Alert {
        id,
        user_id: owner,
        title: format!("alert {}", id),
        message: "m".to_string(),
        alert_type: category.to_string(),
        is_read: false,
        created_at,
    }
}

fn with_alerts() -> Store {
    let mut store = create_tables();
    for (name, id, fill) in [("ada", ADA, 'a'), ("bob", BOB, 'b')] {
        let body = RegisterRequest {
            username: name.to_string(),
            email: format!("{}@example.org", name),
            password: "password".to_string(),
        };
        let token: String = std::iter::repeat(fill).take(64).collect();
        register_with(&mut store, &body, "hash".to_string(), id, id + 1, token, 1_000).unwrap();
    }
    store.add_alert(alert(1, ADA, "request", 10)).unwrap();
    store.add_alert(alert(2, ADA, "system", 30)).unwrap();
    store.add_alert(alert(3, BOB, "system", 40)).unwrap();
    store.add_alert(alert(4, ADA, "request", 20)).unwrap();
    store.add_alert(alert(5, ADA, "system", 30)).unwrap();
    store
}

fn filter(text: Option<&str>) -> AlertFilter {
    AlertFilter { filter: text.map(|t| t.to_string()) }
}

fn ids(listed: &[Alert]) -> Vec<u128> {
    listed.iter().map(|a| a.id).collect()
}

#[test]
fn alerts_list_newest_first() {
    let store = with_alerts();
    assert_eq!(ids(&alerts_of(&store, ADA, &filter(None))), vec![2, 5, 4, 1]);
    assert_eq!(ids(&alerts_of(&store, ADA, &filter(Some("all")))), vec![2, 5, 4, 1]);
    assert_eq!(ids(&alerts_of(&store, BOB, &filter(None))), vec![3]);
}

#[test]
fn alerts_are_filtered_by_category() {
    let store = with_alerts();
    assert_eq!(ids(&alerts_of(&store, ADA, &filter(Some("request")))), vec![4, 1]);
    assert_eq!(ids(&alerts_of(&store, ADA, &filter(Some("system")))), vec![2, 5]);
    assert_eq!(ids(&alerts_of(&store, ADA, &filter(Some("other")))), Vec::<u128>::new());
    assert_eq!(ids(&alerts_of(&store, ADA, &filter(Some("All")))), Vec::<u128>::new());
    assert_eq!(ids(&alerts_of(&store, ADA, &filter(Some("")))), Vec::<u128>::new());
    assert_eq!(ids(&alerts_of(&store, BOB, &filter(Some("request")))), Vec::<u128>::new());
}

#[test]
fn alerts_through_the_call() {
    let store = with_alerts();
    let listed = list_alerts(&store, Some(ADA_HEADER), &filter(Some("request"))).unwrap();
    assert_eq!(listed, vec![alert(4, ADA, "request", 20), alert(1, ADA, "request", 10)]);
    assert_eq!(list_alerts(&store, None, &filter(None)), Err(ApiError::NotAuthenticated));
}

#[test]
fn marking_read_sets_the_flag_and_keeps_it() {
    let mut store = with_alerts();
    assert_eq!(mark_read(&mut store, ADA, 4), Ok(true));
    assert!(store.alerts()[3].is_read);
    assert_eq!(store.alerts()[3], Alert { is_read: true, ..alert(4, ADA, "request", 20) });
    assert!(!store.alerts()[0].is_read);
    assert_eq!(mark_read(&mut store, ADA, 4), Ok(true));
    assert!(store.alerts()[3].is_read);
    assert_eq!(mark_alert_read(&mut store, Some(ADA_HEADER), 1), Ok(true));
    assert!(store.alerts()[0].is_read);
    assert!(store.alerts()[3].is_read);
    assert_eq!(store.alerts().len(), 5);
}

#[test]
fn foreign_and_missing_alerts_are_not_found() {
    let mut store = with_alerts();
    assert_eq!(mark_read(&mut store, BOB, 4), Err(ApiError::AlertNotFound));
    assert_eq!(mark_read(&mut store, ADA, 99), Err(ApiError::AlertNotFound));
    assert_eq!(mark_alert_read(&mut store, Some(BOB_HEADER), 4), Err(ApiError::AlertNotFound));
    assert_eq!(mark_alert_read(&mut store, None, 4), Err(ApiError::NotAuthenticated));
    assert!(store.alerts().iter().all(|a| !a.is_read));
}
