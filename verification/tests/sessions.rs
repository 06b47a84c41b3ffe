use trust_ledger::alerts::mark_read;
use trust_ledger::auth::{get_user_from_token, login, me, register, register_with};
use trust_ledger::db::{create_tables, seed_demo_data_with};
use trust_ledger::models::{
    Alert, CreateRequestBody, LoginRequest, RegisterRequest, UpdateRequestStatus,
};
use trust_ledger::requests::{create_request, update_request_status};
use trust_ledger::trust::recalculate_trust_score;

fn body(username: &str, email: &str) -> RegisterRequest {
    RegisterRequest {
        username: username.to_string(),
        email: email.to_string(),
        password: "password".to_string(),
    }
}

#[test]
fn a_token_resolves_to_its_user_after_every_operation() {
    let mut store = create_tables();
    let ada = register(&mut store, &body("ada", "ada@example.org"), 1).unwrap();
    let header = format!("Bearer {}", ada.token);
    let resolves = |store: &trust_ledger::db::Store| {
        assert_eq!(get_user_from_token(store, Some(&header)), Some(ada.user.id));
        assert_eq!(me(store, Some(&header)).unwrap(), ada.user);
    };
    resolves(&store);

    let bob = register(&mut store, &body("bob", "bob@example.org"), 2).unwrap();
    resolves(&store);
    assert!(register(&mut store, &body("eve", "ada@example.org"), 3).is_err());
    resolves(&store);

    let credentials =
        LoginRequest { email: "ada@example.org".to_string(), password: "password".to_string() };
    let again = login(&mut store, &credentials, 4).unwrap();
    resolves(&store);
    assert_eq!(
        get_user_from_token(&store, Some(&format!("Bearer {}", again.token))),
        Some(ada.user.id)
    );
    let wrong =
        LoginRequest { email: "ada@example.org".to_string(), password: "passwore".to_string() };
    assert!(login(&mut store, &wrong, 5).is_err());
    resolves(&store);

    let request = CreateRequestBody {
        title: "Budget".to_string(),
        description: String::new(),
        status: None,
        peers: Some(vec!["Sarah".to_string()]),
        document_id: None,
    };
    let created = create_request(&mut store, Some(&header), &request, 6).unwrap();
    resolves(&store);
    let status = UpdateRequestStatus { status: "completed".to_string() };
    update_request_status(&mut store, Some(&header), created.id, &status, 7).unwrap();
    resolves(&store);
    let computation = recalculate_trust_score(&mut store, Some(&header), 8).unwrap();
    assert_eq!(computation.score, 320);
    resolves(&store);

    store
        .add_alert(Alert {
            id: 77,
            user_id: ada.user.id,
            title: "t".to_string(),
            message: "m".to_string(),
            alert_type: "system".to_string(),
            is_read: false,
            created_at: 9,
        })
        .unwrap();
    mark_read(&mut store, ada.user.id, 77).unwrap();
    resolves(&store);
    assert_eq!(seed_demo_data_with(&mut store, "h".to_string(), &(1..28).collect(), 10), Ok(false));
    resolves(&store);

    assert_eq!(
        get_user_from_token(&store, Some(&format!("Bearer {}", bob.token))),
        Some(bob.user.id)
    );
    assert_eq!(store.sessions().len(), 3);
}

#[test]
fn a_user_may_hold_several_sessions() {
    let mut store = create_tables();
    let tokens = [
        "1111111111111111111111111111111111111111111111111111111111111111",
        "2222222222222222222222222222222222222222222222222222222222222222",
        "3333333333333333333333333333333333333333333333333333333333333333",
    ];
    register_with(&mut store, &body("ada", "ada@example.org"), "$2a$04$UuTkLRZZ6QofpDOlMz32MuuxEHA43WOemOYHPz6.SjsVsyO1tDU96".to_string(), 1, 2, tokens[0].to_string(), 1).unwrap();
    let credentials =
        LoginRequest { email: "ada@example.org".to_string(), password: "password".to_string() };
    for token in &tokens[1..] {
        trust_ledger::auth::login_with(&mut store, &credentials, token.to_string(), 2).unwrap();
    }
    for token in tokens {
        assert_eq!(get_user_from_token(&store, Some(&format!("Bearer {}", token))), Some(1));
    }
    assert_eq!(
        get_user_from_token(
            &store,
            Some("Bearer 4444444444444444444444444444444444444444444444444444444444444444")
        ),
        None
    );
}
