//! The demonstration data: one user with requests, attributions, a network
//! and alerts, with which an empty store can be seeded.

use vstd::prelude::*;
use vstd::string::*;
use crate::auth::{hash_password, password_matches, sessions_persist};
use crate::db::{all_within_nothing, new_id, Store, StoreView};
use crate::errors::ApiError;
use crate::lookup::all_distinct;
use crate::models::{
    Alert, AlertView, NetworkPeer, NetworkPeerView, Request, RequestPeer, RequestPeerView,
    RequestStatus, RequestView, TrustScore, TrustScoreView, User, UserView,
};
use crate::trust::{classify, status_label};

verus! {

/// The name of the demonstration user.
pub const DEMO_USERNAME: &'static str = "demo.user";

/// The e-mail address of the demonstration user.
pub const DEMO_EMAIL: &'static str = "demo@trustos.app";

/// The password of the demonstration user.
pub const DEMO_PASSWORD: &'static str = "demo1234";

/// The trust score that the demonstration user starts with; its status is
/// the class of this score.
pub const DEMO_SCORE: i32 = 320;

/// The number of demonstration requests.
pub const DEMO_REQUESTS: usize = 5;

/// The number of attributions of the demonstration requests.
pub const DEMO_ATTRIBUTIONS: usize = 9;

/// The number of demonstration network peers.
pub const DEMO_NETWORK_PEERS: usize = 6;

/// The number of demonstration alerts.
pub const DEMO_ALERTS: usize = 5;

/// The demonstration request at `k`, under the given identifier.
pub open spec fn demo_request(k: int, id: u128, owner: u128, now: i64) -> RequestView {
    if k == 0 {
        RequestView {
            id,
            user_id: owner,
            title: "Q3 Budget Alignment"@,
            description: "Align team spending with quarterly targets and submit final budget proposal."@,
            status: RequestStatus::Critical,
            stalled_days: 7,
            document_id: Some("DOC-4521"@),
            created_at: now,
            updated_at: now,
        }
    } else if k == 1 {
        RequestView {
            id,
            user_id: owner,
            title: "Onboarding Checklist for New Hire"@,
            description: "Complete the onboarding checklist for the new team member starting next Monday."@,
            status: RequestStatus::Stalled,
            stalled_days: 3,
            document_id: None,
            created_at: now,
            updated_at: now,
        }
    } else if k == 2 {
        RequestView {
            id,
            user_id: owner,
            title: "Weekly Sync Feedback Loop"@,
            description: "Establish a recurring feedback loop during weekly syncs to track action items."@,
            status: RequestStatus::Fair,
            stalled_days: 0,
            document_id: None,
            created_at: now,
            updated_at: now,
        }
    } else if k == 3 {
        RequestView {
            id,
            user_id: owner,
            title: "Client Deliverable Review"@,
            description: "Review and approve the client deliverable before the Friday deadline."@,
            status: RequestStatus::Stalled,
            stalled_days: 4,
            document_id: Some("DOC-3387"@),
            created_at: now,
            updated_at: now,
        }
    } else {
        RequestView {
            id,
            user_id: owner,
            title: "Team Trust Retrospective"@,
            description: "Schedule and facilitate a trust-building retrospective for the engineering team."@,
            status: RequestStatus::Fair,
            stalled_days: 0,
            document_id: None,
            created_at: now,
            updated_at: now,
        }
    }
}

/// The demonstration request at `k`, under the given identifier.
pub fn demo_request_row(k: usize, id: u128, owner: u128, now: i64) -> (row: Request)
    requires
        k < DEMO_REQUESTS,
    ensures
        row@ == demo_request(k as int, id, owner, now),
{
    if k == 0 {
        Request {
            id,
            user_id: owner,
            title: "Q3 Budget Alignment".to_owned(),
            description: "Align team spending with quarterly targets and submit final budget proposal.".to_owned(),
            status: RequestStatus::Critical,
            stalled_days: 7,
            document_id: Some("DOC-4521".to_owned()),
            created_at: now,
            updated_at: now,
        }
    } else if k == 1 {
        Request {
            id,
            user_id: owner,
            title: "Onboarding Checklist for New Hire".to_owned(),
            description: "Complete the onboarding checklist for the new team member starting next Monday.".to_owned(),
            status: RequestStatus::Stalled,
            stalled_days: 3,
            document_id: None,
            created_at: now,
            updated_at: now,
        }
    } else if k == 2 {
        Request {
            id,
            user_id: owner,
            title: "Weekly Sync Feedback Loop".to_owned(),
            description: "Establish a recurring feedback loop during weekly syncs to track action items.".to_owned(),
            status: RequestStatus::Fair,
            stalled_days: 0,
            document_id: None,
            created_at: now,
            updated_at: now,
        }
    } else if k == 3 {
        Request {
            id,
            user_id: owner,
            title: "Client Deliverable Review".to_owned(),
            description: "Review and approve the client deliverable before the Friday deadline.".to_owned(),
            status: RequestStatus::Stalled,
            stalled_days: 4,
            document_id: Some("DOC-3387".to_owned()),
            created_at: now,
            updated_at: now,
        }
    } else {
        Request {
            id,
            user_id: owner,
            title: "Team Trust Retrospective".to_owned(),
            description: "Schedule and facilitate a trust-building retrospective for the engineering team.".to_owned(),
            status: RequestStatus::Fair,
            stalled_days: 0,
            document_id: None,
            created_at: now,
            updated_at: now,
        }
    }
}

/// The demonstration request that the attribution at `k` belongs to.
pub open spec fn demo_attributed_request(k: int) -> int {
    if k == 0 {
        0
    } else if k == 1 {
        0
    } else if k == 2 {
        1
    } else if k == 3 {
        2
    } else if k == 4 {
        2
    } else if k == 5 {
        2
    } else if k == 6 {
        3
    } else if k == 7 {
        4
    } else {
        4
    }
}

/// The name of the peer of the attribution at `k`.
pub open spec fn demo_attributed_name(k: int) -> Seq<char> {
    if k == 0 {
        "Sarah Chen"@
    } else if k == 1 {
        "Marcus Lee"@
    } else if k == 2 {
        "Jordan Blake"@
    } else if k == 3 {
        "Priya Sharma"@
    } else if k == 4 {
        "Alex Kim"@
    } else if k == 5 {
        "Jordan Blake"@
    } else if k == 6 {
        "Sarah Chen"@
    } else if k == 7 {
        "Marcus Lee"@
    } else {
        "Priya Sharma"@
    }
}

/// The demonstration request and the peer of the attribution at `k`.
pub fn demo_attribution(k: usize) -> (attribution: (usize, String))
    requires
        k < DEMO_ATTRIBUTIONS,
    ensures
        attribution.0 == demo_attributed_request(k as int),
        attribution.0 < DEMO_REQUESTS,
        attribution.1@ == demo_attributed_name(k as int),
{
    if k == 0 {
        (0, "Sarah Chen".to_owned())
    } else if k == 1 {
        (0, "Marcus Lee".to_owned())
    } else if k == 2 {
        (1, "Jordan Blake".to_owned())
    } else if k == 3 {
        (2, "Priya Sharma".to_owned())
    } else if k == 4 {
        (2, "Alex Kim".to_owned())
    } else if k == 5 {
        (2, "Jordan Blake".to_owned())
    } else if k == 6 {
        (3, "Sarah Chen".to_owned())
    } else if k == 7 {
        (4, "Marcus Lee".to_owned())
    } else {
        (4, "Priya Sharma".to_owned())
    }
}

/// The demonstration network peer at `k`, under the given identifier.
pub open spec fn demo_network_peer(k: int, id: u128, owner: u128, now: i64) -> NetworkPeerView {
    if k == 0 {
        NetworkPeerView {
            id,
            user_id: owner,
            peer_name: "Sarah Chen"@,
            trust_level: "High"@,
            interactions: 24,
            last_interaction: now,
            position_x: 0x3fd3_3333_3333_3333,
            position_y: 0x3fc9_9999_9999_999a,
        }
    } else if k == 1 {
        NetworkPeerView {
            id,
            user_id: owner,
            peer_name: "Marcus Lee"@,
            trust_level: "High"@,
            interactions: 18,
            last_interaction: now,
            position_x: 0xbfc9_9999_9999_999a,
            position_y: 0xbfd3_3333_3333_3333,
        }
    } else if k == 2 {
        NetworkPeerView {
            id,
            user_id: owner,
            peer_name: "Priya Sharma"@,
            trust_level: "Medium"@,
            interactions: 12,
            last_interaction: now,
            position_x: 0x3fd9_9999_9999_999a,
            position_y: 0xbfb9_9999_9999_999a,
        }
    } else if k == 3 {
        NetworkPeerView {
            id,
            user_id: owner,
            peer_name: "Jordan Blake"@,
            trust_level: "Medium"@,
            interactions: 9,
            last_interaction: now,
            position_x: 0xbfd3_3333_3333_3333,
            position_y: 0x3fd9_9999_9999_999a,
        }
    } else if k == 4 {
        NetworkPeerView {
            id,
            user_id: owner,
            peer_name: "Alex Kim"@,
            trust_level: "Low"@,
            interactions: 5,
            last_interaction: now,
            position_x: 0x3fb9_9999_9999_999a,
            position_y: 0x3fe0_0000_0000_0000,
        }
    } else {
        NetworkPeerView {
            id,
            user_id: owner,
            peer_name: "Taylor Morgan"@,
            trust_level: "Low"@,
            interactions: 3,
            last_interaction: now,
            position_x: 0xbfd9_9999_9999_999a,
            position_y: 0x3fb9_9999_9999_999a,
        }
    }
}

/// The demonstration network peer at `k`, under the given identifier.
pub fn demo_network_peer_row(k: usize, id: u128, owner: u128, now: i64) -> (row: NetworkPeer)
    requires
        k < DEMO_NETWORK_PEERS,
    ensures
        row@ == demo_network_peer(k as int, id, owner, now),
        row.interactions >= 0,
{
    if k == 0 {
        NetworkPeer {
            id,
            user_id: owner,
            peer_name: "Sarah Chen".to_owned(),
            trust_level: "High".to_owned(),
            interactions: 24,
            last_interaction: now,
            position_x: 0x3fd3_3333_3333_3333,
            position_y: 0x3fc9_9999_9999_999a,
        }
    } else if k == 1 {
        NetworkPeer {
            id,
            user_id: owner,
            peer_name: "Marcus Lee".to_owned(),
            trust_level: "High".to_owned(),
            interactions: 18,
            last_interaction: now,
            position_x: 0xbfc9_9999_9999_999a,
            position_y: 0xbfd3_3333_3333_3333,
        }
    } else if k == 2 {
        NetworkPeer {
            id,
            user_id: owner,
            peer_name: "Priya Sharma".to_owned(),
            trust_level: "Medium".to_owned(),
            interactions: 12,
            last_interaction: now,
            position_x: 0x3fd9_9999_9999_999a,
            position_y: 0xbfb9_9999_9999_999a,
        }
    } else if k == 3 {
        NetworkPeer {
            id,
            user_id: owner,
            peer_name: "Jordan Blake".to_owned(),
            trust_level: "Medium".to_owned(),
            interactions: 9,
            last_interaction: now,
            position_x: 0xbfd3_3333_3333_3333,
            position_y: 0x3fd9_9999_9999_999a,
        }
    } else if k == 4 {
        NetworkPeer {
            id,
            user_id: owner,
            peer_name: "Alex Kim".to_owned(),
            trust_level: "Low".to_owned(),
            interactions: 5,
            last_interaction: now,
            position_x: 0x3fb9_9999_9999_999a,
            position_y: 0x3fe0_0000_0000_0000,
        }
    } else {
        NetworkPeer {
            id,
            user_id: owner,
            peer_name: "Taylor Morgan".to_owned(),
            trust_level: "Low".to_owned(),
            interactions: 3,
            last_interaction: now,
            position_x: 0xbfd9_9999_9999_999a,
            position_y: 0x3fb9_9999_9999_999a,
        }
    }
}

/// The demonstration alert at `k`, under the given identifier.
pub open spec fn demo_alert(k: int, id: u128, owner: u128, now: i64) -> AlertView {
    if k == 0 {
        AlertView {
            id,
            user_id: owner,
            title: "Budget Request Critical"@,
            message: "Q3 Budget Alignment has been stalled for 7 days and is now critical."@,
            alert_type: "request"@,
            is_read: false,
            created_at: now,
        }
    } else if k == 1 {
        AlertView {
            id,
            user_id: owner,
            title: "New Team Member Joining"@,
            message: "Jordan Blake's onboarding checklist needs attention before Monday."@,
            alert_type: "request"@,
            is_read: false,
            created_at: now,
        }
    } else if k == 2 {
        AlertView {
            id,
            user_id: owner,
            title: "Weekly Sync Scheduled"@,
            message: "Your weekly sync feedback loop is set for Thursday at 2pm."@,
            alert_type: "system"@,
            is_read: false,
            created_at: now,
        }
    } else if k == 3 {
        AlertView {
            id,
            user_id: owner,
            title: "Trust Score Updated"@,
            message: "Your Emotional Bank Account score has been recalculated: 320 (Healthy)."@,
            alert_type: "system"@,
            is_read: false,
            created_at: now,
        }
    } else {
        AlertView {
            id,
            user_id: owner,
            title: "Deliverable Deadline Approaching"@,
            message: "Client Deliverable Review is due this Friday. Status: Stalled."@,
            alert_type: "request"@,
            is_read: false,
            created_at: now,
        }
    }
}

/// The demonstration alert at `k`, under the given identifier.
pub fn demo_alert_row(k: usize, id: u128, owner: u128, now: i64) -> (row: Alert)
    requires
        k < DEMO_ALERTS,
    ensures
        row@ == demo_alert(k as int, id, owner, now),
{
    if k == 0 {
        Alert {
            id,
            user_id: owner,
            title: "Budget Request Critical".to_owned(),
            message: "Q3 Budget Alignment has been stalled for 7 days and is now critical.".to_owned(),
            alert_type: "request".to_owned(),
            is_read: false,
            created_at: now,
        }
    } else if k == 1 {
        Alert {
            id,
            user_id: owner,
            title: "New Team Member Joining".to_owned(),
            message: "Jordan Blake's onboarding checklist needs attention before Monday.".to_owned(),
            alert_type: "request".to_owned(),
            is_read: false,
            created_at: now,
        }
    } else if k == 2 {
        Alert {
            id,
            user_id: owner,
            title: "Weekly Sync Scheduled".to_owned(),
            message: "Your weekly sync feedback loop is set for Thursday at 2pm.".to_owned(),
            alert_type: "system".to_owned(),
            is_read: false,
            created_at: now,
        }
    } else if k == 3 {
        Alert {
            id,
            user_id: owner,
            title: "Trust Score Updated".to_owned(),
            message: "Your Emotional Bank Account score has been recalculated: 320 (Healthy).".to_owned(),
            alert_type: "system".to_owned(),
            is_read: false,
            created_at: now,
        }
    } else {
        Alert {
            id,
            user_id: owner,
            title: "Deliverable Deadline Approaching".to_owned(),
            message: "Client Deliverable Review is due this Friday. Status: Stalled.".to_owned(),
            alert_type: "request".to_owned(),
            is_read: false,
            created_at: now,
        }
    }
}

/// The number of identifiers that the demonstration data takes: one for the
/// user, one for the trust score, and one for each request, attribution,
/// network peer and alert, in this order.
pub const DEMO_IDS: usize = 27;

/// The store that holds the demonstration data and nothing else.
pub open spec fn seeded(password_hash: Seq<char>, ids: Seq<u128>, now: i64) -> StoreView {
    StoreView {
        users: seq![
            UserView {
                id: ids[0],
                username: "demo.user"@,
                email: "demo@trustos.app"@,
                password_hash,
                created_at: now,
            },
        ],
        sessions: Seq::empty(),
        requests: Seq::new(5, |k: int| demo_request(k, ids[2 + k], ids[0], now)),
        request_peers: Seq::new(
            9,
            |k: int|
                RequestPeerView {
                    id: ids[7 + k],
                    request_id: ids[2 + demo_attributed_request(k)],
                    peer_name: demo_attributed_name(k),
                },
        ),
        trust_scores: seq![
            TrustScoreView {
                id: ids[1],
                user_id: ids[0],
                score: 320,
                status: status_label(320),
                updated_at: now,
            },
        ],
        network_peers: Seq::new(6, |k: int| demo_network_peer(k, ids[16 + k], ids[0], now)),
        alerts: Seq::new(5, |k: int| demo_alert(k, ids[22 + k], ids[0], now)),
    }
}

/// The demonstration store keeps the schema's word on scores: the one stored
/// score is in range and its status is the class of the score, which is
/// fair.
pub proof fn seeded_score_is_classified(password_hash: Seq<char>, ids: Seq<u128>, now: i64)
    ensures
        seeded(password_hash, ids, now).trust_scores.len() == 1,
        0 <= seeded(password_hash, ids, now).trust_scores[0].score <= 1000,
        seeded(password_hash, ids, now).trust_scores[0].status == status_label(
            seeded(password_hash, ids, now).trust_scores[0].score as int,
        ),
        seeded(password_hash, ids, now).trust_scores[0].status == "Fair"@,
{
}

/// The demonstration data as far as it is stored when the first `requests`
/// requests, `attributions` attributions, `peers` network peers and `alerts`
/// alerts are.
pub open spec fn seeded_up_to(
    password_hash: Seq<char>,
    ids: Seq<u128>,
    now: i64,
    requests: int,
    attributions: int,
    peers: int,
    alerts: int,
) -> StoreView {
    let all = seeded(password_hash, ids, now);
    StoreView {
        requests: all.requests.take(requests),
        request_peers: all.request_peers.take(attributions),
        network_peers: all.network_peers.take(peers),
        alerts: all.alerts.take(alerts),
        ..all
    }
}

/// The identifiers are as many as the demonstration data takes, and no two
/// of them are equal.
pub open spec fn seeding_fits(ids: Seq<u128>) -> bool {
    ids.len() == 27 && ids.no_duplicates()
}

/// A store without users holds nothing at all: every other row would refer
/// to a user.
pub proof fn no_users_no_rows(s: StoreView)
    requires
        s.wf(),
        s.users.len() == 0,
    ensures
        s == StoreView::empty(),
{
    all_within_nothing(s.session_owners(), s.user_ids());
    all_within_nothing(s.request_owners(), s.user_ids());
    all_within_nothing(s.score_owners(), s.user_ids());
    all_within_nothing(s.network_owners(), s.user_ids());
    all_within_nothing(s.alert_owners(), s.user_ids());
    assert(s.requests.len() == 0);
    assert(s.request_ids().len() == 0);
    all_within_nothing(s.attributed_requests(), s.request_ids());
    assert(s.users =~= Seq::empty());
    assert(s.sessions =~= Seq::empty());
    assert(s.requests =~= Seq::empty());
    assert(s.request_peers =~= Seq::empty());
    assert(s.trust_scores =~= Seq::empty());
    assert(s.network_peers =~= Seq::empty());
    assert(s.alerts =~= Seq::empty());
}

/// Seeds a store that holds no user with the demonstration data, under
/// identifiers and with a password hash that were made beforehand, and says
/// whether it did. A store that holds a user is left as it is. Identifiers
/// that are too few, too many or not distinct are a failure of the storage
/// and change nothing.
pub fn seed_demo_data_with(store: &mut Store, password_hash: String, ids: &Vec<u128>, now: i64) -> (answer:
    Result<bool, ApiError>)
    requires
        old(store)@.wf(),
    ensures
        final(store)@.wf(),
        sessions_persist(old(store)@, final(store)@),
        final(store)@.extends(old(store)@),
        answer == Ok::<bool, ApiError>(true) ==> final(store)@.trust_scores.len() == 1 && final(store)@.trust_scores[0].score == 320 && final(store)@.trust_scores[0].status == status_label(320),
        if old(store)@.users.len() > 0 {
            answer == Ok::<bool, ApiError>(false) && final(store)@ == old(store)@
        } else if !seeding_fits(ids@) {
            answer == Err::<bool, ApiError>(ApiError::Storage) && final(store)@ == old(store)@
        } else {
            answer == Ok::<bool, ApiError>(true) && final(store)@ == seeded(
                password_hash@,
                ids@,
                now,
            )
        },
{
    if store.users().len() > 0 {
        return Ok(false);
    }
    if ids.len() != DEMO_IDS || !all_distinct(ids) {
        return Err(ApiError::Storage);
    }
    let owner = ids[0];
    let ghost hash = password_hash@;
    let ghost all = seeded(hash, ids@, now);
    proof {
        no_users_no_rows(store@);
    }
    store.insert_user(
        User {
            id: owner,
            username: DEMO_USERNAME.to_owned(),
            email: DEMO_EMAIL.to_owned(),
            password_hash,
            created_at: now,
        },
    );
    proof {
        assert(store@.users =~= all.users);
        assert(store@.user_ids()[0] == owner);
    }
    store.insert_trust_score(
        TrustScore {
            id: ids[1],
            user_id: owner,
            score: DEMO_SCORE,
            status: classify(DEMO_SCORE),
            updated_at: now,
        },
    );
    proof {
        assert(store@.trust_scores =~= all.trust_scores);
        assert(store@ == seeded_up_to(hash, ids@, now, 0, 0, 0, 0)) by {
            assert(all.requests.take(0) =~= Seq::empty());
            assert(all.request_peers.take(0) =~= Seq::empty());
            assert(all.network_peers.take(0) =~= Seq::empty());
            assert(all.alerts.take(0) =~= Seq::empty());
        }
    }
    let mut k: usize = 0;
    while k < DEMO_REQUESTS
        invariant
            k <= DEMO_REQUESTS,
            seeding_fits(ids@),
            owner == ids@[0],
            all == seeded(hash, ids@, now),
            store@.wf(),
            store@ == seeded_up_to(hash, ids@, now, k as int, 0, 0, 0),
        decreases DEMO_REQUESTS - k,
    {
        let row = demo_request_row(k, ids[2 + k], owner, now);
        proof {
            assert(store@.user_ids()[0] == owner);
            if store@.request_ids().contains(row.id) {
                let at = choose|at: int|
                    0 <= at < store@.request_ids().len() && store@.request_ids()[at] == row.id;
                assert(store@.request_ids()[at] == ids@[2 + at]);
            }
            assert(all.requests.take(k as int).push(row@) =~= all.requests.take(k + 1));
        }
        store.insert_request(row);
        k = k + 1;
    }
    let mut k: usize = 0;
    while k < DEMO_ATTRIBUTIONS
        invariant
            k <= DEMO_ATTRIBUTIONS,
            seeding_fits(ids@),
            owner == ids@[0],
            all == seeded(hash, ids@, now),
            store@.wf(),
            store@ == seeded_up_to(hash, ids@, now, 5, k as int, 0, 0),
        decreases DEMO_ATTRIBUTIONS - k,
    {
        let (request, peer_name) = demo_attribution(k);
        let row = RequestPeer { id: ids[7 + k], request_id: ids[2 + request], peer_name };
        proof {
            assert(all.requests.take(5) =~= all.requests);
            assert(store@.request_ids()[request as int] == row.request_id);
            if store@.request_peer_ids().contains(row.id) {
                let at = choose|at: int|
                    0 <= at < store@.request_peer_ids().len() && store@.request_peer_ids()[at]
                        == row.id;
                assert(store@.request_peer_ids()[at] == ids@[7 + at]);
            }
            assert(all.request_peers.take(k as int).push(row@) =~= all.request_peers.take(k + 1));
        }
        store.insert_request_peer(row);
        k = k + 1;
    }
    let mut k: usize = 0;
    while k < DEMO_NETWORK_PEERS
        invariant
            k <= DEMO_NETWORK_PEERS,
            seeding_fits(ids@),
            owner == ids@[0],
            all == seeded(hash, ids@, now),
            store@.wf(),
            store@ == seeded_up_to(hash, ids@, now, 5, 9, k as int, 0),
        decreases DEMO_NETWORK_PEERS - k,
    {
        let row = demo_network_peer_row(k, ids[16 + k], owner, now);
        proof {
            assert(store@.user_ids()[0] == owner);
            if store@.network_peer_ids().contains(row.id) {
                let at = choose|at: int|
                    0 <= at < store@.network_peer_ids().len() && store@.network_peer_ids()[at]
                        == row.id;
                assert(store@.network_peer_ids()[at] == ids@[16 + at]);
            }
            assert(all.network_peers.take(k as int).push(row@) =~= all.network_peers.take(k + 1));
        }
        store.insert_network_peer(row);
        k = k + 1;
    }
    let mut k: usize = 0;
    while k < DEMO_ALERTS
        invariant
            k <= DEMO_ALERTS,
            seeding_fits(ids@),
            owner == ids@[0],
            all == seeded(hash, ids@, now),
            store@.wf(),
            store@ == seeded_up_to(hash, ids@, now, 5, 9, 6, k as int),
        decreases DEMO_ALERTS - k,
    {
        let row = demo_alert_row(k, ids[22 + k], owner, now);
        proof {
            assert(store@.user_ids()[0] == owner);
            if store@.alert_ids().contains(row.id) {
                let at = choose|at: int|
                    0 <= at < store@.alert_ids().len() && store@.alert_ids()[at] == row.id;
                assert(store@.alert_ids()[at] == ids@[22 + at]);
            }
            assert(all.alerts.take(k as int).push(row@) =~= all.alerts.take(k + 1));
        }
        store.insert_alert(row);
        k = k + 1;
    }
    proof {
        assert(all.requests.take(5) =~= all.requests);
        assert(all.request_peers.take(9) =~= all.request_peers);
        assert(all.network_peers.take(6) =~= all.network_peers);
        assert(all.alerts.take(5) =~= all.alerts);
    }
    Ok(true)
}

/// Seeds a store that holds no user with the demonstration data, and says
/// whether it did: hashes the demonstration password and draws the
/// identifiers. What is stored is what [`seed_demo_data_with`] stores for
/// the values that were made.
pub fn seed_demo_data(store: &mut Store, now: i64) -> (answer: Result<bool, ApiError>)
    requires
        old(store)@.wf(),
    ensures
        final(store)@.wf(),
        sessions_persist(old(store)@, final(store)@),
        final(store)@.extends(old(store)@),
        answer == Ok::<bool, ApiError>(true) ==> final(store)@.trust_scores.len() == 1 && final(store)@.trust_scores[0].score == 320 && final(store)@.trust_scores[0].status == status_label(320),
        if old(store)@.users.len() > 0 {
            answer == Ok::<bool, ApiError>(false) && final(store)@ == old(store)@
        } else {
            match answer {
                Ok(done) => {
                    &&& done
                    &&& final(store)@.users.len() == 1
                    &&& password_matches(DEMO_PASSWORD@, final(store)@.users[0].password_hash)
                    &&& exists|ids: Seq<u128>|
                        seeding_fits(ids) && final(store)@ == #[trigger] seeded(
                            final(store)@.users[0].password_hash,
                            ids,
                            now,
                        )
                },
                Err(e) => (e == ApiError::HashFailed || e == ApiError::Storage) && final(store)@
                    == old(store)@,
            }
        },
{
    if store.users().len() > 0 {
        return Ok(false);
    }
    let password_hash = match hash_password(DEMO_PASSWORD) {
        Ok(hash) => hash,
        Err(e) => {
            return Err(e);
        },
    };
    let mut ids: Vec<u128> = Vec::new();
    while ids.len() < DEMO_IDS
        invariant
            ids.len() <= DEMO_IDS,
        decreases DEMO_IDS - ids.len(),
    {
        ids.push(new_id());
    }
    let ghost hash = password_hash@;
    let answer = seed_demo_data_with(store, password_hash, &ids, now);
    proof {
        if answer is Ok {
            assert(seeded(hash, ids@, now).users[0].password_hash == hash);
        }
    }
    answer
}

} // verus!
