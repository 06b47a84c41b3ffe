//! The store: the tables of the ledger and their integrity constraints.
//!
//! A store holds the rows of seven tables in the order in which they were
//! inserted. Its view is the seven sequences of row views. `StoreView::wf`
//! states the constraints of the schema: primary keys and unique columns hold
//! no value twice, every reference names a row that exists, session tokens
//! have the form of tokens, stored scores and interaction counts are within
//! their ranges, and the status of a stored score is the class of the score
//! (but for the row that a registration starts with). Nothing is ever
//! deleted.

use vstd::prelude::*;
use vstd::string::*;
use crate::auth::{is_session_token, is_token};
use crate::errors::ApiError;
use crate::lookup::{distinct_push, first_index, first_index_absent, first_index_found};
use crate::models::{
    Alert, AlertView, NetworkPeer, NetworkPeerView, Request, RequestPeer, RequestPeerView,
    RequestStatus, RequestView, Session, SessionView, TrustScore, TrustScoreView, User, UserView,
};
use crate::text::views;
use crate::trust::{classify, status_label};

pub use crate::demo::{seed_demo_data, seed_demo_data_with};

verus! {

/// The view of a [`Store`]: its tables as sequences of row views.
pub struct StoreView {
    pub users: Seq<UserView>,
    pub sessions: Seq<SessionView>,
    pub requests: Seq<RequestView>,
    pub request_peers: Seq<RequestPeerView>,
    pub trust_scores: Seq<TrustScoreView>,
    pub network_peers: Seq<NetworkPeerView>,
    pub alerts: Seq<AlertView>,
}

/// Every reference of `refs` is one of `ids`.
pub open spec fn all_within(refs: Seq<u128>, ids: Seq<u128>) -> bool {
    forall|i: int| 0 <= i < refs.len() ==> ids.contains(#[trigger] refs[i])
}

/// References stay valid when an identifier is added.
pub proof fn all_within_more_ids(refs: Seq<u128>, ids: Seq<u128>, added: u128)
    requires
        all_within(refs, ids),
    ensures
        all_within(refs, ids.push(added)),
{
    assert forall|i: int| 0 <= i < refs.len() implies ids.push(added).contains(#[trigger] refs[i]) by {
        let at = choose|at: int| 0 <= at < ids.len() && ids[at] == refs[i];
        assert(ids.push(added)[at] == refs[i]);
    }
}

/// References stay valid when a valid one is added.
pub proof fn all_within_more_refs(refs: Seq<u128>, ids: Seq<u128>, added: u128)
    requires
        all_within(refs, ids),
        ids.contains(added),
    ensures
        all_within(refs.push(added), ids),
{
    assert forall|i: int| 0 <= i < refs.len() + 1 implies ids.contains(
        #[trigger] refs.push(added)[i],
    ) by {
        if i < refs.len() {
            assert(refs.push(added)[i] == refs[i]);
        }
    }
}

/// No reference names anything where there is nothing to name.
pub proof fn all_within_nothing(refs: Seq<u128>, ids: Seq<u128>)
    requires
        all_within(refs, ids),
        ids.len() == 0,
    ensures
        refs.len() == 0,
{
    if refs.len() > 0 {
        assert(ids.contains(refs[0]));
    }
}

/// The views of rows with one more row.
pub proof fn views_push<T: View>(rows: Seq<T>, row: T)
    ensures
        views(rows.push(row)) == views(rows).push(row@),
{
    assert(views(rows.push(row)) =~= views(rows).push(row@));
}

/// The views of rows with one row replaced.
pub proof fn views_update<T: View>(rows: Seq<T>, at: int, row: T)
    requires
        0 <= at < rows.len(),
    ensures
        views(rows.update(at, row)) == views(rows).update(at, row@),
{
    assert(views(rows.update(at, row)) =~= views(rows).update(at, row@));
}

/// The column `id` of rows of `users`.
pub open spec fn column_user_ids(rows: Seq<UserView>) -> Seq<u128> {
    Seq::new(rows.len(), |i: int| rows[i].id)
}

/// The column `email` of rows of `users`.
pub open spec fn column_emails(rows: Seq<UserView>) -> Seq<Seq<char>> {
    Seq::new(rows.len(), |i: int| rows[i].email)
}

/// The column `username` of rows of `users`.
pub open spec fn column_usernames(rows: Seq<UserView>) -> Seq<Seq<char>> {
    Seq::new(rows.len(), |i: int| rows[i].username)
}

/// The column `token` of rows of `sessions`.
pub open spec fn column_tokens(rows: Seq<SessionView>) -> Seq<Seq<char>> {
    Seq::new(rows.len(), |i: int| rows[i].token)
}

/// The column `user_id` of rows of `sessions`.
pub open spec fn column_session_owners(rows: Seq<SessionView>) -> Seq<u128> {
    Seq::new(rows.len(), |i: int| rows[i].user_id)
}

/// The column `id` of rows of `requests`.
pub open spec fn column_request_ids(rows: Seq<RequestView>) -> Seq<u128> {
    Seq::new(rows.len(), |i: int| rows[i].id)
}

/// The column `user_id` of rows of `requests`.
pub open spec fn column_request_owners(rows: Seq<RequestView>) -> Seq<u128> {
    Seq::new(rows.len(), |i: int| rows[i].user_id)
}

/// The column `id` of rows of `request_peers`.
pub open spec fn column_request_peer_ids(rows: Seq<RequestPeerView>) -> Seq<u128> {
    Seq::new(rows.len(), |i: int| rows[i].id)
}

/// The column `request_id` of rows of `request_peers`.
pub open spec fn column_attributed_requests(rows: Seq<RequestPeerView>) -> Seq<u128> {
    Seq::new(rows.len(), |i: int| rows[i].request_id)
}

/// The column `id` of rows of `trust_scores`.
pub open spec fn column_score_ids(rows: Seq<TrustScoreView>) -> Seq<u128> {
    Seq::new(rows.len(), |i: int| rows[i].id)
}

/// The column `user_id` of rows of `trust_scores`.
pub open spec fn column_score_owners(rows: Seq<TrustScoreView>) -> Seq<u128> {
    Seq::new(rows.len(), |i: int| rows[i].user_id)
}

/// The column `id` of rows of `network_peers`.
pub open spec fn column_network_peer_ids(rows: Seq<NetworkPeerView>) -> Seq<u128> {
    Seq::new(rows.len(), |i: int| rows[i].id)
}

/// The column `user_id` of rows of `network_peers`.
pub open spec fn column_network_owners(rows: Seq<NetworkPeerView>) -> Seq<u128> {
    Seq::new(rows.len(), |i: int| rows[i].user_id)
}

/// The column `id` of rows of `alerts`.
pub open spec fn column_alert_ids(rows: Seq<AlertView>) -> Seq<u128> {
    Seq::new(rows.len(), |i: int| rows[i].id)
}

/// The column `user_id` of rows of `alerts`.
pub open spec fn column_alert_owners(rows: Seq<AlertView>) -> Seq<u128> {
    Seq::new(rows.len(), |i: int| rows[i].user_id)
}

/// A stored status fits its score: it is the class of the score, or the
/// row is the one that a registration starts with, 300 and healthy.
pub open spec fn status_fits(score: i32, status: Seq<char>) -> bool {
    status == status_label(score as int) || (score == 300 && status == "Healthy"@)
}

/// Whether a status fits a score.
pub fn status_fits_score(score: i32, status: &str) -> (fits: bool)
    ensures
        fits == status_fits(score, status@),
{
    let label = classify(score);
    *status == *label.as_str() || (score == 300 && *status == *"Healthy")
}

/// `longer` begins with the rows of `shorter`, unchanged.
pub open spec fn begins_with<T>(longer: Seq<T>, shorter: Seq<T>) -> bool {
    &&& shorter.len() <= longer.len()
    &&& forall|i: int|
        #![trigger longer[i]]
        #![trigger shorter[i]]
        0 <= i < shorter.len() ==> longer[i] == shorter[i]
}

impl StoreView {
    /// The store without a row.
    pub open spec fn empty() -> StoreView {
        StoreView {
            users: Seq::empty(),
            sessions: Seq::empty(),
            requests: Seq::empty(),
            request_peers: Seq::empty(),
            trust_scores: Seq::empty(),
            network_peers: Seq::empty(),
            alerts: Seq::empty(),
        }
    }

    /// The identifiers of the users.
    pub open spec fn user_ids(self) -> Seq<u128> {
        column_user_ids(self.users)
    }

    /// The e-mail addresses of the users.
    pub open spec fn emails(self) -> Seq<Seq<char>> {
        column_emails(self.users)
    }

    /// The names of the users.
    pub open spec fn usernames(self) -> Seq<Seq<char>> {
        column_usernames(self.users)
    }

    /// The tokens of the sessions.
    pub open spec fn tokens(self) -> Seq<Seq<char>> {
        column_tokens(self.sessions)
    }

    /// The users that the sessions stand for.
    pub open spec fn session_owners(self) -> Seq<u128> {
        column_session_owners(self.sessions)
    }

    /// The identifiers of the requests.
    pub open spec fn request_ids(self) -> Seq<u128> {
        column_request_ids(self.requests)
    }

    /// The owners of the requests.
    pub open spec fn request_owners(self) -> Seq<u128> {
        column_request_owners(self.requests)
    }

    /// The identifiers of the attributions.
    pub open spec fn request_peer_ids(self) -> Seq<u128> {
        column_request_peer_ids(self.request_peers)
    }

    /// The requests that the attributions belong to.
    pub open spec fn attributed_requests(self) -> Seq<u128> {
        column_attributed_requests(self.request_peers)
    }

    /// The identifiers of the trust scores.
    pub open spec fn score_ids(self) -> Seq<u128> {
        column_score_ids(self.trust_scores)
    }

    /// The users that the trust scores belong to.
    pub open spec fn score_owners(self) -> Seq<u128> {
        column_score_owners(self.trust_scores)
    }

    /// The identifiers of the network peers.
    pub open spec fn network_peer_ids(self) -> Seq<u128> {
        column_network_peer_ids(self.network_peers)
    }

    /// The owners of the network peers.
    pub open spec fn network_owners(self) -> Seq<u128> {
        column_network_owners(self.network_peers)
    }

    /// The identifiers of the alerts.
    pub open spec fn alert_ids(self) -> Seq<u128> {
        column_alert_ids(self.alerts)
    }

    /// The owners of the alerts.
    pub open spec fn alert_owners(self) -> Seq<u128> {
        column_alert_owners(self.alerts)
    }

    /// The constraints of the schema.
    pub open spec fn wf(self) -> bool {
        &&& self.user_ids().no_duplicates()
        &&& self.emails().no_duplicates()
        &&& self.usernames().no_duplicates()
        &&& self.tokens().no_duplicates()
        &&& self.request_ids().no_duplicates()
        &&& self.request_peer_ids().no_duplicates()
        &&& self.score_ids().no_duplicates()
        &&& self.score_owners().no_duplicates()
        &&& self.network_peer_ids().no_duplicates()
        &&& self.alert_ids().no_duplicates()
        &&& all_within(self.session_owners(), self.user_ids())
        &&& all_within(self.request_owners(), self.user_ids())
        &&& all_within(self.attributed_requests(), self.request_ids())
        &&& all_within(self.score_owners(), self.user_ids())
        &&& all_within(self.network_owners(), self.user_ids())
        &&& all_within(self.alert_owners(), self.user_ids())
        &&& forall|i: int|
            0 <= i < self.sessions.len() ==> is_token((#[trigger] self.sessions[i]).token)
        &&& forall|i: int|
            0 <= i < self.trust_scores.len() ==> 0 <= (#[trigger] self.trust_scores[i]).score
                <= 1000 && status_fits(self.trust_scores[i].score, self.trust_scores[i].status)
        &&& forall|i: int|
            0 <= i < self.network_peers.len() ==> (#[trigger] self.network_peers[i]).interactions
                >= 0
    }

    /// This store is a later state of `before`: no row was deleted, and the
    /// rows that were there changed only where a row can change. A request
    /// keeps all but its status and the time of its update, a trust score its
    /// identifier and its owner, an alert all but its read flag, and an alert
    /// that was read is read.
    pub open spec fn extends(self, before: StoreView) -> bool {
        &&& begins_with(self.users, before.users)
        &&& begins_with(self.sessions, before.sessions)
        &&& before.requests.len() <= self.requests.len()
        &&& forall|i: int|
            #![trigger self.requests[i]]
            #![trigger before.requests[i]]
            0 <= i < before.requests.len() ==> self.requests[i] == (RequestView {
                status: self.requests[i].status,
                updated_at: self.requests[i].updated_at,
                ..before.requests[i]
            })
        &&& begins_with(self.request_peers, before.request_peers)
        &&& before.trust_scores.len() <= self.trust_scores.len()
        &&& forall|i: int|
            #![trigger self.trust_scores[i]]
            #![trigger before.trust_scores[i]]
            0 <= i < before.trust_scores.len() ==> self.trust_scores[i].id
                == before.trust_scores[i].id && self.trust_scores[i].user_id
                == before.trust_scores[i].user_id
        &&& begins_with(self.network_peers, before.network_peers)
        &&& before.alerts.len() <= self.alerts.len()
        &&& forall|i: int|
            #![trigger self.alerts[i]]
            #![trigger before.alerts[i]]
            0 <= i < before.alerts.len() ==> self.alerts[i] == (AlertView {
                is_read: self.alerts[i].is_read,
                ..before.alerts[i]
            }) && (before.alerts[i].is_read ==> self.alerts[i].is_read)
    }

    /// The user with this e-mail address.
    pub open spec fn user_by_email(self, email: Seq<char>) -> Option<UserView> {
        match first_index(self.emails(), email) {
            Some(at) => Some(self.users[at]),
            None => None,
        }
    }

    /// The user with this identifier.
    pub open spec fn user_by_id(self, id: u128) -> Option<UserView> {
        match first_index(self.user_ids(), id) {
            Some(at) => Some(self.users[at]),
            None => None,
        }
    }

    /// The user that the session with this token stands for.
    pub open spec fn session_user(self, token: Seq<char>) -> Option<u128> {
        match first_index(self.tokens(), token) {
            Some(at) => Some(self.sessions[at].user_id),
            None => None,
        }
    }

    /// The request with this identifier.
    pub open spec fn request_by_id(self, id: u128) -> Option<RequestView> {
        match first_index(self.request_ids(), id) {
            Some(at) => Some(self.requests[at]),
            None => None,
        }
    }

    /// The trust score of this user.
    pub open spec fn score_of(self, owner: u128) -> Option<TrustScoreView> {
        match first_index(self.score_owners(), owner) {
            Some(at) => Some(self.trust_scores[at]),
            None => None,
        }
    }

    /// This store with one more row in `users`.
    pub open spec fn with_user(self, row: UserView) -> StoreView {
        StoreView { users: self.users.push(row), ..self }
    }

    /// This store with one more row in `sessions`.
    pub open spec fn with_session(self, row: SessionView) -> StoreView {
        StoreView { sessions: self.sessions.push(row), ..self }
    }

    /// This store with one more row in `requests`.
    pub open spec fn with_request(self, row: RequestView) -> StoreView {
        StoreView { requests: self.requests.push(row), ..self }
    }

    /// This store with one more row in `request_peers`.
    pub open spec fn with_request_peer(self, row: RequestPeerView) -> StoreView {
        StoreView { request_peers: self.request_peers.push(row), ..self }
    }

    /// This store with one more row in `trust_scores`.
    pub open spec fn with_trust_score(self, row: TrustScoreView) -> StoreView {
        StoreView { trust_scores: self.trust_scores.push(row), ..self }
    }

    /// This store with one more row in `network_peers`.
    pub open spec fn with_network_peer(self, row: NetworkPeerView) -> StoreView {
        StoreView { network_peers: self.network_peers.push(row), ..self }
    }

    /// This store with one more row in `alerts`.
    pub open spec fn with_alert(self, row: AlertView) -> StoreView {
        StoreView { alerts: self.alerts.push(row), ..self }
    }

    /// This store with the request at `at` moved to `status` at the time `now`.
    pub open spec fn with_request_status(self, at: int, status: RequestStatus, now: i64) -> StoreView {
        StoreView {
            requests: self.requests.update(
                at,
                RequestView { status, updated_at: now, ..self.requests[at] },
            ),
            ..self
        }
    }

    /// This store with the trust score at `at` overwritten at the time `now`.
    pub open spec fn with_score(self, at: int, score: i32, status: Seq<char>, now: i64) -> StoreView {
        StoreView {
            trust_scores: self.trust_scores.update(
                at,
                TrustScoreView { score, status, updated_at: now, ..self.trust_scores[at] },
            ),
            ..self
        }
    }

    /// This store with the alert at `at` marked as read.
    pub open spec fn with_alert_read(self, at: int) -> StoreView {
        StoreView {
            alerts: self.alerts.update(at, AlertView { is_read: true, ..self.alerts[at] }),
            ..self
        }
    }
}

/// The bits of an identifier that say how it was made.
pub const ID_FORMAT_MASK: u128 = 0x0000_0000_0000_f000_c000_0000_0000_0000;

/// What the format bits of a random identifier hold: version 4, and the
/// variant of RFC 9562.
pub const ID_RANDOM_FORMAT: u128 = 0x0000_0000_0000_4000_8000_0000_0000_0000;

/// `uuid::Uuid::new_v4`, as the 128-bit number `Uuid::as_u128`: a random
/// identifier. All of it is drawn at random but the bits that mark it as a
/// random identifier. Nothing says that it is new: whoever inserts it checks.
#[verifier::external_body]
pub(crate) fn new_id() -> (id: u128)
    ensures
        id & ID_FORMAT_MASK == ID_RANDOM_FORMAT,
{
    uuid::Uuid::new_v4().as_u128()
}

/// The tables of the ledger. A store is made empty by [`create_tables`] and
/// changed only by operations that keep the schema, so every store that a
/// caller holds satisfies `StoreView::wf`.
pub struct Store {
    users: Vec<User>,
    sessions: Vec<Session>,
    requests: Vec<Request>,
    request_peers: Vec<RequestPeer>,
    trust_scores: Vec<TrustScore>,
    network_peers: Vec<NetworkPeer>,
    alerts: Vec<Alert>,
}

impl View for Store {
    type V = StoreView;

    closed spec fn view(&self) -> StoreView {
        StoreView {
            users: views(self.users@),
            sessions: views(self.sessions@),
            requests: views(self.requests@),
            request_peers: views(self.request_peers@),
            trust_scores: views(self.trust_scores@),
            network_peers: views(self.network_peers@),
            alerts: views(self.alerts@),
        }
    }
}

/// An empty store: every table is there and holds no row.
pub fn create_tables() -> (store: Store)
    ensures
        store@ == StoreView::empty(),
        store@.wf(),
{
    let store = Store {
        users: Vec::new(),
        sessions: Vec::new(),
        requests: Vec::new(),
        request_peers: Vec::new(),
        trust_scores: Vec::new(),
        network_peers: Vec::new(),
        alerts: Vec::new(),
    };
    assert(store@.users =~= Seq::empty());
    assert(store@.sessions =~= Seq::empty());
    assert(store@.requests =~= Seq::empty());
    assert(store@.request_peers =~= Seq::empty());
    assert(store@.trust_scores =~= Seq::empty());
    assert(store@.network_peers =~= Seq::empty());
    assert(store@.alerts =~= Seq::empty());
    store
}

impl Store {
    /// The rows of `users`, in the order of their insertion.
    pub fn users(&self) -> (rows: &Vec<User>)
        ensures
            views(rows@) == self@.users,
    {
        &self.users
    }
    /// The rows of `sessions`, in the order of their insertion.
    pub fn sessions(&self) -> (rows: &Vec<Session>)
        ensures
            views(rows@) == self@.sessions,
    {
        &self.sessions
    }
    /// The rows of `requests`, in the order of their insertion.
    pub fn requests(&self) -> (rows: &Vec<Request>)
        ensures
            views(rows@) == self@.requests,
    {
        &self.requests
    }
    /// The rows of `request_peers`, in the order of their insertion.
    pub fn request_peers(&self) -> (rows: &Vec<RequestPeer>)
        ensures
            views(rows@) == self@.request_peers,
    {
        &self.request_peers
    }
    /// The rows of `trust_scores`, in the order of their insertion.
    pub fn trust_scores(&self) -> (rows: &Vec<TrustScore>)
        ensures
            views(rows@) == self@.trust_scores,
    {
        &self.trust_scores
    }
    /// The rows of `network_peers`, in the order of their insertion.
    pub fn network_peers(&self) -> (rows: &Vec<NetworkPeer>)
        ensures
            views(rows@) == self@.network_peers,
    {
        &self.network_peers
    }
    /// The rows of `alerts`, in the order of their insertion.
    pub fn alerts(&self) -> (rows: &Vec<Alert>)
        ensures
            views(rows@) == self@.alerts,
    {
        &self.alerts
    }
    /// Inserts a user whose identifier, e-mail address and name are new.
    pub(crate) fn insert_user(&mut self, user: User)
        requires
            old(self)@.wf(),
            !old(self)@.user_ids().contains(user.id),
            !old(self)@.emails().contains(user.email@),
            !old(self)@.usernames().contains(user.username@),
        ensures
            final(self)@ == old(self)@.with_user(user@),
            final(self)@.wf(),
            final(self)@.extends(old(self)@),
    {
        proof {
            views_push(self.users@, user);
            with_user_keeps_wf(self@, user@);
        }
        self.users.push(user);
    }

    /// Inserts a session with a new, well-formed token for a user that exists.
    pub(crate) fn insert_session(&mut self, session: Session)
        requires
            old(self)@.wf(),
            is_token(session.token@),
            !old(self)@.tokens().contains(session.token@),
            old(self)@.user_ids().contains(session.user_id),
        ensures
            final(self)@ == old(self)@.with_session(session@),
            final(self)@.wf(),
            final(self)@.extends(old(self)@),
    {
        proof {
            views_push(self.sessions@, session);
            with_session_keeps_wf(self@, session@);
        }
        self.sessions.push(session);
    }

    /// Inserts a request with a new identifier for a user that exists.
    pub(crate) fn insert_request(&mut self, request: Request)
        requires
            old(self)@.wf(),
            !old(self)@.request_ids().contains(request.id),
            old(self)@.user_ids().contains(request.user_id),
        ensures
            final(self)@ == old(self)@.with_request(request@),
            final(self)@.wf(),
            final(self)@.extends(old(self)@),
    {
        proof {
            views_push(self.requests@, request);
            with_request_keeps_wf(self@, request@);
        }
        self.requests.push(request);
    }

    /// Inserts an attribution with a new identifier for a request that exists.
    pub(crate) fn insert_request_peer(&mut self, peer: RequestPeer)
        requires
            old(self)@.wf(),
            !old(self)@.request_peer_ids().contains(peer.id),
            old(self)@.request_ids().contains(peer.request_id),
        ensures
            final(self)@ == old(self)@.with_request_peer(peer@),
            final(self)@.wf(),
            final(self)@.extends(old(self)@),
    {
        proof {
            views_push(self.request_peers@, peer);
            with_request_peer_keeps_wf(self@, peer@);
        }
        self.request_peers.push(peer);
    }

    /// Inserts the trust score of a user that exists and has none yet.
    pub(crate) fn insert_trust_score(&mut self, score: TrustScore)
        requires
            old(self)@.wf(),
            !old(self)@.score_ids().contains(score.id),
            !old(self)@.score_owners().contains(score.user_id),
            old(self)@.user_ids().contains(score.user_id),
            0 <= score.score <= 1000,
            status_fits(score.score, score.status@),
        ensures
            final(self)@ == old(self)@.with_trust_score(score@),
            final(self)@.wf(),
            final(self)@.extends(old(self)@),
    {
        proof {
            views_push(self.trust_scores@, score);
            with_trust_score_keeps_wf(self@, score@);
        }
        self.trust_scores.push(score);
    }

    /// Inserts a network peer with a new identifier for a user that exists.
    pub(crate) fn insert_network_peer(&mut self, peer: NetworkPeer)
        requires
            old(self)@.wf(),
            !old(self)@.network_peer_ids().contains(peer.id),
            old(self)@.user_ids().contains(peer.user_id),
            peer.interactions >= 0,
        ensures
            final(self)@ == old(self)@.with_network_peer(peer@),
            final(self)@.wf(),
            final(self)@.extends(old(self)@),
    {
        proof {
            views_push(self.network_peers@, peer);
            with_network_peer_keeps_wf(self@, peer@);
        }
        self.network_peers.push(peer);
    }

    /// Inserts an alert with a new identifier for a user that exists.
    pub(crate) fn insert_alert(&mut self, alert: Alert)
        requires
            old(self)@.wf(),
            !old(self)@.alert_ids().contains(alert.id),
            old(self)@.user_ids().contains(alert.user_id),
        ensures
            final(self)@ == old(self)@.with_alert(alert@),
            final(self)@.wf(),
            final(self)@.extends(old(self)@),
    {
        proof {
            views_push(self.alerts@, alert);
            with_alert_keeps_wf(self@, alert@);
        }
        self.alerts.push(alert);
    }

    /// Moves the request at `at` to `status` and stamps it with `now`.
    pub(crate) fn set_request_status(&mut self, at: usize, status: RequestStatus, now: i64)
        requires
            old(self)@.wf(),
            at < old(self)@.requests.len(),
        ensures
            final(self)@ == old(self)@.with_request_status(at as int, status, now),
            final(self)@.wf(),
            final(self)@.extends(old(self)@),
    {
        let current = self.requests[at].clone();
        let moved = Request { status, updated_at: now, ..current };
        proof {
            views_update(self.requests@, at as int, moved);
            with_request_status_keeps_wf(self@, at as int, status, now);
        }
        self.requests.set(at, moved);
    }

    /// Overwrites the trust score at `at` and stamps it with `now`.
    pub(crate) fn overwrite_score(&mut self, at: usize, score: i32, status: String, now: i64)
        requires
            old(self)@.wf(),
            at < old(self)@.trust_scores.len(),
            0 <= score <= 1000,
            status_fits(score, status@),
        ensures
            final(self)@ == old(self)@.with_score(at as int, score, status@, now),
            final(self)@.wf(),
            final(self)@.extends(old(self)@),
    {
        let current = self.trust_scores[at].clone();
        let fresh = TrustScore { score, status, updated_at: now, ..current };
        proof {
            views_update(self.trust_scores@, at as int, fresh);
            with_score_keeps_wf(self@, at as int, score, status@, now);
        }
        self.trust_scores.set(at, fresh);
    }

    /// Marks the alert at `at` as read.
    pub(crate) fn set_alert_read(&mut self, at: usize)
        requires
            old(self)@.wf(),
            at < old(self)@.alerts.len(),
        ensures
            final(self)@ == old(self)@.with_alert_read(at as int),
            final(self)@.wf(),
            final(self)@.extends(old(self)@),
    {
        let current = self.alerts[at].clone();
        let read = Alert { is_read: true, ..current };
        proof {
            views_update(self.alerts@, at as int, read);
            with_alert_read_keeps_wf(self@, at as int);
        }
        self.alerts.set(at, read);
    }
}

/// A user that the store does not hold has no trust score in it: every
/// score belongs to a user that exists.
pub proof fn unknown_user_has_no_score(s: StoreView, user_id: u128)
    requires
        s.wf(),
        !s.user_ids().contains(user_id),
    ensures
        !s.score_owners().contains(user_id),
{
    if s.score_owners().contains(user_id) {
        let at = choose|at: int| 0 <= at < s.score_owners().len() && s.score_owners()[at] == user_id;
        assert(s.user_ids().contains(s.score_owners()[at]));
    }
}

/// A user with a new identifier, e-mail address and name keeps the schema.
pub proof fn with_user_keeps_wf(s: StoreView, user: UserView)
    requires
        s.wf(),
        !s.user_ids().contains(user.id),
        !s.emails().contains(user.email),
        !s.usernames().contains(user.username),
    ensures
        s.with_user(user).wf(),
        s.with_user(user).user_ids() == s.user_ids().push(user.id),
        s.with_user(user).emails() == s.emails().push(user.email),
        s.with_user(user).usernames() == s.usernames().push(user.username),
{
    let t = s.with_user(user);
    assert(t.user_ids() =~= s.user_ids().push(user.id));
    assert(t.emails() =~= s.emails().push(user.email));
    assert(t.usernames() =~= s.usernames().push(user.username));
    distinct_push(s.user_ids(), user.id);
    distinct_push(s.emails(), user.email);
    distinct_push(s.usernames(), user.username);
    all_within_more_ids(s.session_owners(), s.user_ids(), user.id);
    all_within_more_ids(s.request_owners(), s.user_ids(), user.id);
    all_within_more_ids(s.score_owners(), s.user_ids(), user.id);
    all_within_more_ids(s.network_owners(), s.user_ids(), user.id);
    all_within_more_ids(s.alert_owners(), s.user_ids(), user.id);
}

/// A session with a new, well-formed token for a user that exists keeps the
/// schema.
pub proof fn with_session_keeps_wf(s: StoreView, session: SessionView)
    requires
        s.wf(),
        is_token(session.token),
        !s.tokens().contains(session.token),
        s.user_ids().contains(session.user_id),
    ensures
        s.with_session(session).wf(),
        s.with_session(session).tokens() == s.tokens().push(session.token),
{
    let t = s.with_session(session);
    assert(t.tokens() =~= s.tokens().push(session.token));
    assert(t.session_owners() =~= s.session_owners().push(session.user_id));
    distinct_push(s.tokens(), session.token);
    all_within_more_refs(s.session_owners(), s.user_ids(), session.user_id);
}

/// A request with a new identifier for a user that exists keeps the schema.
pub proof fn with_request_keeps_wf(s: StoreView, request: RequestView)
    requires
        s.wf(),
        !s.request_ids().contains(request.id),
        s.user_ids().contains(request.user_id),
    ensures
        s.with_request(request).wf(),
        s.with_request(request).request_ids() == s.request_ids().push(request.id),
{
    let t = s.with_request(request);
    assert(t.request_ids() =~= s.request_ids().push(request.id));
    assert(t.request_owners() =~= s.request_owners().push(request.user_id));
    distinct_push(s.request_ids(), request.id);
    all_within_more_refs(s.request_owners(), s.user_ids(), request.user_id);
    all_within_more_ids(s.attributed_requests(), s.request_ids(), request.id);
}

/// An attribution with a new identifier for a request that exists keeps the
/// schema.
pub proof fn with_request_peer_keeps_wf(s: StoreView, peer: RequestPeerView)
    requires
        s.wf(),
        !s.request_peer_ids().contains(peer.id),
        s.request_ids().contains(peer.request_id),
    ensures
        s.with_request_peer(peer).wf(),
        s.with_request_peer(peer).request_peer_ids() == s.request_peer_ids().push(peer.id),
{
    let t = s.with_request_peer(peer);
    assert(t.request_peer_ids() =~= s.request_peer_ids().push(peer.id));
    assert(t.attributed_requests() =~= s.attributed_requests().push(peer.request_id));
    distinct_push(s.request_peer_ids(), peer.id);
    all_within_more_refs(s.attributed_requests(), s.request_ids(), peer.request_id);
}

/// The first trust score of a user that exists, with a status that fits the
/// score, keeps the schema.
pub proof fn with_trust_score_keeps_wf(s: StoreView, score: TrustScoreView)
    requires
        s.wf(),
        !s.score_ids().contains(score.id),
        !s.score_owners().contains(score.user_id),
        s.user_ids().contains(score.user_id),
        0 <= score.score <= 1000,
        status_fits(score.score, score.status),
    ensures
        s.with_trust_score(score).wf(),
        s.with_trust_score(score).score_owners() == s.score_owners().push(score.user_id),
{
    let t = s.with_trust_score(score);
    assert(t.score_ids() =~= s.score_ids().push(score.id));
    assert(t.score_owners() =~= s.score_owners().push(score.user_id));
    distinct_push(s.score_ids(), score.id);
    distinct_push(s.score_owners(), score.user_id);
    all_within_more_refs(s.score_owners(), s.user_ids(), score.user_id);
}

/// A network peer with a new identifier for a user that exists keeps the
/// schema.
pub proof fn with_network_peer_keeps_wf(s: StoreView, peer: NetworkPeerView)
    requires
        s.wf(),
        !s.network_peer_ids().contains(peer.id),
        s.user_ids().contains(peer.user_id),
        peer.interactions >= 0,
    ensures
        s.with_network_peer(peer).wf(),
        s.with_network_peer(peer).network_peer_ids() == s.network_peer_ids().push(peer.id),
{
    let t = s.with_network_peer(peer);
    assert(t.network_peer_ids() =~= s.network_peer_ids().push(peer.id));
    assert(t.network_owners() =~= s.network_owners().push(peer.user_id));
    distinct_push(s.network_peer_ids(), peer.id);
    all_within_more_refs(s.network_owners(), s.user_ids(), peer.user_id);
}

/// An alert with a new identifier for a user that exists keeps the schema.
pub proof fn with_alert_keeps_wf(s: StoreView, alert: AlertView)
    requires
        s.wf(),
        !s.alert_ids().contains(alert.id),
        s.user_ids().contains(alert.user_id),
    ensures
        s.with_alert(alert).wf(),
        s.with_alert(alert).alert_ids() == s.alert_ids().push(alert.id),
{
    let t = s.with_alert(alert);
    assert(t.alert_ids() =~= s.alert_ids().push(alert.id));
    assert(t.alert_owners() =~= s.alert_owners().push(alert.user_id));
    distinct_push(s.alert_ids(), alert.id);
    all_within_more_refs(s.alert_owners(), s.user_ids(), alert.user_id);
}

/// Moving a request to another status keeps the schema and every key.
pub proof fn with_request_status_keeps_wf(s: StoreView, at: int, status: RequestStatus, now: i64)
    requires
        s.wf(),
        0 <= at < s.requests.len(),
    ensures
        s.with_request_status(at, status, now).wf(),
        s.with_request_status(at, status, now).request_ids() == s.request_ids(),
        s.with_request_status(at, status, now).request_owners() == s.request_owners(),
{
    let t = s.with_request_status(at, status, now);
    assert(t.request_ids() =~= s.request_ids());
    assert(t.request_owners() =~= s.request_owners());
}

/// Overwriting a trust score with a score in range and a status that fits
/// it keeps the schema and every key.
pub proof fn with_score_keeps_wf(s: StoreView, at: int, score: i32, status: Seq<char>, now: i64)
    requires
        s.wf(),
        0 <= at < s.trust_scores.len(),
        0 <= score <= 1000,
        status_fits(score, status),
    ensures
        s.with_score(at, score, status, now).wf(),
        s.with_score(at, score, status, now).score_owners() == s.score_owners(),
{
    let t = s.with_score(at, score, status, now);
    assert(t.score_ids() =~= s.score_ids());
    assert(t.score_owners() =~= s.score_owners());
}

/// Marking an alert as read keeps the schema and every key.
pub proof fn with_alert_read_keeps_wf(s: StoreView, at: int)
    requires
        s.wf(),
        0 <= at < s.alerts.len(),
    ensures
        s.with_alert_read(at).wf(),
        s.with_alert_read(at).alert_ids() == s.alert_ids(),
        s.with_alert_read(at).alert_owners() == s.alert_owners(),
{
    let t = s.with_alert_read(at);
    assert(t.alert_ids() =~= s.alert_ids());
    assert(t.alert_owners() =~= s.alert_owners());
}

/// `found` is the first position of `key` in `keys`, or nothing where `key`
/// does not occur.
pub open spec fn is_position<K>(found: Option<usize>, keys: Seq<K>, key: K) -> bool {
    match found {
        Some(at) => first_index(keys, key) == Some(at as int) && at < keys.len() && keys[at as int]
            == key && keys.contains(key),
        None => first_index(keys, key) is None && !keys.contains(key),
    }
}

impl Store {
    /// The position of the user with this identifier.
    pub fn position_of_user(&self, key: u128) -> (found: Option<usize>)
        ensures
            is_position(found, self@.user_ids(), key),
    {
        let mut at: usize = 0;
        while at < self.users.len()
            invariant
                at <= self.users.len(),
                forall|j: int| 0 <= j < at ==> self@.user_ids()[j] != key,
            decreases self.users.len() - at,
        {
            if self.users[at].id == key {
                proof {
                    first_index_found(self@.user_ids(), key, at as int);
                }
                return Some(at);
            }
            at = at + 1;
        }
        proof {
            first_index_absent(self@.user_ids(), key);
        }
        None
    }

    /// The position of the user with this e-mail address.
    pub fn position_of_email(&self, key: &str) -> (found: Option<usize>)
        ensures
            is_position(found, self@.emails(), key@),
    {
        let mut at: usize = 0;
        while at < self.users.len()
            invariant
                at <= self.users.len(),
                forall|j: int| 0 <= j < at ==> self@.emails()[j] != key@,
            decreases self.users.len() - at,
        {
            if *self.users[at].email.as_str() == *key {
                proof {
                    first_index_found(self@.emails(), key@, at as int);
                }
                return Some(at);
            }
            at = at + 1;
        }
        proof {
            first_index_absent(self@.emails(), key@);
        }
        None
    }

    /// The position of the user with this name.
    pub fn position_of_username(&self, key: &str) -> (found: Option<usize>)
        ensures
            is_position(found, self@.usernames(), key@),
    {
        let mut at: usize = 0;
        while at < self.users.len()
            invariant
                at <= self.users.len(),
                forall|j: int| 0 <= j < at ==> self@.usernames()[j] != key@,
            decreases self.users.len() - at,
        {
            if *self.users[at].username.as_str() == *key {
                proof {
                    first_index_found(self@.usernames(), key@, at as int);
                }
                return Some(at);
            }
            at = at + 1;
        }
        proof {
            first_index_absent(self@.usernames(), key@);
        }
        None
    }

    /// The position of the session with this token.
    pub fn position_of_token(&self, key: &str) -> (found: Option<usize>)
        ensures
            is_position(found, self@.tokens(), key@),
    {
        let mut at: usize = 0;
        while at < self.sessions.len()
            invariant
                at <= self.sessions.len(),
                forall|j: int| 0 <= j < at ==> self@.tokens()[j] != key@,
            decreases self.sessions.len() - at,
        {
            if *self.sessions[at].token.as_str() == *key {
                proof {
                    first_index_found(self@.tokens(), key@, at as int);
                }
                return Some(at);
            }
            at = at + 1;
        }
        proof {
            first_index_absent(self@.tokens(), key@);
        }
        None
    }

    /// The position of the request with this identifier.
    pub fn position_of_request(&self, key: u128) -> (found: Option<usize>)
        ensures
            is_position(found, self@.request_ids(), key),
    {
        let mut at: usize = 0;
        while at < self.requests.len()
            invariant
                at <= self.requests.len(),
                forall|j: int| 0 <= j < at ==> self@.request_ids()[j] != key,
            decreases self.requests.len() - at,
        {
            if self.requests[at].id == key {
                proof {
                    first_index_found(self@.request_ids(), key, at as int);
                }
                return Some(at);
            }
            at = at + 1;
        }
        proof {
            first_index_absent(self@.request_ids(), key);
        }
        None
    }

    /// The position of the attribution with this identifier.
    pub fn position_of_request_peer(&self, key: u128) -> (found: Option<usize>)
        ensures
            is_position(found, self@.request_peer_ids(), key),
    {
        let mut at: usize = 0;
        while at < self.request_peers.len()
            invariant
                at <= self.request_peers.len(),
                forall|j: int| 0 <= j < at ==> self@.request_peer_ids()[j] != key,
            decreases self.request_peers.len() - at,
        {
            if self.request_peers[at].id == key {
                proof {
                    first_index_found(self@.request_peer_ids(), key, at as int);
                }
                return Some(at);
            }
            at = at + 1;
        }
        proof {
            first_index_absent(self@.request_peer_ids(), key);
        }
        None
    }

    /// The position of the trust score with this identifier.
    pub fn position_of_score(&self, key: u128) -> (found: Option<usize>)
        ensures
            is_position(found, self@.score_ids(), key),
    {
        let mut at: usize = 0;
        while at < self.trust_scores.len()
            invariant
                at <= self.trust_scores.len(),
                forall|j: int| 0 <= j < at ==> self@.score_ids()[j] != key,
            decreases self.trust_scores.len() - at,
        {
            if self.trust_scores[at].id == key {
                proof {
                    first_index_found(self@.score_ids(), key, at as int);
                }
                return Some(at);
            }
            at = at + 1;
        }
        proof {
            first_index_absent(self@.score_ids(), key);
        }
        None
    }

    /// The position of the trust score of this user.
    pub fn position_of_score_owner(&self, key: u128) -> (found: Option<usize>)
        ensures
            is_position(found, self@.score_owners(), key),
    {
        let mut at: usize = 0;
        while at < self.trust_scores.len()
            invariant
                at <= self.trust_scores.len(),
                forall|j: int| 0 <= j < at ==> self@.score_owners()[j] != key,
            decreases self.trust_scores.len() - at,
        {
            if self.trust_scores[at].user_id == key {
                proof {
                    first_index_found(self@.score_owners(), key, at as int);
                }
                return Some(at);
            }
            at = at + 1;
        }
        proof {
            first_index_absent(self@.score_owners(), key);
        }
        None
    }

    /// The position of the network peer with this identifier.
    pub fn position_of_network_peer(&self, key: u128) -> (found: Option<usize>)
        ensures
            is_position(found, self@.network_peer_ids(), key),
    {
        let mut at: usize = 0;
        while at < self.network_peers.len()
            invariant
                at <= self.network_peers.len(),
                forall|j: int| 0 <= j < at ==> self@.network_peer_ids()[j] != key,
            decreases self.network_peers.len() - at,
        {
            if self.network_peers[at].id == key {
                proof {
                    first_index_found(self@.network_peer_ids(), key, at as int);
                }
                return Some(at);
            }
            at = at + 1;
        }
        proof {
            first_index_absent(self@.network_peer_ids(), key);
        }
        None
    }

    /// The position of the alert with this identifier.
    pub fn position_of_alert(&self, key: u128) -> (found: Option<usize>)
        ensures
            is_position(found, self@.alert_ids(), key),
    {
        let mut at: usize = 0;
        while at < self.alerts.len()
            invariant
                at <= self.alerts.len(),
                forall|j: int| 0 <= j < at ==> self@.alert_ids()[j] != key,
            decreases self.alerts.len() - at,
        {
            if self.alerts[at].id == key {
                proof {
                    first_index_found(self@.alert_ids(), key, at as int);
                }
                return Some(at);
            }
            at = at + 1;
        }
        proof {
            first_index_absent(self@.alert_ids(), key);
        }
        None
    }

}

impl StoreView {
    /// The store can take this user: the identifier, the e-mail address and
    /// the name are new.
    pub open spec fn takes_user(self, row: UserView) -> bool {
        &&& !self.user_ids().contains(row.id)
        &&& !self.emails().contains(row.email)
        &&& !self.usernames().contains(row.username)
    }

    /// The store can take this session: the token has the form of one and is
    /// new, and the user exists.
    pub open spec fn takes_session(self, row: SessionView) -> bool {
        &&& is_token(row.token)
        &&& !self.tokens().contains(row.token)
        &&& self.user_ids().contains(row.user_id)
    }

    /// The store can take this request: the identifier is new and the owner
    /// exists.
    pub open spec fn takes_request(self, row: RequestView) -> bool {
        &&& !self.request_ids().contains(row.id)
        &&& self.user_ids().contains(row.user_id)
    }

    /// The store can take this attribution: the identifier is new and the
    /// request exists.
    pub open spec fn takes_request_peer(self, row: RequestPeerView) -> bool {
        &&& !self.request_peer_ids().contains(row.id)
        &&& self.request_ids().contains(row.request_id)
    }

    /// The store can take this trust score: the identifier is new, the user
    /// exists and has no score yet, the score is in range, and the status
    /// fits the score.
    pub open spec fn takes_trust_score(self, row: TrustScoreView) -> bool {
        &&& !self.score_ids().contains(row.id)
        &&& !self.score_owners().contains(row.user_id)
        &&& self.user_ids().contains(row.user_id)
        &&& 0 <= row.score <= 1000
        &&& status_fits(row.score, row.status)
    }

    /// The store can take this network peer: the identifier is new, the owner
    /// exists, and the interactions are not negative.
    pub open spec fn takes_network_peer(self, row: NetworkPeerView) -> bool {
        &&& !self.network_peer_ids().contains(row.id)
        &&& self.user_ids().contains(row.user_id)
        &&& row.interactions >= 0
    }

    /// The store can take this alert: the identifier is new and the owner
    /// exists.
    pub open spec fn takes_alert(self, row: AlertView) -> bool {
        &&& !self.alert_ids().contains(row.id)
        &&& self.user_ids().contains(row.user_id)
    }
}

impl Store {
    /// Adds a user, or fails and changes nothing where the schema does not
    /// take the row.
    pub fn add_user(&mut self, row: User) -> (added: Result<(), ApiError>)
        requires
            old(self)@.wf(),
        ensures
            final(self)@.wf(),
            final(self)@.extends(old(self)@),
            if old(self)@.takes_user(row@) {
                added is Ok && final(self)@ == old(self)@.with_user(row@)
            } else {
                added == Err::<(), ApiError>(ApiError::Storage) && final(self)@ == old(self)@
            },
    {
        if self.position_of_user(row.id).is_some() || self.position_of_email(
            row.email.as_str(),
        ).is_some() || self.position_of_username(row.username.as_str()).is_some() {
            return Err(ApiError::Storage);
        }
        self.insert_user(row);
        Ok(())
    }

    /// Adds a session, or fails and changes nothing where the schema does not
    /// take the row.
    pub fn add_session(&mut self, row: Session) -> (added: Result<(), ApiError>)
        requires
            old(self)@.wf(),
        ensures
            final(self)@.wf(),
            final(self)@.extends(old(self)@),
            if old(self)@.takes_session(row@) {
                added is Ok && final(self)@ == old(self)@.with_session(row@)
            } else {
                added == Err::<(), ApiError>(ApiError::Storage) && final(self)@ == old(self)@
            },
    {
        if !is_session_token(row.token.as_str()) || self.position_of_token(
            row.token.as_str(),
        ).is_some() || self.position_of_user(row.user_id).is_none() {
            return Err(ApiError::Storage);
        }
        self.insert_session(row);
        Ok(())
    }

    /// Adds a request, or fails and changes nothing where the schema does not
    /// take the row.
    pub fn add_request(&mut self, row: Request) -> (added: Result<(), ApiError>)
        requires
            old(self)@.wf(),
        ensures
            final(self)@.wf(),
            final(self)@.extends(old(self)@),
            if old(self)@.takes_request(row@) {
                added is Ok && final(self)@ == old(self)@.with_request(row@)
            } else {
                added == Err::<(), ApiError>(ApiError::Storage) && final(self)@ == old(self)@
            },
    {
        if self.position_of_request(row.id).is_some() || self.position_of_user(
            row.user_id,
        ).is_none() {
            return Err(ApiError::Storage);
        }
        self.insert_request(row);
        Ok(())
    }

    /// Adds an attribution, or fails and changes nothing where the schema
    /// does not take the row.
    pub fn add_request_peer(&mut self, row: RequestPeer) -> (added: Result<(), ApiError>)
        requires
            old(self)@.wf(),
        ensures
            final(self)@.wf(),
            final(self)@.extends(old(self)@),
            if old(self)@.takes_request_peer(row@) {
                added is Ok && final(self)@ == old(self)@.with_request_peer(row@)
            } else {
                added == Err::<(), ApiError>(ApiError::Storage) && final(self)@ == old(self)@
            },
    {
        if self.position_of_request_peer(row.id).is_some() || self.position_of_request(
            row.request_id,
        ).is_none() {
            return Err(ApiError::Storage);
        }
        self.insert_request_peer(row);
        Ok(())
    }

    /// Adds a trust score, or fails and changes nothing where the schema does
    /// not take the row.
    pub fn add_trust_score(&mut self, row: TrustScore) -> (added: Result<(), ApiError>)
        requires
            old(self)@.wf(),
        ensures
            final(self)@.wf(),
            final(self)@.extends(old(self)@),
            if old(self)@.takes_trust_score(row@) {
                added is Ok && final(self)@ == old(self)@.with_trust_score(row@)
            } else {
                added == Err::<(), ApiError>(ApiError::Storage) && final(self)@ == old(self)@
            },
    {
        if self.position_of_score(row.id).is_some() || self.position_of_score_owner(
            row.user_id,
        ).is_some() || self.position_of_user(row.user_id).is_none() || row.score < 0 || row.score
            > 1000 || !status_fits_score(row.score, row.status.as_str()) {
            return Err(ApiError::Storage);
        }
        self.insert_trust_score(row);
        Ok(())
    }

    /// Adds a network peer, or fails and changes nothing where the schema
    /// does not take the row.
    pub fn add_network_peer(&mut self, row: NetworkPeer) -> (added: Result<(), ApiError>)
        requires
            old(self)@.wf(),
        ensures
            final(self)@.wf(),
            final(self)@.extends(old(self)@),
            if old(self)@.takes_network_peer(row@) {
                added is Ok && final(self)@ == old(self)@.with_network_peer(row@)
            } else {
                added == Err::<(), ApiError>(ApiError::Storage) && final(self)@ == old(self)@
            },
    {
        if self.position_of_network_peer(row.id).is_some() || self.position_of_user(
            row.user_id,
        ).is_none() || row.interactions < 0 {
            return Err(ApiError::Storage);
        }
        self.insert_network_peer(row);
        Ok(())
    }

    /// Adds an alert, or fails and changes nothing where the schema does not
    /// take the row.
    pub fn add_alert(&mut self, row: Alert) -> (added: Result<(), ApiError>)
        requires
            old(self)@.wf(),
        ensures
            final(self)@.wf(),
            final(self)@.extends(old(self)@),
            if old(self)@.takes_alert(row@) {
                added is Ok && final(self)@ == old(self)@.with_alert(row@)
            } else {
                added == Err::<(), ApiError>(ApiError::Storage) && final(self)@ == old(self)@
            },
    {
        if self.position_of_alert(row.id).is_some() || self.position_of_user(row.user_id).is_none() {
            return Err(ApiError::Storage);
        }
        self.insert_alert(row);
        Ok(())
    }
}

/// Every store is a later state of itself, and a later state of a later
/// state is a later state.
pub proof fn extends_through(first: StoreView, second: StoreView, third: StoreView)
    requires
        second.extends(first),
        third.extends(second),
    ensures
        first.extends(first),
        third.extends(first),
{
    assert forall|i: int|
        #![trigger third.requests[i]]
        #![trigger first.requests[i]]
        0 <= i < first.requests.len() implies third.requests[i] == (RequestView {
        status: third.requests[i].status,
        updated_at: third.requests[i].updated_at,
        ..first.requests[i]
    }) by {
        assert(second.requests[i].id == first.requests[i].id);
    }
    assert forall|i: int|
        #![trigger third.trust_scores[i]]
        #![trigger first.trust_scores[i]]
        0 <= i < first.trust_scores.len() implies third.trust_scores[i].id
        == first.trust_scores[i].id && third.trust_scores[i].user_id
        == first.trust_scores[i].user_id by {
        assert(second.trust_scores[i].id == first.trust_scores[i].id);
    }
    assert forall|i: int|
        #![trigger third.alerts[i]]
        #![trigger first.alerts[i]]
        0 <= i < first.alerts.len() implies third.alerts[i] == (AlertView {
        is_read: third.alerts[i].is_read,
        ..first.alerts[i]
    }) && (first.alerts[i].is_read ==> third.alerts[i].is_read) by {
        assert(second.alerts[i].id == first.alerts[i].id);
    }
    assert forall|i: int| 0 <= i < first.users.len() implies third.users[i] == first.users[i] by {
        assert(second.users[i] == first.users[i]);
    }
    assert forall|i: int| 0 <= i < first.sessions.len() implies third.sessions[i]
        == first.sessions[i] by {
        assert(second.sessions[i] == first.sessions[i]);
    }
    assert forall|i: int| 0 <= i < first.request_peers.len() implies third.request_peers[i]
        == first.request_peers[i] by {
        assert(second.request_peers[i] == first.request_peers[i]);
    }
    assert forall|i: int| 0 <= i < first.network_peers.len() implies third.network_peers[i]
        == first.network_peers[i] by {
        assert(second.network_peers[i] == first.network_peers[i]);
    }
}

} // verus!
