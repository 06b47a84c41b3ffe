//! The records of the ledger and the bodies of its calls.
//!
//! Identifiers are 128-bit integers and points in time are microseconds since
//! the Unix epoch. Every record has a view, in which its texts are sequences
//! of characters; the contracts of the ledger speak of views.

use vstd::prelude::*;
use vstd::string::*;
use crate::text::{copy_optional_text, copy_texts, optional_text, views};

verus! {

/// Where a request stands.
#[derive(Debug, Clone, Copy, PartialEq, Eq, Hash, Structural)]
pub enum RequestStatus {
    Fair,
    Stalled,
    Critical,
    Completed,
}

/// The five counts that a trust score is computed from.
#[derive(Debug, Clone, Copy, PartialEq, Eq, Structural)]
pub struct TrustFactors {
    pub completed_requests: i32,
    pub stalled_requests: i32,
    pub critical_requests: i32,
    pub total_interactions: i32,
    pub peer_count: i32,
}

/// A registered user. The password hash is an opaque secret and leaves the
/// ledger in no response.
#[derive(Debug, PartialEq, Eq)]
pub struct User {
    pub id: u128,
    pub username: String,
    pub email: String,
    pub password_hash: String,
    pub created_at: i64,
}

/// The view of [`User`].
pub struct UserView {
    pub id: u128,
    pub username: Seq<char>,
    pub email: Seq<char>,
    pub password_hash: Seq<char>,
    pub created_at: i64,
}

impl View for User {
    type V = UserView;

    open spec fn view(&self) -> UserView {
        UserView {
            id: self.id,
            username: self.username@,
            email: self.email@,
            password_hash: self.password_hash@,
            created_at: self.created_at,
        }
    }
}

impl Clone for User {
    fn clone(&self) -> (copy: Self)
        ensures
            copy@ == self@,
    {
        User {
            id: self.id,
            username: self.username.clone(),
            email: self.email.clone(),
            password_hash: self.password_hash.clone(),
            created_at: self.created_at,
        }
    }
}

/// A user as responses show one: without the credential.
#[derive(Debug, PartialEq, Eq)]
pub struct UserResponse {
    pub id: u128,
    pub username: String,
    pub email: String,
    pub created_at: i64,
}

/// The view of [`UserResponse`].
pub struct UserResponseView {
    pub id: u128,
    pub username: Seq<char>,
    pub email: Seq<char>,
    pub created_at: i64,
}

impl View for UserResponse {
    type V = UserResponseView;

    open spec fn view(&self) -> UserResponseView {
        UserResponseView {
            id: self.id,
            username: self.username@,
            email: self.email@,
            created_at: self.created_at,
        }
    }
}

impl Clone for UserResponse {
    fn clone(&self) -> (copy: Self)
        ensures
            copy@ == self@,
    {
        UserResponse {
            id: self.id,
            username: self.username.clone(),
            email: self.email.clone(),
            created_at: self.created_at,
        }
    }
}

/// A bearer credential and the user that it stands for.
#[derive(Debug, PartialEq, Eq)]
pub struct Session {
    pub token: String,
    pub user_id: u128,
    pub created_at: i64,
}

/// The view of [`Session`].
pub struct SessionView {
    pub token: Seq<char>,
    pub user_id: u128,
    pub created_at: i64,
}

impl View for Session {
    type V = SessionView;

    open spec fn view(&self) -> SessionView {
        SessionView {
            token: self.token@,
            user_id: self.user_id,
            created_at: self.created_at,
        }
    }
}

impl Clone for Session {
    fn clone(&self) -> (copy: Self)
        ensures
            copy@ == self@,
    {
        Session {
            token: self.token.clone(),
            user_id: self.user_id,
            created_at: self.created_at,
        }
    }
}

/// What registering and logging in answer: the user and a new token.
#[derive(Debug, PartialEq, Eq)]
pub struct AuthResponse {
    pub user: UserResponse,
    pub token: String,
}

/// The view of [`AuthResponse`].
pub struct AuthResponseView {
    pub user: UserResponseView,
    pub token: Seq<char>,
}

impl View for AuthResponse {
    type V = AuthResponseView;

    open spec fn view(&self) -> AuthResponseView {
        AuthResponseView {
            user: self.user@,
            token: self.token@,
        }
    }
}

impl Clone for AuthResponse {
    fn clone(&self) -> (copy: Self)
        ensures
            copy@ == self@,
    {
        AuthResponse {
            user: self.user.clone(),
            token: self.token.clone(),
        }
    }
}

/// A ledger entry: something that others owe the user.
#[derive(Debug, PartialEq, Eq)]
pub struct Request {
    pub id: u128,
    pub user_id: u128,
    pub title: String,
    pub description: String,
    pub status: RequestStatus,
    pub stalled_days: i32,
    pub document_id: Option<String>,
    pub created_at: i64,
    pub updated_at: i64,
}

/// The view of [`Request`].
pub struct RequestView {
    pub id: u128,
    pub user_id: u128,
    pub title: Seq<char>,
    pub description: Seq<char>,
    pub status: RequestStatus,
    pub stalled_days: i32,
    pub document_id: Option<Seq<char>>,
    pub created_at: i64,
    pub updated_at: i64,
}

impl View for Request {
    type V = RequestView;

    open spec fn view(&self) -> RequestView {
        RequestView {
            id: self.id,
            user_id: self.user_id,
            title: self.title@,
            description: self.description@,
            status: self.status,
            stalled_days: self.stalled_days,
            document_id: optional_text(self.document_id),
            created_at: self.created_at,
            updated_at: self.updated_at,
        }
    }
}

impl Clone for Request {
    fn clone(&self) -> (copy: Self)
        ensures
            copy@ == self@,
    {
        Request {
            id: self.id,
            user_id: self.user_id,
            title: self.title.clone(),
            description: self.description.clone(),
            status: self.status,
            stalled_days: self.stalled_days,
            document_id: copy_optional_text(&self.document_id),
            created_at: self.created_at,
            updated_at: self.updated_at,
        }
    }
}

/// The attribution of a request to a peer.
#[derive(Debug, PartialEq, Eq)]
pub struct RequestPeer {
    pub id: u128,
    pub request_id: u128,
    pub peer_name: String,
}

/// The view of [`RequestPeer`].
pub struct RequestPeerView {
    pub id: u128,
    pub request_id: u128,
    pub peer_name: Seq<char>,
}

impl View for RequestPeer {
    type V = RequestPeerView;

    open spec fn view(&self) -> RequestPeerView {
        RequestPeerView {
            id: self.id,
            request_id: self.request_id,
            peer_name: self.peer_name@,
        }
    }
}

impl Clone for RequestPeer {
    fn clone(&self) -> (copy: Self)
        ensures
            copy@ == self@,
    {
        RequestPeer {
            id: self.id,
            request_id: self.request_id,
            peer_name: self.peer_name.clone(),
        }
    }
}

/// A request together with the names of its peers.
#[derive(Debug, PartialEq, Eq)]
pub struct RequestWithPeers {
    pub id: u128,
    pub user_id: u128,
    pub title: String,
    pub description: String,
    pub status: RequestStatus,
    pub stalled_days: i32,
    pub document_id: Option<String>,
    pub peers: Vec<String>,
    pub created_at: i64,
    pub updated_at: i64,
}

/// The view of [`RequestWithPeers`].
pub struct RequestWithPeersView {
    pub id: u128,
    pub user_id: u128,
    pub title: Seq<char>,
    pub description: Seq<char>,
    pub status: RequestStatus,
    pub stalled_days: i32,
    pub document_id: Option<Seq<char>>,
    pub peers: Seq<Seq<char>>,
    pub created_at: i64,
    pub updated_at: i64,
}

impl View for RequestWithPeers {
    type V = RequestWithPeersView;

    open spec fn view(&self) -> RequestWithPeersView {
        RequestWithPeersView {
            id: self.id,
            user_id: self.user_id,
            title: self.title@,
            description: self.description@,
            status: self.status,
            stalled_days: self.stalled_days,
            document_id: optional_text(self.document_id),
            peers: views(self.peers@),
            created_at: self.created_at,
            updated_at: self.updated_at,
        }
    }
}

impl Clone for RequestWithPeers {
    fn clone(&self) -> (copy: Self)
        ensures
            copy@ == self@,
    {
        RequestWithPeers {
            id: self.id,
            user_id: self.user_id,
            title: self.title.clone(),
            description: self.description.clone(),
            status: self.status,
            stalled_days: self.stalled_days,
            document_id: copy_optional_text(&self.document_id),
            peers: copy_texts(&self.peers),
            created_at: self.created_at,
            updated_at: self.updated_at,
        }
    }
}

/// The stored trust score of a user: the latest one only.
#[derive(Debug, PartialEq, Eq)]
pub struct TrustScore {
    pub id: u128,
    pub user_id: u128,
    pub score: i32,
    pub status: String,
    pub updated_at: i64,
}

/// The view of [`TrustScore`].
pub struct TrustScoreView {
    pub id: u128,
    pub user_id: u128,
    pub score: i32,
    pub status: Seq<char>,
    pub updated_at: i64,
}

impl View for TrustScore {
    type V = TrustScoreView;

    open spec fn view(&self) -> TrustScoreView {
        TrustScoreView {
            id: self.id,
            user_id: self.user_id,
            score: self.score,
            status: self.status@,
            updated_at: self.updated_at,
        }
    }
}

impl Clone for TrustScore {
    fn clone(&self) -> (copy: Self)
        ensures
            copy@ == self@,
    {
        TrustScore {
            id: self.id,
            user_id: self.user_id,
            score: self.score,
            status: self.status.clone(),
            updated_at: self.updated_at,
        }
    }
}

/// A peer in a user's network. The two position hints are the bit patterns
/// of IEEE 754 double-precision numbers; the ledger only carries them.
#[derive(Debug, PartialEq, Eq)]
pub struct NetworkPeer {
    pub id: u128,
    pub user_id: u128,
    pub peer_name: String,
    pub trust_level: String,
    pub interactions: i32,
    pub last_interaction: i64,
    pub position_x: u64,
    pub position_y: u64,
}

/// The view of [`NetworkPeer`].
pub struct NetworkPeerView {
    pub id: u128,
    pub user_id: u128,
    pub peer_name: Seq<char>,
    pub trust_level: Seq<char>,
    pub interactions: i32,
    pub last_interaction: i64,
    pub position_x: u64,
    pub position_y: u64,
}

impl View for NetworkPeer {
    type V = NetworkPeerView;

    open spec fn view(&self) -> NetworkPeerView {
        NetworkPeerView {
            id: self.id,
            user_id: self.user_id,
            peer_name: self.peer_name@,
            trust_level: self.trust_level@,
            interactions: self.interactions,
            last_interaction: self.last_interaction,
            position_x: self.position_x,
            position_y: self.position_y,
        }
    }
}

impl Clone for NetworkPeer {
    fn clone(&self) -> (copy: Self)
        ensures
            copy@ == self@,
    {
        NetworkPeer {
            id: self.id,
            user_id: self.user_id,
            peer_name: self.peer_name.clone(),
            trust_level: self.trust_level.clone(),
            interactions: self.interactions,
            last_interaction: self.last_interaction,
            position_x: self.position_x,
            position_y: self.position_y,
        }
    }
}

/// A notification for a user.
#[derive(Debug, PartialEq, Eq)]
pub struct Alert {
    pub id: u128,
    pub user_id: u128,
    pub title: String,
    pub message: String,
    pub alert_type: String,
    pub is_read: bool,
    pub created_at: i64,
}

/// The view of [`Alert`].
pub struct AlertView {
    pub id: u128,
    pub user_id: u128,
    pub title: Seq<char>,
    pub message: Seq<char>,
    pub alert_type: Seq<char>,
    pub is_read: bool,
    pub created_at: i64,
}

impl View for Alert {
    type V = AlertView;

    open spec fn view(&self) -> AlertView {
        AlertView {
            id: self.id,
            user_id: self.user_id,
            title: self.title@,
            message: self.message@,
            alert_type: self.alert_type@,
            is_read: self.is_read,
            created_at: self.created_at,
        }
    }
}

impl Clone for Alert {
    fn clone(&self) -> (copy: Self)
        ensures
            copy@ == self@,
    {
        Alert {
            id: self.id,
            user_id: self.user_id,
            title: self.title.clone(),
            message: self.message.clone(),
            alert_type: self.alert_type.clone(),
            is_read: self.is_read,
            created_at: self.created_at,
        }
    }
}

/// A freshly computed score, its classification and the counts behind it.
#[derive(Debug, PartialEq, Eq)]
pub struct TrustScoreComputation {
    pub score: i32,
    pub status: String,
    pub factors: TrustFactors,
}

/// The view of [`TrustScoreComputation`].
pub struct TrustScoreComputationView {
    pub score: i32,
    pub status: Seq<char>,
    pub factors: TrustFactors,
}

impl View for TrustScoreComputation {
    type V = TrustScoreComputationView;

    open spec fn view(&self) -> TrustScoreComputationView {
        TrustScoreComputationView {
            score: self.score,
            status: self.status@,
            factors: self.factors,
        }
    }
}

impl Clone for TrustScoreComputation {
    fn clone(&self) -> (copy: Self)
        ensures
            copy@ == self@,
    {
        TrustScoreComputation {
            score: self.score,
            status: self.status.clone(),
            factors: self.factors,
        }
    }
}

/// The body of a registration.
#[derive(Debug, PartialEq, Eq)]
pub struct RegisterRequest {
    pub username: String,
    pub email: String,
    pub password: String,
}

impl Clone for RegisterRequest {
    fn clone(&self) -> (copy: Self)
        ensures
            copy.username == self.username,
            copy.email == self.email,
            copy.password == self.password,
    {
        RegisterRequest {
            username: self.username.clone(),
            email: self.email.clone(),
            password: self.password.clone(),
        }
    }
}

/// The body of a login.
#[derive(Debug, PartialEq, Eq)]
pub struct LoginRequest {
    pub email: String,
    pub password: String,
}

impl Clone for LoginRequest {
    fn clone(&self) -> (copy: Self)
        ensures
            copy.email == self.email,
            copy.password == self.password,
    {
        LoginRequest {
            email: self.email.clone(),
            password: self.password.clone(),
        }
    }
}

/// The body of the call that creates a request.
#[derive(Debug, PartialEq, Eq)]
pub struct CreateRequestBody {
    pub title: String,
    pub description: String,
    pub status: Option<String>,
    pub peers: Option<Vec<String>>,
    pub document_id: Option<String>,
}

impl Clone for CreateRequestBody {
    fn clone(&self) -> (copy: Self)
        ensures
            copy.title == self.title,
            copy.description == self.description,
            copy.status == self.status,
            copy.peers is Some == self.peers is Some,
            copy.peers matches Some(names) ==> names@ == self.peers.unwrap()@,
            copy.document_id == self.document_id,
    {
        CreateRequestBody {
            title: self.title.clone(),
            description: self.description.clone(),
            status: copy_optional_text(&self.status),
            peers: match &self.peers {
                Some(names) => Some(copy_texts(names)),
                None => None,
            },
            document_id: copy_optional_text(&self.document_id),
        }
    }
}

/// The body of the call that moves a request to another status.
#[derive(Debug, PartialEq, Eq)]
pub struct UpdateRequestStatus {
    pub status: String,
}

impl Clone for UpdateRequestStatus {
    fn clone(&self) -> (copy: Self)
        ensures
            copy.status == self.status,
    {
        UpdateRequestStatus {
            status: self.status.clone(),
        }
    }
}

/// The query of the call that lists alerts: a category, `all`, or nothing.
#[derive(Debug, PartialEq, Eq)]
pub struct AlertFilter {
    pub filter: Option<String>,
}

impl Clone for AlertFilter {
    fn clone(&self) -> (copy: Self)
        ensures
            copy.filter == self.filter,
    {
        AlertFilter {
            filter: copy_optional_text(&self.filter),
        }
    }
}

/// The envelope of every response: the data of a success or the message of a
/// failure.
#[derive(Debug, PartialEq, Eq)]
pub struct ApiResponse<T> {
    pub success: bool,
    pub data: Option<T>,
    pub error: Option<String>,
}

impl<T> ApiResponse<T> {
    /// The envelope of a success.
    pub fn ok(data: T) -> (response: Self)
        ensures
            response.success,
            response.data == Some(data),
            response.error is None,
    {
        ApiResponse { success: true, data: Some(data), error: None }
    }

    /// The envelope of a failure.
    pub fn err(msg: &str) -> (response: Self)
        ensures
            !response.success,
            response.data is None,
            optional_text(response.error) == Some(msg@),
    {
        ApiResponse { success: false, data: None, error: Some(msg.to_owned()) }
    }
}

impl From<User> for UserResponse {
    fn from(u: User) -> (response: UserResponse) {
        UserResponse { id: u.id, username: u.username, email: u.email, created_at: u.created_at }
    }
}

impl vstd::std_specs::convert::FromSpecImpl<User> for UserResponse {
    open spec fn obeys_from_spec() -> bool {
        true
    }

    open spec fn from_spec(u: User) -> UserResponse {
        UserResponse { id: u.id, username: u.username, email: u.email, created_at: u.created_at }
    }
}

impl UserView {
    /// This user as responses show it.
    pub open spec fn public(self) -> UserResponseView {
        UserResponseView {
            id: self.id,
            username: self.username,
            email: self.email,
            created_at: self.created_at,
        }
    }
}

impl RequestView {
    /// This request together with the names of its peers.
    pub open spec fn with_peers(self, peers: Seq<Seq<char>>) -> RequestWithPeersView {
        RequestWithPeersView {
            id: self.id,
            user_id: self.user_id,
            title: self.title,
            description: self.description,
            status: self.status,
            stalled_days: self.stalled_days,
            document_id: self.document_id,
            peers,
            created_at: self.created_at,
            updated_at: self.updated_at,
        }
    }
}

} // verus!
