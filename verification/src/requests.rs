//! The relationship ledger: the requests that others owe a user, the peers
//! that they are attributed to, and the order in which they are listed.

use vstd::prelude::*;
use vstd::string::*;
use crate::auth::{authenticate, caller_of, sessions_persist};
use crate::db::{
    new_id, views_push, with_request_keeps_wf, with_request_peer_keeps_wf,
    Store, StoreView,
};
use crate::errors::ApiError;
use crate::lookup::{all_distinct, first_index};
use crate::models::{
    CreateRequestBody, Request, RequestPeer, RequestPeerView, RequestStatus, RequestView,
    RequestWithPeers, RequestWithPeersView, UpdateRequestStatus,
};
use crate::ranking::{arranged, is_ranked, is_ranking, rank};
use crate::text::{
    copy_optional_text, copy_texts, is_all_white_space, is_trimmed_at, optional_text, trim,
    trimmed, trimmed_of_white_space, views,
};

verus! {

/// The name of a status.
pub open spec fn status_text(status: RequestStatus) -> Seq<char> {
    match status {
        RequestStatus::Fair => "fair"@,
        RequestStatus::Stalled => "stalled"@,
        RequestStatus::Critical => "critical"@,
        RequestStatus::Completed => "completed"@,
    }
}

/// The status that a text names, if it names one.
pub open spec fn status_of_text(text: Seq<char>) -> Option<RequestStatus> {
    if text == "fair"@ {
        Some(RequestStatus::Fair)
    } else if text == "stalled"@ {
        Some(RequestStatus::Stalled)
    } else if text == "critical"@ {
        Some(RequestStatus::Critical)
    } else if text == "completed"@ {
        Some(RequestStatus::Completed)
    } else {
        None
    }
}

/// Every status is named by its own name, and by no other.
pub proof fn status_names_are_distinct(status: RequestStatus)
    ensures
        status_of_text(status_text(status)) == Some(status),
{
    reveal_strlit("fair");
    reveal_strlit("stalled");
    reveal_strlit("critical");
    reveal_strlit("completed");
    assert("fair"@.len() == 4);
    assert("stalled"@.len() == 7);
    assert("critical"@.len() == 8);
    assert("completed"@.len() == 9);
}

impl RequestStatus {
    /// The status that `text` names.
    pub fn parse(text: &str) -> (status: Option<RequestStatus>)
        ensures
            status == status_of_text(text@),
    {
        if *text == *"fair" {
            Some(RequestStatus::Fair)
        } else if *text == *"stalled" {
            Some(RequestStatus::Stalled)
        } else if *text == *"critical" {
            Some(RequestStatus::Critical)
        } else if *text == *"completed" {
            Some(RequestStatus::Completed)
        } else {
            None
        }
    }

    /// The name of this status.
    pub fn as_str(&self) -> (name: &'static str)
        ensures
            name@ == status_text(*self),
    {
        match self {
            RequestStatus::Fair => "fair",
            RequestStatus::Stalled => "stalled",
            RequestStatus::Critical => "critical",
            RequestStatus::Completed => "completed",
        }
    }

    /// How urgent this status is: critical before stalled before the rest.
    pub open spec fn urgency_spec(&self) -> u8 {
        match self {
            RequestStatus::Critical => 2,
            RequestStatus::Stalled => 1,
            _ => 0,
        }
    }

    /// How urgent this status is: critical before stalled before the rest.
    #[verifier::when_used_as_spec(urgency_spec)]
    pub fn urgency(&self) -> (urgency: u8)
        ensures
            urgency == self.urgency_spec(),
    {
        match self {
            RequestStatus::Critical => 2,
            RequestStatus::Stalled => 1,
            _ => 0,
        }
    }
}

/// The key by which requests are listed, highest first: the urgency of the
/// status, and within one urgency the days stalled.
pub open spec fn listing_key(status: RequestStatus, stalled_days: i32) -> i64 {
    (status.urgency_spec() * 0x1_0000_0000 + stalled_days) as i64
}

/// A request is listed before another exactly when it is more urgent, or as
/// urgent and stalled for longer; requests that agree in both keep the order
/// of their creation.
pub proof fn listing_key_orders(
    status: RequestStatus,
    stalled_days: i32,
    other: RequestStatus,
    other_days: i32,
)
    ensures
        listing_key(status, stalled_days) > listing_key(other, other_days) <==> status.urgency_spec()
            > other.urgency_spec() || (status.urgency_spec() == other.urgency_spec() && stalled_days
            > other_days),
        listing_key(status, stalled_days) == listing_key(other, other_days) <==> status.urgency_spec()
            == other.urgency_spec() && stalled_days == other_days,
{
}

/// The listing key of a request.
pub fn listing_key_of(status: RequestStatus, stalled_days: i32) -> (key: i64)
    ensures
        key == listing_key(status, stalled_days),
{
    (status.urgency() as i64) * 0x1_0000_0000 + (stalled_days as i64)
}

/// The rows of `rows` that `owner` owns, in their order.
pub open spec fn owned_requests(rows: Seq<RequestView>, owner: u128) -> Seq<RequestView>
    decreases rows.len(),
{
    if rows.len() == 0 {
        Seq::empty()
    } else if rows.last().user_id == owner {
        owned_requests(rows.drop_last(), owner).push(rows.last())
    } else {
        owned_requests(rows.drop_last(), owner)
    }
}

/// The names of the peers that `rows` attribute the request to, in their
/// order.
pub open spec fn peer_names(rows: Seq<RequestPeerView>, request_id: u128) -> Seq<Seq<char>>
    decreases rows.len(),
{
    if rows.len() == 0 {
        Seq::empty()
    } else if rows.last().request_id == request_id {
        peer_names(rows.drop_last(), request_id).push(rows.last().peer_name)
    } else {
        peer_names(rows.drop_last(), request_id)
    }
}

/// Every owned row is a row of the owner, and a row of the table.
pub proof fn owned_requests_are_owned(rows: Seq<RequestView>, owner: u128)
    ensures
        forall|i: int|
            0 <= i < owned_requests(rows, owner).len() ==> (#[trigger] owned_requests(
                rows,
                owner,
            )[i]).user_id == owner && rows.contains(owned_requests(rows, owner)[i]),
        forall|i: int|
            0 <= i < rows.len() && rows[i].user_id == owner ==> owned_requests(
                rows,
                owner,
            ).contains(#[trigger] rows[i]),
        owned_requests(rows, owner).len() <= rows.len(),
    decreases rows.len(),
{
    if rows.len() > 0 {
        let shorter = rows.drop_last();
        owned_requests_are_owned(shorter, owner);
        let kept = owned_requests(shorter, owner);
        let all = owned_requests(rows, owner);
        assert forall|i: int| 0 <= i < all.len() implies (#[trigger] all[i]).user_id == owner
            && rows.contains(all[i]) by {
            if i < kept.len() {
                assert(all[i] == kept[i]);
                assert(shorter.contains(kept[i]));
                let at = choose|at: int| 0 <= at < shorter.len() && shorter[at] == kept[i];
                assert(rows[at] == kept[i]);
            } else {
                assert(all[i] == rows.last());
                assert(rows[rows.len() - 1] == rows.last());
            }
        }
        assert forall|i: int| 0 <= i < rows.len() && rows[i].user_id == owner implies all.contains(
            #[trigger] rows[i],
        ) by {
            if i < shorter.len() {
                assert(shorter[i] == rows[i]);
                assert(kept.contains(shorter[i]));
                let at = choose|at: int| 0 <= at < kept.len() && kept[at] == shorter[i];
                assert(all[at] == rows[i]);
            } else {
                assert(all[all.len() - 1] == rows[i]);
            }
        }
    }
}

/// The requests of `rows`, each with the names of its peers.
pub open spec fn joined(s: StoreView, rows: Seq<RequestView>) -> Seq<RequestWithPeersView> {
    Seq::new(rows.len(), |i: int| rows[i].with_peers(peer_names(s.request_peers, rows[i].id)))
}

/// The listing keys of `rows`.
pub open spec fn listing_keys(rows: Seq<RequestView>) -> Seq<i64> {
    Seq::new(rows.len(), |i: int| listing_key(rows[i].status, rows[i].stalled_days))
}

/// What the order of a listing means: it holds every request of the owner,
/// is as long as they are many and holds no request of anybody else; a more
/// urgent request never follows a less urgent one, and among equally urgent
/// requests one that is stalled for longer never follows one that is stalled
/// for shorter. So a critical request comes before every stalled one,
/// however long that one is stalled.
pub proof fn listing_is_by_urgency(s: StoreView, owner: u128, listed: Seq<RequestWithPeersView>)
    requires
        s.requests.len() <= usize::MAX,
        is_ranked(
            listed,
            joined(s, owned_requests(s.requests, owner)),
            listing_keys(owned_requests(s.requests, owner)),
        ),
    ensures
        listed.len() == owned_requests(s.requests, owner).len(),
        forall|i: int| 0 <= i < listed.len() ==> (#[trigger] listed[i]).user_id == owner,
        forall|i: int, j: int|
            0 <= i < j < listed.len() ==> (#[trigger] listed[i]).status.urgency_spec() > (
            #[trigger] listed[j]).status.urgency_spec() || (listed[i].status.urgency_spec()
                == listed[j].status.urgency_spec() && listed[i].stalled_days
                >= listed[j].stalled_days),
        forall|p: int|
            0 <= p < owned_requests(s.requests, owner).len() ==> listed.contains(
                #[trigger] joined(s, owned_requests(s.requests, owner))[p],
            ),
{
    let owned = owned_requests(s.requests, owner);
    let rows = joined(s, owned);
    let keys = listing_keys(owned);
    let key_of = |r: RequestWithPeersView| listing_key(r.status, r.stalled_days);
    owned_requests_are_owned(s.requests, owner);
    assert forall|p: int| 0 <= p < rows.len() implies key_of(rows[p]) == keys[p] by {}
    crate::ranking::ranked_is_sorted(listed, rows, keys, key_of);
    assert forall|i: int| 0 <= i < listed.len() implies (#[trigger] listed[i]).user_id == owner by {
        assert(rows.contains(listed[i]));
        let p = choose|p: int| 0 <= p < rows.len() && rows[p] == listed[i];
        assert(owned[p].user_id == owner);
    }
    assert forall|i: int, j: int| 0 <= i < j < listed.len() implies (#[trigger] listed[i]).status.urgency_spec()
        > (#[trigger] listed[j]).status.urgency_spec() || (listed[i].status.urgency_spec()
        == listed[j].status.urgency_spec() && listed[i].stalled_days >= listed[j].stalled_days) by {
        assert(key_of(listed[i]) >= key_of(listed[j]));
        listing_key_orders(
            listed[i].status,
            listed[i].stalled_days,
            listed[j].status,
            listed[j].stalled_days,
        );
    }
}

/// The names of the peers of a request, in the order of their attribution.
pub fn peers_of(store: &Store, request_id: u128) -> (names: Vec<String>)
    ensures
        views(names@) == peer_names(store@.request_peers, request_id),
{
    let rows = store.request_peers();
    let mut names: Vec<String> = Vec::new();
    let mut i: usize = 0;
    while i < rows.len()
        invariant
            i <= rows.len(),
            views(rows@) == store@.request_peers,
            views(names@) == peer_names(store@.request_peers.take(i as int), request_id),
        decreases rows.len() - i,
    {
        let ghost before = views(names@);
        proof {
            assert(store@.request_peers.take(i + 1).drop_last() == store@.request_peers.take(
                i as int,
            ));
            assert(store@.request_peers.take(i + 1).last() == rows@[i as int]@);
        }
        if rows[i].request_id == request_id {
            names.push(rows[i].peer_name.clone());
            assert(views(names@) == before.push(rows@[i as int]@.peer_name));
        }
        i = i + 1;
    }
    assert(store@.request_peers.take(rows.len() as int) == store@.request_peers);
    names
}

fn with_peers(request: &Request, peers: Vec<String>) -> (joined: RequestWithPeers)
    ensures
        joined@ == request@.with_peers(views(peers@)),
{
    RequestWithPeers {
        id: request.id,
        user_id: request.user_id,
        title: request.title.clone(),
        description: request.description.clone(),
        status: request.status,
        stalled_days: request.stalled_days,
        document_id: copy_optional_text(&request.document_id),
        peers,
        created_at: request.created_at,
        updated_at: request.updated_at,
    }
}

/// The requests of `owner`, each with its peers: the critical ones first,
/// then the stalled ones, then the others, and within each of the three the
/// longest stalled first.
pub fn requests_of(store: &Store, owner: u128) -> (listed: Vec<RequestWithPeers>)
    ensures
        is_ranked(
            views(listed@),
            joined(store@, owned_requests(store@.requests, owner)),
            listing_keys(owned_requests(store@.requests, owner)),
        ),
{
    let rows = store.requests();
    let mut owned: Vec<RequestWithPeers> = Vec::new();
    let mut keys: Vec<i64> = Vec::new();
    let mut i: usize = 0;
    while i < rows.len()
        invariant
            i <= rows.len(),
            views(rows@) == store@.requests,
            views(owned@) == joined(store@, owned_requests(store@.requests.take(i as int), owner)),
            keys@ == listing_keys(owned_requests(store@.requests.take(i as int), owner)),
        decreases rows.len() - i,
    {
        let ghost before = owned_requests(store@.requests.take(i as int), owner);
        proof {
            assert(store@.requests.take(i + 1).drop_last() == store@.requests.take(i as int));
            assert(store@.requests.take(i + 1).last() == rows@[i as int]@);
        }
        if rows[i].user_id == owner {
            let names = peers_of(store, rows[i].id);
            let row = with_peers(&rows[i], names);
            proof {
                views_push(owned@, row);
            }
            owned.push(row);
            keys.push(listing_key_of(rows[i].status, rows[i].stalled_days));
            proof {
                let after = before.push(rows@[i as int]@);
                assert forall|k: int| 0 <= k < after.len() implies views(owned@)[k] == joined(
                    store@,
                    after,
                )[k] by {
                    if k < before.len() {
                        assert(after[k] == before[k]);
                        assert(joined(store@, before)[k] == joined(store@, after)[k]);
                    }
                }
                assert(views(owned@) =~= joined(store@, after));
                assert(keys@ =~= listing_keys(after));
            }
        }
        i = i + 1;
    }
    assert(store@.requests.take(rows.len() as int) == store@.requests);
    let order = rank(&keys);
    let mut listed: Vec<RequestWithPeers> = Vec::new();
    let mut n: usize = 0;
    while n < order.len()
        invariant
            n <= order.len() == owned.len(),
            is_ranking(order@, keys@),
            keys.len() == owned.len(),
            views(listed@) == arranged(views(owned@), order@).take(n as int),
        decreases order.len() - n,
    {
        let row = owned[order[n]].clone();
        proof {
            views_push(listed@, row);
        }
        listed.push(row);
        assert(views(listed@) =~= arranged(views(owned@), order@).take(n + 1));
        n = n + 1;
    }
    assert(views(listed@) == arranged(views(owned@), order@));
    listed
}

/// The requests of the caller, in the order of [`requests_of`].
pub fn list_requests(store: &Store, authorization: Option<&str>) -> (answer: Result<
    Vec<RequestWithPeers>,
    ApiError,
>)
    ensures
        match caller_of(store@, authorization) {
            None => answer == Err::<Vec<RequestWithPeers>, ApiError>(ApiError::NotAuthenticated),
            Some(owner) => answer matches Ok(listed) && is_ranked(
                views(listed@),
                joined(store@, owned_requests(store@.requests, owner)),
                listing_keys(owned_requests(store@.requests, owner)),
            ),
        },
{
    match authenticate(store, authorization) {
        Err(e) => Err(e),
        Ok(owner) => Ok(requests_of(store, owner)),
    }
}

/// The request with this identifier as `owner` sees it: a request of
/// somebody else is as absent as one that does not exist.
pub open spec fn visible_request(s: StoreView, owner: u128, request_id: u128) -> Option<
    RequestView,
> {
    match s.request_by_id(request_id) {
        Some(request) => if request.user_id == owner {
            Some(request)
        } else {
            None
        },
        None => None,
    }
}

/// One request of `owner`, with its peers.
pub fn request_of(store: &Store, owner: u128, request_id: u128) -> (answer: Result<
    RequestWithPeers,
    ApiError,
>)
    ensures
        store@.request_by_id(request_id) matches Some(request) && request.user_id != owner
            ==> answer == Err::<RequestWithPeers, ApiError>(ApiError::RequestNotFound),
        match visible_request(store@, owner, request_id) {
            Some(request) => answer matches Ok(found) && found@ == request.with_peers(
                peer_names(store@.request_peers, request_id),
            ),
            None => answer == Err::<RequestWithPeers, ApiError>(ApiError::RequestNotFound),
        },
{
    match store.position_of_request(request_id) {
        Some(at) => {
            let request = &store.requests()[at];
            if request.user_id == owner {
                Ok(with_peers(request, peers_of(store, request_id)))
            } else {
                Err(ApiError::RequestNotFound)
            }
        },
        None => Err(ApiError::RequestNotFound),
    }
}

/// One request of the caller, with its peers.
pub fn get_request(store: &Store, authorization: Option<&str>, request_id: u128) -> (answer:
    Result<RequestWithPeers, ApiError>)
    ensures
        match caller_of(store@, authorization) {
            None => answer == Err::<RequestWithPeers, ApiError>(ApiError::NotAuthenticated),
            Some(owner) => match visible_request(store@, owner, request_id) {
                Some(request) => answer matches Ok(found) && found@ == request.with_peers(
                    peer_names(store@.request_peers, request_id),
                ),
                None => answer == Err::<RequestWithPeers, ApiError>(ApiError::RequestNotFound),
            },
        },
{
    match authenticate(store, authorization) {
        Err(e) => Err(e),
        Ok(owner) => request_of(store, owner, request_id),
    }
}

/// The status that a new request gets: the one that was asked for, or fair
/// where none was asked for; nothing where the text names no status.
pub open spec fn requested_status(status: Option<Seq<char>>) -> Option<RequestStatus> {
    match status {
        None => Some(RequestStatus::Fair),
        Some(text) => status_of_text(text),
    }
}

/// Why a new request is refused, if it is: a title that is empty once
/// trimmed, or a status that is none.
pub open spec fn creation_refusal(title: Seq<char>, status: Option<Seq<char>>) -> Option<ApiError> {
    if trimmed(title).len() == 0 {
        Some(ApiError::TitleRequired)
    } else if requested_status(status) is None {
        Some(ApiError::InvalidStatus)
    } else {
        None
    }
}

/// The names of the peers that a new request is attributed to.
pub open spec fn names_to_attach(peers: Option<Vec<String>>) -> Seq<Seq<char>> {
    match peers {
        Some(names) => views(names@),
        None => Seq::empty(),
    }
}

/// The store can take the rows of a new request: the owner exists, the
/// identifier of the request is new, and there is one new identifier for
/// each attribution.
pub open spec fn creation_fits(
    s: StoreView,
    owner: u128,
    request_id: u128,
    names: nat,
    peer_ids: Seq<u128>,
) -> bool {
    &&& s.user_ids().contains(owner)
    &&& !s.request_ids().contains(request_id)
    &&& peer_ids.len() == names
    &&& (s.request_peer_ids() + peer_ids).no_duplicates()
}

/// The request that a body creates: its title trimmed, not stalled, created
/// and updated now.
pub open spec fn new_request(
    owner: u128,
    title: Seq<char>,
    description: Seq<char>,
    status: Option<Seq<char>>,
    document_id: Option<Seq<char>>,
    request_id: u128,
    now: i64,
) -> RequestView {
    RequestView {
        id: request_id,
        user_id: owner,
        title: trimmed(title),
        description,
        status: requested_status(status).unwrap(),
        stalled_days: 0,
        document_id,
        created_at: now,
        updated_at: now,
    }
}

/// The attributions of a request to `names`, in their order.
pub open spec fn attributions(request_id: u128, names: Seq<Seq<char>>, peer_ids: Seq<u128>) -> Seq<
    RequestPeerView,
> {
    Seq::new(
        names.len(),
        |k: int| RequestPeerView { id: peer_ids[k], request_id, peer_name: names[k] },
    )
}

/// The store with a new request and its attributions.
pub open spec fn created(s: StoreView, request: RequestView, rows: Seq<RequestPeerView>) -> StoreView {
    StoreView { requests: s.requests.push(request), request_peers: s.request_peers + rows, ..s }
}

/// Two columns of distinct keys that share no key make one column of
/// distinct keys, and only such two do.
pub proof fn distinct_concat(held: Seq<u128>, added: Seq<u128>)
    requires
        held.no_duplicates(),
    ensures
        (held + added).no_duplicates() <==> added.no_duplicates() && forall|k: int|
            0 <= k < added.len() ==> !held.contains(#[trigger] added[k]),
{
    let all = held + added;
    if added.no_duplicates() && forall|k: int|
        0 <= k < added.len() ==> !held.contains(#[trigger] added[k]) {
        assert forall|i: int, j: int| 0 <= i < all.len() && 0 <= j < all.len() && i != j implies all[i]
            != all[j] by {
            if i < held.len() && j >= held.len() {
                assert(held.contains(held[i]));
                assert(all[j] == added[j - held.len()]);
            } else if j < held.len() && i >= held.len() {
                assert(held.contains(held[j]));
                assert(all[i] == added[i - held.len()]);
            } else if i >= held.len() {
                assert(all[i] == added[i - held.len()]);
                assert(all[j] == added[j - held.len()]);
            }
        }
    }
    if all.no_duplicates() {
        assert forall|i: int, j: int|
            0 <= i < added.len() && 0 <= j < added.len() && i != j implies added[i] != added[j] by {
            assert(all[held.len() + i] == added[i]);
            assert(all[held.len() + j] == added[j]);
        }
        assert forall|k: int| 0 <= k < added.len() implies !held.contains(#[trigger] added[k]) by {
            if held.contains(added[k]) {
                let at = choose|at: int| 0 <= at < held.len() && held[at] == added[k];
                assert(all[at] == held[at]);
                assert(all[held.len() + k] == added[k]);
            }
        }
    }
}

/// Whether none of `ids` is the identifier of an attribution.
fn unused_as_attribution(store: &Store, ids: &Vec<u128>) -> (unused: bool)
    ensures
        unused == forall|k: int|
            0 <= k < ids@.len() ==> !store@.request_peer_ids().contains(#[trigger] ids@[k]),
{
    let mut n: usize = 0;
    while n < ids.len()
        invariant
            n <= ids.len(),
            forall|k: int| 0 <= k < n ==> !store@.request_peer_ids().contains(#[trigger] ids@[k]),
        decreases ids.len() - n,
    {
        if store.position_of_request_peer(ids[n]).is_some() {
            return false;
        }
        n = n + 1;
    }
    true
}

/// Creates a request of `owner` with identifiers that were made beforehand,
/// and attributes it to the peers that the body names, in their order. The
/// title is stored trimmed. A title that is empty once trimmed is refused,
/// then a status that is none; an owner that does not exist and an
/// identifier that the store holds already are failures of the storage.
/// A refused or failed creation changes nothing.
pub fn create_request_with(
    store: &mut Store,
    owner: u128,
    body: &CreateRequestBody,
    request_id: u128,
    peer_ids: &Vec<u128>,
    now: i64,
) -> (answer: Result<RequestWithPeers, ApiError>)
    requires
        old(store)@.wf(),
    ensures
        final(store)@.wf(),
        sessions_persist(old(store)@, final(store)@),
        final(store)@.extends(old(store)@),
        trimmed(body.title@).len() == 0 ==> answer == Err::<RequestWithPeers, ApiError>(
            ApiError::TitleRequired,
        ),
        is_all_white_space(body.title@) <==> answer == Err::<RequestWithPeers, ApiError>(
            ApiError::TitleRequired,
        ),
        answer matches Ok(response) ==> response.title@ == trimmed(body.title@),
        answer matches Ok(response) ==> forall|from: int, to: int|
            #[trigger] is_trimmed_at(body.title@, from, to) ==> response.title@
                == body.title@.subrange(from, to) && final(store)@.requests.last().title
                == body.title@.subrange(from, to),
        match creation_refusal(body.title@, optional_text(body.status)) {
            Some(refusal) => answer == Err::<RequestWithPeers, ApiError>(refusal) && final(store)@
                == old(store)@,
            None => if creation_fits(
                old(store)@,
                owner,
                request_id,
                names_to_attach(body.peers).len(),
                peer_ids@,
            ) {
                let request = new_request(
                    owner,
                    body.title@,
                    body.description@,
                    optional_text(body.status),
                    optional_text(body.document_id),
                    request_id,
                    now,
                );
                &&& answer matches Ok(response)
                &&& response@ == request.with_peers(names_to_attach(body.peers))
                &&& final(store)@ == created(
                    old(store)@,
                    request,
                    attributions(request_id, names_to_attach(body.peers), peer_ids@),
                )
            } else {
                answer == Err::<RequestWithPeers, ApiError>(ApiError::Storage) && final(store)@
                    == old(store)@
            },
        },
{
    proof {
        trimmed_of_white_space(body.title@);
    }
    let title = trim(body.title.as_str());
    if title.as_str().unicode_len() == 0 {
        return Err(ApiError::TitleRequired);
    }
    let ghost stored_title = title@;
    let status = match &body.status {
        None => RequestStatus::Fair,
        Some(text) => match RequestStatus::parse(text.as_str()) {
            Some(status) => status,
            None => {
                return Err(ApiError::InvalidStatus);
            },
        },
    };
    let names: Vec<String> = match &body.peers {
        Some(names) => copy_texts(names),
        None => Vec::new(),
    };
    assert(views(names@) =~= names_to_attach(body.peers));
    proof {
        distinct_concat(store@.request_peer_ids(), peer_ids@);
    }
    if store.position_of_user(owner).is_none() || store.position_of_request(request_id).is_some()
        || peer_ids.len() != names.len() || !all_distinct(peer_ids) || !unused_as_attribution(
        store,
        peer_ids,
    ) {
        return Err(ApiError::Storage);
    }
    let request = Request {
        id: request_id,
        user_id: owner,
        title,
        description: body.description.clone(),
        status,
        stalled_days: 0,
        document_id: copy_optional_text(&body.document_id),
        created_at: now,
        updated_at: now,
    };
    let response = with_peers(&request, copy_texts(&names));
    let ghost before = store@;
    let ghost row = request@;
    let ghost rows = attributions(request_id, views(names@), peer_ids@);
    proof {
        with_request_keeps_wf(store@, request@);
    }
    store.insert_request(request);
    proof {
        assert(store@.request_ids().last() == request_id);
        assert(store@ == created(before, row, rows.take(0))) by {
            assert(before.request_peers + rows.take(0) =~= before.request_peers);
        }
        assert(peer_ids@.skip(0) == peer_ids@);
    }
    let mut n: usize = 0;
    while n < names.len()
        invariant
            n <= names.len() == peer_ids.len(),
            store@.wf(),
            store@.request_ids().contains(request_id),
            store@ == created(before, row, rows.take(n as int)),
            rows == attributions(request_id, views(names@), peer_ids@),
            (store@.request_peer_ids() + peer_ids@.skip(n as int)).no_duplicates(),
        decreases names.len() - n,
    {
        let peer = RequestPeer { id: peer_ids[n], request_id, peer_name: names[n].clone() };
        proof {
            let held = store@.request_peer_ids();
            let rest = peer_ids@.skip(n as int);
            assert(rest[0] == peer_ids@[n as int]);
            assert((held + rest)[held.len() as int] == rest[0]);
            if held.contains(peer.id) {
                let at = choose|at: int| 0 <= at < held.len() && held[at] == peer.id;
                assert((held + rest)[at] == held[at]);
            }
            with_request_peer_keeps_wf(store@, peer@);
            assert(held.push(peer.id) + peer_ids@.skip(n + 1) =~= held + rest);
            assert(peer@ == rows[n as int]);
            assert((before.request_peers + rows.take(n as int)).push(rows[n as int])
                =~= before.request_peers + rows.take(n + 1));
        }
        store.insert_request_peer(peer);
        n = n + 1;
    }
    assert(rows.take(names.len() as int) == rows);
    assert(store@.requests.last().title == stored_title);
    Ok(response)
}

/// `after` is `before` with one new request of `owner`, made from the body
/// under some identifier, and attributed to `names` in their order.
pub open spec fn is_created(
    before: StoreView,
    after: StoreView,
    request: RequestView,
    names: Seq<Seq<char>>,
) -> bool {
    exists|peer_ids: Seq<u128>|
        creation_fits(before, request.user_id, request.id, names.len(), peer_ids) && after
            == created(before, request, #[trigger] attributions(request.id, names, peer_ids))
}

/// Creates a request of the caller and draws its identifiers. What is
/// stored and answered is what [`create_request_with`] stores and answers
/// for the identifiers that were drawn.
pub fn create_request(
    store: &mut Store,
    authorization: Option<&str>,
    body: &CreateRequestBody,
    now: i64,
) -> (answer: Result<RequestWithPeers, ApiError>)
    requires
        old(store)@.wf(),
    ensures
        final(store)@.wf(),
        sessions_persist(old(store)@, final(store)@),
        final(store)@.extends(old(store)@),
        caller_of(old(store)@, authorization) is Some ==> (is_all_white_space(body.title@)
            <==> answer == Err::<RequestWithPeers, ApiError>(ApiError::TitleRequired)),
        answer matches Ok(response) ==> response.title@ == trimmed(body.title@),
        answer matches Ok(response) ==> forall|from: int, to: int|
            #[trigger] is_trimmed_at(body.title@, from, to) ==> response.title@
                == body.title@.subrange(from, to) && final(store)@.requests.last().title
                == body.title@.subrange(from, to),
        match caller_of(old(store)@, authorization) {
            None => answer == Err::<RequestWithPeers, ApiError>(ApiError::NotAuthenticated)
                && final(store)@ == old(store)@,
            Some(owner) => match creation_refusal(body.title@, optional_text(body.status)) {
                Some(refusal) => answer == Err::<RequestWithPeers, ApiError>(refusal) && final(store)@ == old(store)@,
                None => match answer {
                    Ok(response) => {
                        let request = new_request(
                            owner,
                            body.title@,
                            body.description@,
                            optional_text(body.status),
                            optional_text(body.document_id),
                            response.id,
                            now,
                        );
                        &&& response@ == request.with_peers(names_to_attach(body.peers))
                        &&& is_created(
                            old(store)@,
                            final(store)@,
                            request,
                            names_to_attach(body.peers),
                        )
                    },
                    Err(e) => e == ApiError::Storage && final(store)@ == old(store)@,
                },
            },
        },
{
    let owner = match authenticate(store, authorization) {
        Ok(owner) => owner,
        Err(e) => {
            return Err(e);
        },
    };
    let wanted: usize = match &body.peers {
        Some(names) => names.len(),
        None => 0,
    };
    let request_id = new_id();
    let mut peer_ids: Vec<u128> = Vec::new();
    while peer_ids.len() < wanted
        invariant
            peer_ids.len() <= wanted,
        decreases wanted - peer_ids.len(),
    {
        peer_ids.push(new_id());
    }
    create_request_with(store, owner, body, request_id, &peer_ids, now)
}

/// The store after the request at `at` moved to the status that `text`
/// names, or the reason why it does not move.
pub open spec fn status_update(
    s: StoreView,
    owner: u128,
    request_id: u128,
    text: Seq<char>,
    now: i64,
) -> Result<StoreView, ApiError> {
    match status_of_text(text) {
        None => Err(ApiError::InvalidStatus),
        Some(status) => match first_index(s.request_ids(), request_id) {
            Some(at) => if s.requests[at].user_id == owner {
                Ok(s.with_request_status(at, status, now))
            } else {
                Err(ApiError::RequestNotFound)
            },
            None => Err(ApiError::RequestNotFound),
        },
    }
}

/// A text that names no status moves no request: the update is refused as
/// invalid, whoever asks and whatever the request.
pub proof fn unknown_status_is_refused(
    s: StoreView,
    owner: u128,
    request_id: u128,
    text: Seq<char>,
    now: i64,
)
    requires
        status_of_text(text) is None,
    ensures
        status_update(s, owner, request_id, text, now) == Err::<StoreView, ApiError>(
            ApiError::InvalidStatus,
        ),
{
}

/// A request of somebody else is not found: to a user who does not own it, a
/// request that exists is as absent as one that does not.
pub proof fn foreign_request_is_not_found(s: StoreView, owner: u128, request_id: u128, now: i64)
    requires
        s.request_by_id(request_id) matches Some(request) && request.user_id != owner,
    ensures
        visible_request(s, owner, request_id) is None,
        forall|text: Seq<char>|
            status_of_text(text) is Some ==> #[trigger] status_update(
                s,
                owner,
                request_id,
                text,
                now,
            ) == Err::<StoreView, ApiError>(ApiError::RequestNotFound),
{
}

/// A status update changes the status and the time of the update of one
/// request, and nothing else.
pub proof fn status_update_changes_one_request(
    s: StoreView,
    owner: u128,
    request_id: u128,
    text: Seq<char>,
    now: i64,
)
    requires
        status_update(s, owner, request_id, text, now) is Ok,
    ensures
        ({
            let after = status_update(s, owner, request_id, text, now).unwrap();
            let at = first_index(s.request_ids(), request_id).unwrap();
            &&& after.requests.len() == s.requests.len()
            &&& after.requests[at] == (RequestView {
                status: status_of_text(text).unwrap(),
                updated_at: now,
                ..s.requests[at]
            })
            &&& forall|i: int|
                0 <= i < s.requests.len() && i != at ==> after.requests[i] == s.requests[i]
            &&& after == (StoreView { requests: after.requests, ..s })
        }),
{
    crate::lookup::first_index_holds(s.request_ids(), request_id);
}

/// The attributions of other requests are none of this request.
pub proof fn peer_names_of_others(rows: Seq<RequestPeerView>, request_id: u128)
    requires
        forall|i: int| 0 <= i < rows.len() ==> (#[trigger] rows[i]).request_id != request_id,
    ensures
        peer_names(rows, request_id) == Seq::<Seq<char>>::empty(),
    decreases rows.len(),
{
    if rows.len() > 0 {
        let shorter = rows.drop_last();
        assert forall|i: int| 0 <= i < shorter.len() implies (#[trigger] shorter[i]).request_id
            != request_id by {
            assert(shorter[i] == rows[i]);
        }
        peer_names_of_others(shorter, request_id);
    }
}

/// The names of the peers of a request are those of the rows that are
/// there, followed by those of the rows that are added.
pub proof fn peer_names_concat(held: Seq<RequestPeerView>, added: Seq<RequestPeerView>, request_id: u128)
    ensures
        peer_names(held + added, request_id) == peer_names(held, request_id) + peer_names(
            added,
            request_id,
        ),
    decreases added.len(),
{
    if added.len() == 0 {
        assert(held + added =~= held);
        assert(peer_names(held, request_id) + peer_names(added, request_id) =~= peer_names(
            held,
            request_id,
        ));
    } else {
        let shorter = added.drop_last();
        assert((held + added).drop_last() =~= held + shorter);
        assert((held + added).last() == added.last());
        peer_names_concat(held, shorter, request_id);
        assert(peer_names(held + added, request_id) =~= peer_names(held, request_id) + peer_names(
            added,
            request_id,
        ));
    }
}

/// The names of the peers of freshly made attributions are the names that
/// they were made from.
pub proof fn peer_names_of_attributions(request_id: u128, names: Seq<Seq<char>>, peer_ids: Seq<u128>)
    ensures
        peer_names(attributions(request_id, names, peer_ids), request_id) == names,
    decreases names.len(),
{
    let rows = attributions(request_id, names, peer_ids);
    if names.len() == 0 {
        assert(names =~= Seq::empty());
    } else {
        assert(rows.drop_last() =~= attributions(request_id, names.drop_last(), peer_ids));
        peer_names_of_attributions(request_id, names.drop_last(), peer_ids);
        assert(names.drop_last().push(names.last()) =~= names);
    }
}

/// A request that was created is found by its owner, with the names of its
/// peers in the order in which the body gave them, and by nobody else.
pub proof fn created_request_is_visible(
    s: StoreView,
    request: RequestView,
    names: Seq<Seq<char>>,
    peer_ids: Seq<u128>,
    other: u128,
)
    requires
        s.wf(),
        creation_fits(s, request.user_id, request.id, names.len(), peer_ids),
        other != request.user_id,
    ensures
        ({
            let after = created(s, request, attributions(request.id, names, peer_ids));
            &&& visible_request(after, request.user_id, request.id) == Some(request)
            &&& peer_names(after.request_peers, request.id) == names
            &&& visible_request(after, other, request.id) is None
        }),
{
    let rows = attributions(request.id, names, peer_ids);
    let after = created(s, request, rows);
    assert(after.request_ids() =~= s.request_ids().push(request.id));
    crate::lookup::first_index_push(s.request_ids(), request.id, request.id);
    assert forall|i: int| 0 <= i < s.request_peers.len() implies (#[trigger] s.request_peers[i]).request_id
        != request.id by {
        assert(s.attributed_requests()[i] == s.request_peers[i].request_id);
        assert(s.request_ids().contains(s.attributed_requests()[i]));
    }
    peer_names_of_others(s.request_peers, request.id);
    peer_names_concat(s.request_peers, rows, request.id);
    peer_names_of_attributions(request.id, names, peer_ids);
    assert(Seq::<Seq<char>>::empty() + names =~= names);
}

/// Moves a request of `owner` to the status that `status` names and stamps
/// it with `now`. A text that names no status is refused, then a request
/// that `owner` does not own; a refused update changes nothing. Nothing else
/// is stored: the trust score stays as it is until it is recalculated.
pub fn update_status(store: &mut Store, owner: u128, request_id: u128, status: &str, now: i64) -> (answer:
    Result<bool, ApiError>)
    requires
        old(store)@.wf(),
    ensures
        final(store)@.wf(),
        sessions_persist(old(store)@, final(store)@),
        final(store)@.extends(old(store)@),
        status_of_text(status@) is None ==> answer == Err::<bool, ApiError>(
            ApiError::InvalidStatus,
        ) && final(store)@ == old(store)@,
        match status_update(old(store)@, owner, request_id, status@, now) {
            Ok(after) => answer == Ok::<bool, ApiError>(true) && final(store)@ == after,
            Err(e) => answer == Err::<bool, ApiError>(e) && final(store)@ == old(store)@,
        },
        final(store)@.users == old(store)@.users,
        final(store)@.sessions == old(store)@.sessions,
        final(store)@.trust_scores == old(store)@.trust_scores,
{
    let status = match RequestStatus::parse(status) {
        Some(status) => status,
        None => {
            return Err(ApiError::InvalidStatus);
        },
    };
    match store.position_of_request(request_id) {
        Some(at) => {
            if store.requests()[at].user_id == owner {
                store.set_request_status(at, status, now);
                Ok(true)
            } else {
                Err(ApiError::RequestNotFound)
            }
        },
        None => Err(ApiError::RequestNotFound),
    }
}

/// Moves a request of the caller to another status.
pub fn update_request_status(
    store: &mut Store,
    authorization: Option<&str>,
    request_id: u128,
    body: &UpdateRequestStatus,
    now: i64,
) -> (answer: Result<bool, ApiError>)
    requires
        old(store)@.wf(),
    ensures
        final(store)@.wf(),
        sessions_persist(old(store)@, final(store)@),
        final(store)@.extends(old(store)@),
        match caller_of(old(store)@, authorization) {
            None => answer == Err::<bool, ApiError>(ApiError::NotAuthenticated) && final(store)@
                == old(store)@,
            Some(owner) => match status_update(old(store)@, owner, request_id, body.status@, now) {
                Ok(after) => answer == Ok::<bool, ApiError>(true) && final(store)@ == after,
                Err(e) => answer == Err::<bool, ApiError>(e) && final(store)@ == old(store)@,
            },
        },
        final(store)@.users == old(store)@.users,
        final(store)@.sessions == old(store)@.sessions,
        final(store)@.trust_scores == old(store)@.trust_scores,
{
    match authenticate(store, authorization) {
        Err(e) => Err(e),
        Ok(owner) => update_status(store, owner, request_id, body.status.as_str(), now),
    }
}

} // verus!
