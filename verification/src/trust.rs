//! The trust score: a bounded integer computed from five counts, and its
//! three-tier classification.

use vstd::prelude::*;
use vstd::string::*;
use crate::auth::{authenticate, caller_of, sessions_persist};
use crate::db::{views_push, with_score_keeps_wf, Store, StoreView};
use crate::errors::ApiError;
use crate::lookup::first_index;
use crate::models::{
    NetworkPeer, NetworkPeerView, RequestStatus, RequestView, TrustFactors, TrustScore,
    TrustScoreComputation, TrustScoreComputationView, TrustScoreView,
};
use crate::ranking::{arranged, is_ranked, is_ranking, rank};
use crate::text::views;

verus! {

/// The score of a user about whom nothing is known yet.
pub const BASE_SCORE: i32 = 300;

/// The highest score.
pub const MAX_SCORE: i32 = 1000;

/// Scores from here on are classified as healthy.
pub const HEALTHY_THRESHOLD: i32 = 400;

/// Scores from here on, below the healthy threshold, are classified as fair.
pub const FAIR_THRESHOLD: i32 = 200;

/// One and a half times `interactions`, rounded toward zero.
pub open spec fn interaction_bonus(interactions: int) -> int {
    if interactions >= 0 {
        (3 * interactions) / 2
    } else {
        -((3 * -interactions) / 2)
    }
}

/// The score before it is brought into range.
pub open spec fn raw_score(
    completed: int,
    stalled: int,
    critical: int,
    interactions: int,
    peer_count: int,
) -> int {
    300 + 20 * completed + interaction_bonus(interactions) + 10 * peer_count - 15 * stalled - 30
        * critical
}

/// `raw` brought into the range from 0 to 1000.
pub open spec fn clamp_score(raw: int) -> int {
    if raw < 0 {
        0
    } else if raw > 1000 {
        1000
    } else {
        raw
    }
}

/// The trust score of the five counts.
pub open spec fn trust_score(
    completed: int,
    stalled: int,
    critical: int,
    interactions: int,
    peer_count: int,
) -> int {
    clamp_score(raw_score(completed, stalled, critical, interactions, peer_count))
}

/// The classification of a score: the first threshold that it reaches.
pub open spec fn status_label(score: int) -> Seq<char> {
    if score >= 400 {
        "Healthy"@
    } else if score >= 200 {
        "Fair"@
    } else {
        "Critical"@
    }
}

/// The three classifications are three different texts.
pub proof fn status_labels_differ()
    ensures
        "Healthy"@ != "Fair"@,
        "Healthy"@ != "Critical"@,
        "Fair"@ != "Critical"@,
{
    reveal_strlit("Healthy");
    reveal_strlit("Fair");
    reveal_strlit("Critical");
    assert("Healthy"@.len() == 7);
    assert("Fair"@.len() == 4);
    assert("Critical"@.len() == 8);
}

/// The rounded bonus never falls when the interactions rise.
pub proof fn interaction_bonus_is_monotonic(fewer: int, more: int)
    requires
        fewer <= more,
    ensures
        interaction_bonus(fewer) <= interaction_bonus(more),
{
}

/// Scoring is monotonic: with the other counts held or moved the same way,
/// more completed requests, interactions or peers never lower the score, and
/// more stalled or critical requests never raise it.
pub proof fn trust_score_is_monotonic(
    completed: int,
    stalled: int,
    critical: int,
    interactions: int,
    peer_count: int,
    more_completed: int,
    fewer_stalled: int,
    fewer_critical: int,
    more_interactions: int,
    more_peers: int,
)
    requires
        completed <= more_completed,
        interactions <= more_interactions,
        peer_count <= more_peers,
        fewer_stalled <= stalled,
        fewer_critical <= critical,
    ensures
        trust_score(completed, stalled, critical, interactions, peer_count) <= trust_score(
            more_completed,
            fewer_stalled,
            fewer_critical,
            more_interactions,
            more_peers,
        ),
{
    interaction_bonus_is_monotonic(interactions, more_interactions);
}

/// Every score lies between 0 and 1000, and its classification is the one
/// tier whose bounds hold it.
pub proof fn trust_score_is_bounded_and_classified(
    completed: int,
    stalled: int,
    critical: int,
    interactions: int,
    peer_count: int,
)
    ensures
        0 <= trust_score(completed, stalled, critical, interactions, peer_count) <= 1000,
        status_label(trust_score(completed, stalled, critical, interactions, peer_count))
            == "Healthy"@ <==> trust_score(completed, stalled, critical, interactions, peer_count)
            >= 400,
        status_label(trust_score(completed, stalled, critical, interactions, peer_count))
            == "Fair"@ <==> 200 <= trust_score(
            completed,
            stalled,
            critical,
            interactions,
            peer_count,
        ) < 400,
        status_label(trust_score(completed, stalled, critical, interactions, peer_count))
            == "Critical"@ <==> trust_score(completed, stalled, critical, interactions, peer_count)
            < 200,
{
    status_labels_differ();
}

/// The classification of `score` as a text.
pub fn classify(score: i32) -> (status: String)
    ensures
        status@ == status_label(score as int),
{
    if score >= HEALTHY_THRESHOLD {
        "Healthy".to_owned()
    } else if score >= FAIR_THRESHOLD {
        "Fair".to_owned()
    } else {
        "Critical".to_owned()
    }
}

/// Computes the trust score of the five counts and classifies it.
pub fn compute_trust_score(
    completed: i32,
    stalled: i32,
    critical: i32,
    interactions: i32,
    peer_count: i32,
) -> (result: TrustScoreComputation)
    ensures
        result.score == trust_score(
            completed as int,
            stalled as int,
            critical as int,
            interactions as int,
            peer_count as int,
        ),
        0 <= result.score <= 1000,
        result.status@ == status_label(result.score as int),
        result.status@ == "Healthy"@ <==> result.score >= 400,
        result.status@ == "Fair"@ <==> 200 <= result.score < 400,
        result.status@ == "Critical"@ <==> result.score < 200,
        result.factors == (TrustFactors {
            completed_requests: completed,
            stalled_requests: stalled,
            critical_requests: critical,
            total_interactions: interactions,
            peer_count,
        }),
{
    let wide_interactions: i64 = interactions as i64;
    let interaction_bonus: i64 = if wide_interactions >= 0 {
        (3 * wide_interactions) / 2
    } else {
        -((3 * (-wide_interactions)) / 2)
    };
    let completed_bonus: i64 = (completed as i64) * 20;
    let stalled_penalty: i64 = (stalled as i64) * 15;
    let critical_penalty: i64 = (critical as i64) * 30;
    let peer_bonus: i64 = (peer_count as i64) * 10;
    let raw: i64 = (BASE_SCORE as i64) + completed_bonus + interaction_bonus + peer_bonus
        - stalled_penalty - critical_penalty;
    let score: i32 = if raw < 0 {
        0
    } else if raw > MAX_SCORE as i64 {
        MAX_SCORE
    } else {
        raw as i32
    };
    let status = classify(score);
    proof {
        status_labels_differ();
    }
    TrustScoreComputation {
        score,
        status,
        factors: TrustFactors {
            completed_requests: completed,
            stalled_requests: stalled,
            critical_requests: critical,
            total_interactions: interactions,
            peer_count,
        },
    }
}

/// The number of requests of `owner` that are in `status`.
pub open spec fn count_requests(rows: Seq<RequestView>, owner: u128, status: RequestStatus) -> nat
    decreases rows.len(),
{
    if rows.len() == 0 {
        0
    } else if rows.last().user_id == owner && rows.last().status == status {
        count_requests(rows.drop_last(), owner, status) + 1
    } else {
        count_requests(rows.drop_last(), owner, status)
    }
}

/// The network peers of `owner`, in their order.
pub open spec fn owned_peers(rows: Seq<NetworkPeerView>, owner: u128) -> Seq<NetworkPeerView>
    decreases rows.len(),
{
    if rows.len() == 0 {
        Seq::empty()
    } else if rows.last().user_id == owner {
        owned_peers(rows.drop_last(), owner).push(rows.last())
    } else {
        owned_peers(rows.drop_last(), owner)
    }
}

/// The interactions of the network peers of `owner`, summed.
pub open spec fn total_interactions(rows: Seq<NetworkPeerView>, owner: u128) -> int
    decreases rows.len(),
{
    if rows.len() == 0 {
        0
    } else if rows.last().user_id == owner {
        total_interactions(rows.drop_last(), owner) + rows.last().interactions
    } else {
        total_interactions(rows.drop_last(), owner)
    }
}

/// `n`, or the nearest number that a count can hold.
pub open spec fn saturated(n: int) -> i32 {
    if n > i32::MAX {
        i32::MAX
    } else if n < i32::MIN {
        i32::MIN
    } else {
        n as i32
    }
}

/// The five counts of `owner`, as the tables hold them now.
pub open spec fn factors_of(s: StoreView, owner: u128) -> TrustFactors {
    TrustFactors {
        completed_requests: saturated(
            count_requests(s.requests, owner, RequestStatus::Completed) as int,
        ),
        stalled_requests: saturated(count_requests(s.requests, owner, RequestStatus::Stalled) as int),
        critical_requests: saturated(
            count_requests(s.requests, owner, RequestStatus::Critical) as int,
        ),
        total_interactions: saturated(total_interactions(s.network_peers, owner)),
        peer_count: saturated(owned_peers(s.network_peers, owner).len() as int),
    }
}

/// The score of five counts.
pub open spec fn score_of_factors(factors: TrustFactors) -> int {
    trust_score(
        factors.completed_requests as int,
        factors.stalled_requests as int,
        factors.critical_requests as int,
        factors.total_interactions as int,
        factors.peer_count as int,
    )
}

/// The computation that five counts give.
pub open spec fn computation_of(factors: TrustFactors) -> TrustScoreComputationView {
    TrustScoreComputationView {
        score: score_of_factors(factors) as i32,
        status: status_label(score_of_factors(factors)),
        factors,
    }
}

/// The store after the trust score of `owner` was recalculated at the time
/// `now`: the one row of `owner` holds the new score, and a user without a
/// row gets none.
pub open spec fn recalculated(s: StoreView, owner: u128, now: i64) -> StoreView {
    match first_index(s.score_owners(), owner) {
        Some(at) => s.with_score(
            at,
            score_of_factors(factors_of(s, owner)) as i32,
            status_label(score_of_factors(factors_of(s, owner))),
            now,
        ),
        None => s,
    }
}

fn saturate(n: usize) -> (count: i32)
    ensures
        count == saturated(n as int),
{
    if n > 0x7fff_ffff {
        0x7fff_ffff
    } else {
        n as i32
    }
}

/// Gathers the five counts of `owner` from the requests and the network
/// peers. A count that is too large to hold is the largest that can be held.
pub fn trust_factors(store: &Store, owner: u128) -> (factors: TrustFactors)
    ensures
        factors == factors_of(store@, owner),
{
    let requests = store.requests();
    let mut completed: usize = 0;
    let mut stalled: usize = 0;
    let mut critical: usize = 0;
    let mut i: usize = 0;
    while i < requests.len()
        invariant
            i <= requests.len(),
            views(requests@) == store@.requests,
            completed == count_requests(
                store@.requests.take(i as int),
                owner,
                RequestStatus::Completed,
            ) <= i,
            stalled == count_requests(store@.requests.take(i as int), owner, RequestStatus::Stalled)
                <= i,
            critical == count_requests(
                store@.requests.take(i as int),
                owner,
                RequestStatus::Critical,
            ) <= i,
        decreases requests.len() - i,
    {
        proof {
            assert(store@.requests.take(i + 1).drop_last() == store@.requests.take(i as int));
            assert(store@.requests.take(i + 1).last() == requests@[i as int]@);
        }
        if requests[i].user_id == owner {
            match requests[i].status {
                RequestStatus::Completed => {
                    completed = completed + 1;
                },
                RequestStatus::Stalled => {
                    stalled = stalled + 1;
                },
                RequestStatus::Critical => {
                    critical = critical + 1;
                },
                RequestStatus::Fair => {},
            }
        }
        i = i + 1;
    }
    assert(store@.requests.take(requests.len() as int) == store@.requests);
    let peers = store.network_peers();
    let mut peer_count: usize = 0;
    let mut interactions: i128 = 0;
    let mut j: usize = 0;
    while j < peers.len()
        invariant
            j <= peers.len(),
            views(peers@) == store@.network_peers,
            peer_count == owned_peers(store@.network_peers.take(j as int), owner).len() <= j,
            interactions == total_interactions(store@.network_peers.take(j as int), owner),
            -0x8000_0000 * j <= interactions <= 0x8000_0000 * j,
        decreases peers.len() - j,
    {
        proof {
            assert(store@.network_peers.take(j + 1).drop_last() == store@.network_peers.take(
                j as int,
            ));
            assert(store@.network_peers.take(j + 1).last() == peers@[j as int]@);
        }
        if peers[j].user_id == owner {
            peer_count = peer_count + 1;
            interactions = interactions + peers[j].interactions as i128;
        }
        j = j + 1;
    }
    assert(store@.network_peers.take(peers.len() as int) == store@.network_peers);
    let total: i32 = if interactions > 0x7fff_ffff {
        0x7fff_ffff
    } else if interactions < -0x8000_0000 {
        -0x8000_0000
    } else {
        interactions as i32
    };
    TrustFactors {
        completed_requests: saturate(completed),
        stalled_requests: saturate(stalled),
        critical_requests: saturate(critical),
        total_interactions: total,
        peer_count: saturate(peer_count),
    }
}

/// Recalculates the trust score of `owner` from the tables as they are now,
/// overwrites the stored score and answers the computation with its counts.
/// Nothing else writes a stored score once it exists.
pub fn recalculate(store: &mut Store, owner: u128, now: i64) -> (computation: TrustScoreComputation)
    requires
        old(store)@.wf(),
    ensures
        final(store)@.wf(),
        sessions_persist(old(store)@, final(store)@),
        final(store)@.extends(old(store)@),
        computation@ == computation_of(factors_of(old(store)@, owner)),
        final(store)@ == recalculated(old(store)@, owner, now),
        match old(store)@.score_of(owner) {
            Some(stored) => final(store)@.score_of(owner) == Some(
                TrustScoreView {
                    score: computation.score,
                    status: computation.status@,
                    updated_at: now,
                    ..stored
                },
            ),
            None => final(store)@.score_of(owner) is None,
        },
        final(store)@.users == old(store)@.users,
        final(store)@.sessions == old(store)@.sessions,
        final(store)@.requests == old(store)@.requests,
{
    let factors = trust_factors(store, owner);
    let computation = compute_trust_score(
        factors.completed_requests,
        factors.stalled_requests,
        factors.critical_requests,
        factors.total_interactions,
        factors.peer_count,
    );
    match store.position_of_score_owner(owner) {
        Some(at) => {
            proof {
                with_score_keeps_wf(store@, at as int, computation.score, computation.status@, now);
            }
            store.overwrite_score(at, computation.score, computation.status.clone(), now);
        },
        None => {},
    }
    computation
}

/// Recalculates the trust score of the caller.
pub fn recalculate_trust_score(store: &mut Store, authorization: Option<&str>, now: i64) -> (answer:
    Result<TrustScoreComputation, ApiError>)
    requires
        old(store)@.wf(),
    ensures
        final(store)@.wf(),
        sessions_persist(old(store)@, final(store)@),
        final(store)@.extends(old(store)@),
        match caller_of(old(store)@, authorization) {
            None => answer == Err::<TrustScoreComputation, ApiError>(ApiError::NotAuthenticated)
                && final(store)@ == old(store)@,
            Some(owner) => {
                &&& answer matches Ok(computation)
                &&& computation@ == computation_of(factors_of(old(store)@, owner))
                &&& final(store)@ == recalculated(old(store)@, owner, now)
            },
        },
        final(store)@.users == old(store)@.users,
        final(store)@.sessions == old(store)@.sessions,
        final(store)@.requests == old(store)@.requests,
{
    match authenticate(store, authorization) {
        Err(e) => Err(e),
        Ok(owner) => Ok(recalculate(store, owner, now)),
    }
}

/// The stored trust score of `owner`, as it was computed last.
pub fn current_score(store: &Store, owner: u128) -> (answer: Result<TrustScore, ApiError>)
    ensures
        match store@.score_of(owner) {
            Some(score) => answer matches Ok(found) && found@ == score,
            None => answer == Err::<TrustScore, ApiError>(ApiError::TrustScoreNotFound),
        },
{
    match store.position_of_score_owner(owner) {
        Some(at) => Ok(store.trust_scores()[at].clone()),
        None => Err(ApiError::TrustScoreNotFound),
    }
}

/// The stored trust score of the caller.
pub fn get_trust_score(store: &Store, authorization: Option<&str>) -> (answer: Result<
    TrustScore,
    ApiError,
>)
    ensures
        match caller_of(store@, authorization) {
            None => answer == Err::<TrustScore, ApiError>(ApiError::NotAuthenticated),
            Some(owner) => match store@.score_of(owner) {
                Some(score) => answer matches Ok(found) && found@ == score,
                None => answer == Err::<TrustScore, ApiError>(ApiError::TrustScoreNotFound),
            },
        },
{
    match authenticate(store, authorization) {
        Err(e) => Err(e),
        Ok(owner) => current_score(store, owner),
    }
}

/// The interactions of `rows`, the keys by which peers are listed.
pub open spec fn interaction_keys(rows: Seq<NetworkPeerView>) -> Seq<i64> {
    Seq::new(rows.len(), |i: int| rows[i].interactions as i64)
}

/// Every network peer of the owner is one of the table's.
pub proof fn owned_peers_are_owned(rows: Seq<NetworkPeerView>, owner: u128)
    ensures
        owned_peers(rows, owner).len() <= rows.len(),
        forall|i: int|
            0 <= i < owned_peers(rows, owner).len() ==> (#[trigger] owned_peers(
                rows,
                owner,
            )[i]).user_id == owner && rows.contains(owned_peers(rows, owner)[i]),
    decreases rows.len(),
{
    if rows.len() > 0 {
        let shorter = rows.drop_last();
        owned_peers_are_owned(shorter, owner);
        let kept = owned_peers(shorter, owner);
        let all = owned_peers(rows, owner);
        assert forall|i: int| 0 <= i < all.len() implies (#[trigger] all[i]).user_id == owner
            && rows.contains(all[i]) by {
            if i < kept.len() {
                assert(all[i] == kept[i]);
                assert(shorter.contains(kept[i]));
                let at = choose|at: int| 0 <= at < shorter.len() && shorter[at] == kept[i];
                assert(rows[at] == kept[i]);
            } else {
                assert(all[i] == rows.last());
                assert(rows[rows.len() - 1] == rows.last());
            }
        }
    }
}

/// What the order of a network means: it holds every peer of the owner, is
/// as long as they are many and holds no peer of anybody else, and a peer
/// with more interactions never follows one with fewer.
pub proof fn network_is_by_interactions(s: StoreView, owner: u128, listed: Seq<NetworkPeerView>)
    requires
        s.network_peers.len() <= usize::MAX,
        is_ranked(
            listed,
            owned_peers(s.network_peers, owner),
            interaction_keys(owned_peers(s.network_peers, owner)),
        ),
    ensures
        listed.len() == owned_peers(s.network_peers, owner).len(),
        forall|i: int| 0 <= i < listed.len() ==> (#[trigger] listed[i]).user_id == owner,
        forall|i: int, j: int|
            0 <= i < j < listed.len() ==> (#[trigger] listed[i]).interactions >= (
            #[trigger] listed[j]).interactions,
        forall|p: int|
            0 <= p < owned_peers(s.network_peers, owner).len() ==> listed.contains(
                #[trigger] owned_peers(s.network_peers, owner)[p],
            ),
{
    let owned = owned_peers(s.network_peers, owner);
    let keys = interaction_keys(owned);
    let key_of = |r: NetworkPeerView| r.interactions as i64;
    owned_peers_are_owned(s.network_peers, owner);
    assert forall|p: int| 0 <= p < owned.len() implies key_of(owned[p]) == keys[p] by {}
    crate::ranking::ranked_is_sorted(listed, owned, keys, key_of);
    assert forall|i: int| 0 <= i < listed.len() implies (#[trigger] listed[i]).user_id == owner by {
        assert(owned.contains(listed[i]));
    }
    assert forall|i: int, j: int| 0 <= i < j < listed.len() implies (#[trigger] listed[i]).interactions
        >= (#[trigger] listed[j]).interactions by {
        assert(key_of(listed[i]) >= key_of(listed[j]));
    }
}

/// The network peers of `owner`, those with the most interactions first.
pub fn network_of(store: &Store, owner: u128) -> (listed: Vec<NetworkPeer>)
    ensures
        is_ranked(
            views(listed@),
            owned_peers(store@.network_peers, owner),
            interaction_keys(owned_peers(store@.network_peers, owner)),
        ),
{
    let rows = store.network_peers();
    let mut owned: Vec<NetworkPeer> = Vec::new();
    let mut keys: Vec<i64> = Vec::new();
    let mut i: usize = 0;
    while i < rows.len()
        invariant
            i <= rows.len(),
            views(rows@) == store@.network_peers,
            views(owned@) == owned_peers(store@.network_peers.take(i as int), owner),
            keys@ == interaction_keys(owned_peers(store@.network_peers.take(i as int), owner)),
        decreases rows.len() - i,
    {
        let ghost before = owned_peers(store@.network_peers.take(i as int), owner);
        proof {
            assert(store@.network_peers.take(i + 1).drop_last() == store@.network_peers.take(
                i as int,
            ));
            assert(store@.network_peers.take(i + 1).last() == rows@[i as int]@);
        }
        if rows[i].user_id == owner {
            let row = rows[i].clone();
            proof {
                views_push(owned@, row);
            }
            owned.push(row);
            keys.push(rows[i].interactions as i64);
            assert(keys@ =~= interaction_keys(before.push(rows@[i as int]@)));
        }
        i = i + 1;
    }
    assert(store@.network_peers.take(rows.len() as int) == store@.network_peers);
    let order = rank(&keys);
    let mut listed: Vec<NetworkPeer> = Vec::new();
    let mut n: usize = 0;
    while n < order.len()
        invariant
            n <= order.len() == owned.len(),
            is_ranking(order@, keys@),
            keys.len() == owned.len(),
            views(listed@) == arranged(views(owned@), order@).take(n as int),
        decreases order.len() - n,
    {
        let row = owned[order[n]].clone();
        proof {
            views_push(listed@, row);
        }
        listed.push(row);
        assert(views(listed@) =~= arranged(views(owned@), order@).take(n + 1));
        n = n + 1;
    }
    assert(views(listed@) == arranged(views(owned@), order@));
    listed
}

/// The network peers of the caller, those with the most interactions first.
pub fn list_network_peers(store: &Store, authorization: Option<&str>) -> (answer: Result<
    Vec<NetworkPeer>,
    ApiError,
>)
    ensures
        match caller_of(store@, authorization) {
            None => answer == Err::<Vec<NetworkPeer>, ApiError>(ApiError::NotAuthenticated),
            Some(owner) => answer matches Ok(listed) && is_ranked(
                views(listed@),
                owned_peers(store@.network_peers, owner),
                interaction_keys(owned_peers(store@.network_peers, owner)),
            ),
        },
{
    match authenticate(store, authorization) {
        Err(e) => Err(e),
        Ok(owner) => Ok(network_of(store, owner)),
    }
}

} // verus!
