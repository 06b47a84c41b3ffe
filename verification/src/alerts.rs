//! Alerts: the notifications of a user, listed by recency and marked as read.

use vstd::prelude::*;
use vstd::string::*;
use crate::auth::{authenticate, caller_of, sessions_persist};
use crate::db::{views_push, Store, StoreView};
use crate::errors::ApiError;
use crate::lookup::first_index;
use crate::models::{Alert, AlertFilter, AlertView};
use crate::ranking::{arranged, is_ranked, is_ranking, rank};
use crate::text::{optional_text, views};

verus! {

/// The category that a filter asks for: the one it names, or every category
/// where it names none or names `all`.
pub open spec fn wanted_category(filter: Option<Seq<char>>) -> Option<Seq<char>> {
    match filter {
        Some(category) => if category == "all"@ {
            None
        } else {
            Some(category)
        },
        None => None,
    }
}

/// An alert is one of `owner` and of the category that is asked for.
pub open spec fn is_wanted(alert: AlertView, owner: u128, category: Option<Seq<char>>) -> bool {
    alert.user_id == owner && match category {
        Some(wanted) => alert.alert_type == wanted,
        None => true,
    }
}

/// The alerts of `owner` in the category that is asked for, in their order.
pub open spec fn owned_alerts(rows: Seq<AlertView>, owner: u128, category: Option<Seq<char>>) -> Seq<
    AlertView,
>
    decreases rows.len(),
{
    if rows.len() == 0 {
        Seq::empty()
    } else if is_wanted(rows.last(), owner, category) {
        owned_alerts(rows.drop_last(), owner, category).push(rows.last())
    } else {
        owned_alerts(rows.drop_last(), owner, category)
    }
}

/// The times at which `rows` were created, the keys by which alerts are
/// listed.
pub open spec fn recency_keys(rows: Seq<AlertView>) -> Seq<i64> {
    Seq::new(rows.len(), |i: int| rows[i].created_at)
}

/// Every alert that is asked for is one of the table's, of the owner and of
/// the category.
pub proof fn owned_alerts_are_wanted(rows: Seq<AlertView>, owner: u128, category: Option<Seq<char>>)
    ensures
        owned_alerts(rows, owner, category).len() <= rows.len(),
        forall|i: int|
            0 <= i < owned_alerts(rows, owner, category).len() ==> is_wanted(
                #[trigger] owned_alerts(rows, owner, category)[i],
                owner,
                category,
            ) && rows.contains(owned_alerts(rows, owner, category)[i]),
    decreases rows.len(),
{
    if rows.len() > 0 {
        let shorter = rows.drop_last();
        owned_alerts_are_wanted(shorter, owner, category);
        let kept = owned_alerts(shorter, owner, category);
        let all = owned_alerts(rows, owner, category);
        assert forall|i: int| 0 <= i < all.len() implies is_wanted(#[trigger] all[i], owner, category)
            && rows.contains(all[i]) by {
            if i < kept.len() {
                assert(all[i] == kept[i]);
                assert(shorter.contains(kept[i]));
                let at = choose|at: int| 0 <= at < shorter.len() && shorter[at] == kept[i];
                assert(rows[at] == kept[i]);
            } else {
                assert(all[i] == rows.last());
                assert(rows[rows.len() - 1] == rows.last());
            }
        }
    }
}

/// What the order of a list of alerts means: it holds every alert that is
/// asked for, is as long as they are many and holds no other, and a newer
/// alert never follows an older one.
pub proof fn alerts_are_by_recency(
    s: StoreView,
    owner: u128,
    category: Option<Seq<char>>,
    listed: Seq<AlertView>,
)
    requires
        s.alerts.len() <= usize::MAX,
        is_ranked(
            listed,
            owned_alerts(s.alerts, owner, category),
            recency_keys(owned_alerts(s.alerts, owner, category)),
        ),
    ensures
        listed.len() == owned_alerts(s.alerts, owner, category).len(),
        forall|i: int| 0 <= i < listed.len() ==> is_wanted(#[trigger] listed[i], owner, category),
        forall|i: int, j: int|
            0 <= i < j < listed.len() ==> (#[trigger] listed[i]).created_at >= (
            #[trigger] listed[j]).created_at,
        forall|p: int|
            0 <= p < owned_alerts(s.alerts, owner, category).len() ==> listed.contains(
                #[trigger] owned_alerts(s.alerts, owner, category)[p],
            ),
{
    let owned = owned_alerts(s.alerts, owner, category);
    let keys = recency_keys(owned);
    let key_of = |r: AlertView| r.created_at;
    owned_alerts_are_wanted(s.alerts, owner, category);
    assert forall|p: int| 0 <= p < owned.len() implies key_of(owned[p]) == keys[p] by {}
    crate::ranking::ranked_is_sorted(listed, owned, keys, key_of);
    assert forall|i: int| 0 <= i < listed.len() implies is_wanted(#[trigger] listed[i], owner, category) by {
        assert(owned.contains(listed[i]));
    }
    assert forall|i: int, j: int| 0 <= i < j < listed.len() implies (#[trigger] listed[i]).created_at
        >= (#[trigger] listed[j]).created_at by {
        assert(key_of(listed[i]) >= key_of(listed[j]));
    }
}

/// The alerts of `owner` that the filter asks for, the newest first.
pub fn alerts_of(store: &Store, owner: u128, query: &AlertFilter) -> (listed: Vec<Alert>)
    ensures
        is_ranked(
            views(listed@),
            owned_alerts(store@.alerts, owner, wanted_category(optional_text(query.filter))),
            recency_keys(
                owned_alerts(store@.alerts, owner, wanted_category(optional_text(query.filter))),
            ),
        ),
{
    let category: Option<&str> = match &query.filter {
        Some(text) => if *text.as_str() == *"all" {
            None
        } else {
            Some(text.as_str())
        },
        None => None,
    };
    let ghost wanted = wanted_category(optional_text(query.filter));
    assert(wanted == match category {
        Some(text) => Some(text@),
        None => None,
    });
    let rows = store.alerts();
    let mut owned: Vec<Alert> = Vec::new();
    let mut keys: Vec<i64> = Vec::new();
    let mut i: usize = 0;
    while i < rows.len()
        invariant
            i <= rows.len(),
            views(rows@) == store@.alerts,
            wanted == match category {
                Some(text) => Some(text@),
                None => None,
            },
            views(owned@) == owned_alerts(store@.alerts.take(i as int), owner, wanted),
            keys@ == recency_keys(owned_alerts(store@.alerts.take(i as int), owner, wanted)),
        decreases rows.len() - i,
    {
        let ghost before = owned_alerts(store@.alerts.take(i as int), owner, wanted);
        proof {
            assert(store@.alerts.take(i + 1).drop_last() == store@.alerts.take(i as int));
            assert(store@.alerts.take(i + 1).last() == rows@[i as int]@);
        }
        let in_category = match category {
            Some(text) => *rows[i].alert_type.as_str() == *text,
            None => true,
        };
        if rows[i].user_id == owner && in_category {
            let row = rows[i].clone();
            proof {
                views_push(owned@, row);
            }
            owned.push(row);
            keys.push(rows[i].created_at);
            assert(keys@ =~= recency_keys(before.push(rows@[i as int]@)));
        }
        i = i + 1;
    }
    assert(store@.alerts.take(rows.len() as int) == store@.alerts);
    let order = rank(&keys);
    let mut listed: Vec<Alert> = Vec::new();
    let mut n: usize = 0;
    while n < order.len()
        invariant
            n <= order.len() == owned.len(),
            is_ranking(order@, keys@),
            keys.len() == owned.len(),
            views(listed@) == arranged(views(owned@), order@).take(n as int),
        decreases order.len() - n,
    {
        let row = owned[order[n]].clone();
        proof {
            views_push(listed@, row);
        }
        listed.push(row);
        assert(views(listed@) =~= arranged(views(owned@), order@).take(n + 1));
        n = n + 1;
    }
    assert(views(listed@) == arranged(views(owned@), order@));
    listed
}

/// The alerts of the caller that the filter asks for, the newest first.
pub fn list_alerts(store: &Store, authorization: Option<&str>, query: &AlertFilter) -> (answer:
    Result<Vec<Alert>, ApiError>)
    ensures
        match caller_of(store@, authorization) {
            None => answer == Err::<Vec<Alert>, ApiError>(ApiError::NotAuthenticated),
            Some(owner) => answer matches Ok(listed) && is_ranked(
                views(listed@),
                owned_alerts(store@.alerts, owner, wanted_category(optional_text(query.filter))),
                recency_keys(
                    owned_alerts(
                        store@.alerts,
                        owner,
                        wanted_category(optional_text(query.filter)),
                    ),
                ),
            ),
        },
{
    match authenticate(store, authorization) {
        Err(e) => Err(e),
        Ok(owner) => Ok(alerts_of(store, owner, query)),
    }
}

/// The store after `owner` marked an alert as read, or the reason why
/// nothing is marked: an alert of somebody else is as absent as one that
/// does not exist.
pub open spec fn read_marking(s: StoreView, owner: u128, alert_id: u128) -> Result<
    StoreView,
    ApiError,
> {
    match first_index(s.alert_ids(), alert_id) {
        Some(at) => if s.alerts[at].user_id == owner {
            Ok(s.with_alert_read(at))
        } else {
            Err(ApiError::AlertNotFound)
        },
        None => Err(ApiError::AlertNotFound),
    }
}

/// Marks an alert of `owner` as read. An alert that was read stays read:
/// nothing takes the flag back.
pub fn mark_read(store: &mut Store, owner: u128, alert_id: u128) -> (answer: Result<bool, ApiError>)
    requires
        old(store)@.wf(),
    ensures
        final(store)@.wf(),
        sessions_persist(old(store)@, final(store)@),
        final(store)@.extends(old(store)@),
        match read_marking(old(store)@, owner, alert_id) {
            Ok(after) => answer == Ok::<bool, ApiError>(true) && final(store)@ == after,
            Err(e) => answer == Err::<bool, ApiError>(e) && final(store)@ == old(store)@,
        },
        final(store)@.users == old(store)@.users,
        final(store)@.sessions == old(store)@.sessions,
{
    match store.position_of_alert(alert_id) {
        Some(at) => {
            if store.alerts()[at].user_id == owner {
                store.set_alert_read(at);
                Ok(true)
            } else {
                Err(ApiError::AlertNotFound)
            }
        },
        None => Err(ApiError::AlertNotFound),
    }
}

/// Marks an alert of the caller as read.
pub fn mark_alert_read(store: &mut Store, authorization: Option<&str>, alert_id: u128) -> (answer:
    Result<bool, ApiError>)
    requires
        old(store)@.wf(),
    ensures
        final(store)@.wf(),
        sessions_persist(old(store)@, final(store)@),
        final(store)@.extends(old(store)@),
        match caller_of(old(store)@, authorization) {
            None => answer == Err::<bool, ApiError>(ApiError::NotAuthenticated) && final(store)@
                == old(store)@,
            Some(owner) => match read_marking(old(store)@, owner, alert_id) {
                Ok(after) => answer == Ok::<bool, ApiError>(true) && final(store)@ == after,
                Err(e) => answer == Err::<bool, ApiError>(e) && final(store)@ == old(store)@,
            },
        },
        final(store)@.users == old(store)@.users,
        final(store)@.sessions == old(store)@.sessions,
{
    match authenticate(store, authorization) {
        Err(e) => Err(e),
        Ok(owner) => mark_read(store, owner, alert_id),
    }
}

} // verus!
