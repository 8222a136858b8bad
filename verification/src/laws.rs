//! Laws of the reconciliation pipeline, stated and proved over the
//! abstract store transition.

use vstd::prelude::*;
use crate::db::{self, StoreModel};
use crate::observation::ObservationModel;
use crate::types::VisitTransition;

verus! {

/// The store after a whole sequence of observations, each paired with
/// the clock fallback in effect when it was applied.
pub open spec fn apply_all(m: StoreModel, obs: Seq<(ObservationModel, int)>) -> StoreModel
    decreases obs.len(),
{
    if obs.len() == 0 {
        m
    } else {
        db::spec_apply(apply_all(m, obs.drop_last()), obs.last().0, obs.last().1)
    }
}

/// One observation never re-hides a visible page, and never disturbs
/// another page's URL or hidden flag: pages only move from hidden to
/// visible.
pub proof fn lemma_hidden_monotone_step(m: StoreModel, ob: ObservationModel, t: int, i: int)
    requires
        0 <= i < m.pages.len(),
        !m.pages[i].hidden,
    ensures
        ({
            let m2 = db::spec_apply(m, ob, t);
            &&& m.pages.len() <= m2.pages.len()
            &&& m2.pages[i].url == m.pages[i].url
            &&& !m2.pages[i].hidden
        }),
{
    db::lemma_find_page(m.pages, ob.url);
}

/// Over any sequence of observations, `hidden` is monotone
/// non-increasing: once a page is visible it stays visible, whatever
/// else is observed on its URL or any other.
pub proof fn lemma_hidden_monotone(m: StoreModel, obs: Seq<(ObservationModel, int)>, i: int)
    requires
        0 <= i < m.pages.len(),
        !m.pages[i].hidden,
    ensures
        ({
            let m2 = apply_all(m, obs);
            &&& m.pages.len() <= m2.pages.len()
            &&& m2.pages[i].url == m.pages[i].url
            &&& !m2.pages[i].hidden
        }),
    decreases obs.len(),
{
    if obs.len() > 0 {
        lemma_hidden_monotone(m, obs.drop_last(), i);
        lemma_hidden_monotone_step(apply_all(m, obs.drop_last()), obs.last().0, obs.last().1, i);
    }
}

/// A typed observation bumps the observed page's typed counter by
/// exactly one; a freshly created page starts the counter at one.
pub proof fn lemma_typed_increment(m: StoreModel, ob: ObservationModel, t: int)
    requires
        ob.visit_type == Some(VisitTransition::Typed),
    ensures
        ({
            let m2 = db::spec_apply(m, ob, t);
            match db::find_page(m.pages, ob.url) {
                Some(i) => m2.pages[i].typed == m.pages[i].typed + 1,
                None => m2.pages[m.pages.len() as int].typed == 1,
            }
        }),
{
    db::lemma_find_page(m.pages, ob.url);
}

/// Each visit-recording observation raises exactly its own locality's
/// count on the observed page by one, and moves that locality's
/// last-visit timestamp to the later of its old value and the visit's
/// date.
pub proof fn lemma_visit_counted(m: StoreModel, ob: ObservationModel, t: int, i: int)
    requires
        ob.visit_type is Some,
        db::find_page(m.pages, ob.url) == Some(i),
    ensures
        ({
            let m2 = db::spec_apply(m, ob, t);
            let date = if ob.at is Some {
                ob.at->0
            } else {
                t
            };
            &&& !ob.is_remote ==> m2.pages[i].visit_count_local == m.pages[i].visit_count_local + 1
                && m2.pages[i].last_visit_date_local == (if date > m.pages[i].last_visit_date_local {
                date
            } else {
                m.pages[i].last_visit_date_local
            })
            &&& ob.is_remote ==> m2.pages[i].visit_count_remote == m.pages[i].visit_count_remote + 1
                && m2.pages[i].last_visit_date_remote == (if date
                > m.pages[i].last_visit_date_remote {
                date
            } else {
                m.pages[i].last_visit_date_remote
            })
        }),
{
    db::lemma_find_page(m.pages, ob.url);
}

/// Local and remote aggregates are tracked independently: a remote
/// observation leaves every page's local visit count and local
/// last-visit timestamp exactly as they were, and a local observation
/// leaves the remote ones.
pub proof fn lemma_locality_independent(m: StoreModel, ob: ObservationModel, t: int, j: int)
    requires
        0 <= j < m.pages.len(),
        ob.visit_type is Some,
    ensures
        ({
            let m2 = db::spec_apply(m, ob, t);
            &&& ob.is_remote ==> m2.pages[j].visit_count_local == m.pages[j].visit_count_local
                && m2.pages[j].last_visit_date_local == m.pages[j].last_visit_date_local
            &&& !ob.is_remote ==> m2.pages[j].visit_count_remote == m.pages[j].visit_count_remote
                && m2.pages[j].last_visit_date_remote == m.pages[j].last_visit_date_remote
        }),
{
    db::lemma_find_page(m.pages, ob.url);
}

} // verus!
