//! The frecency collaborator: a pure function from accumulated page state
//! to a signed ranking score. The score grows with the number of recorded
//! visits, capped so that every score fits the page row's column, and a
//! redirect-flagged observation earns a fixed bonus.

use vstd::prelude::*;
use crate::db::PlacesDb;
use crate::error::{Error, ErrorKind};

verus! {

/// The knobs of the score calculation.
#[derive(Debug, Clone, Copy, PartialEq, Eq, Structural)]
pub struct FrecencySettings {
    /// Score contributed by each counted visit.
    pub visit_weight: i32,
    /// Extra score when the scoring call carries the redirect boost flag.
    pub redirect_bonus: i32,
}

/// The calculator only accepts weights in this range; it keeps every
/// score inside `i32`.
pub open spec fn settings_valid(s: FrecencySettings) -> bool {
    &&& 0 <= s.visit_weight <= 1000
    &&& 0 <= s.redirect_bonus <= 1000
}

/// Visits beyond this many no longer raise the score.
pub const MAX_SCORED_VISITS: i64 = 100000;

/// The score of a page with `total_visits` recorded visits.
pub open spec fn frecency_of(s: FrecencySettings, total_visits: int, boost: bool) -> int {
    (s.visit_weight as int) * (if total_visits > MAX_SCORED_VISITS as int {
        MAX_SCORED_VISITS as int
    } else {
        total_visits
    }) + if boost {
        s.redirect_bonus as int
    } else {
        0int
    }
}

pub open spec fn spec_default_settings() -> FrecencySettings {
    FrecencySettings { visit_weight: 100, redirect_bonus: 25 }
}

impl Default for FrecencySettings {
    fn default() -> (r: FrecencySettings)
        ensures
            r == spec_default_settings(),
            settings_valid(r),
    {
        FrecencySettings { visit_weight: 100, redirect_bonus: 25 }
    }
}

pub proof fn lemma_frecency_in_range(s: FrecencySettings, total_visits: int, boost: bool)
    requires
        settings_valid(s),
        total_visits >= 0,
    ensures
        0 <= frecency_of(s, total_visits, boost) <= i32::MAX,
{
    let capped = if total_visits > MAX_SCORED_VISITS as int {
        MAX_SCORED_VISITS as int
    } else {
        total_visits
    };
    assert(0 <= (s.visit_weight as int) * capped <= 1000 * 100000) by (nonlinear_arith)
        requires
            0 <= s.visit_weight <= 1000,
            0 <= capped <= 100000,
    ;
}

/// The frecency contract: a pure function of the page's accumulated visit
/// counts and the boost flag. Must be called after the page's own column
/// mutations are committed, so it observes a consistent snapshot.
///
/// Fails with `CollaboratorFailure` when the settings are out of range,
/// and with `StorageFailure` when no page row has the given id.
pub fn calculate_frecency(
    db: &PlacesDb,
    settings: &FrecencySettings,
    page_id: i64,
    redirect_boost: Option<bool>,
) -> (r: Result<i32, Error>)
    requires
        db.wf(),
    ensures
        !settings_valid(*settings) ==> (r matches Err(e) && e.kind
            == ErrorKind::CollaboratorFailure),
        settings_valid(*settings) ==> match crate::db::page_index_by_id(db@, page_id as int) {
            Some(i) => r == Ok::<i32, Error>(
                frecency_of(
                    *settings,
                    db@.pages[i].visit_count_local + db@.pages[i].visit_count_remote,
                    redirect_boost == Some(true),
                ) as i32,
            ),
            None => r matches Err(e) && e.kind == ErrorKind::StorageFailure,
        },
{
    if !(0 <= settings.visit_weight && settings.visit_weight <= 1000 && 0 <= settings.redirect_bonus
        && settings.redirect_bonus <= 1000) {
        return Err(Error::new(ErrorKind::CollaboratorFailure));
    }
    let boost = match redirect_boost {
        Some(b) => b,
        None => false,
    };
    match db.find_page_by_id(page_id) {
        Some(i) => {
            proof {
                crate::db::lemma_find_page_by_id(db@.pages, page_id as int);
                assert(0 <= (i as int) && (i as int) < db@.pages.len());
            }
            let p = &db.pages[i].info;
            let total: i64 = p.visit_count_local as i64 + p.visit_count_remote as i64;
            let capped: i64 = if total > MAX_SCORED_VISITS {
                MAX_SCORED_VISITS
            } else {
                total
            };
            proof {
                assert(crate::db::page_aggregates_ok(db@.pages[i as int], db@.visits));
                crate::db::lemma_count_nonneg(db@.visits, db@.pages[i as int].row_id, true);
                crate::db::lemma_count_nonneg(db@.visits, db@.pages[i as int].row_id, false);
                lemma_frecency_in_range(
                    *settings,
                    db@.pages[i as int].visit_count_local + db@.pages[i as int].visit_count_remote,
                    boost,
                );
                assert((settings.visit_weight as int) * (capped as int) <= 1000 * 100000)
                    by (nonlinear_arith)
                    requires
                        0 <= settings.visit_weight <= 1000,
                        0 <= capped <= 100000,
                ;
                assert(0 <= (settings.visit_weight as int) * (capped as int)) by (nonlinear_arith)
                    requires
                        0 <= settings.visit_weight,
                        0 <= capped,
                ;
            }
            let score: i64 = (settings.visit_weight as i64) * capped + if boost {
                settings.redirect_bonus as i64
            } else {
                0
            };
            Ok(score as i32)
        },
        None => Err(Error::new(ErrorKind::StorageFailure)),
    }
}

} // verus!
