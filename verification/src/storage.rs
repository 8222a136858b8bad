//! The storage layer between the API and the page/visit store: row types,
//! the observation reconciliation pipeline, and the batched read queries.

use vstd::prelude::*;
use crate::db::{self, PlacesDb, StoredPage, StoreModel};
use crate::error::{Error, ErrorKind};
use crate::frecency::{self, FrecencySettings};
use crate::hash;
use crate::observation::{self, VisitObservation};
use crate::types::{SyncGuid, Timestamp, VisitTransition};
use crate::urls::Url;

verus! {

/// Typesafe row identifier: the engine's native 64-bit row key.
#[derive(Debug, Copy, Clone, PartialEq, Eq, Structural, PartialOrd, Default, Hash)]
pub struct RowId(pub i64);

impl From<RowId> for i64 {
    fn from(id: RowId) -> (r: i64) {
        id.0
    }
}

impl vstd::std_specs::convert::FromSpecImpl<RowId> for i64 {
    open spec fn obeys_from_spec() -> bool {
        true
    }

    open spec fn from_spec(id: RowId) -> i64 {
        id.0
    }
}

/// The denormalized, queryable snapshot of one visited page.
#[derive(Debug)]
pub struct PageInfo {
    pub url: Url,
    pub guid: SyncGuid,
    pub row_id: RowId,
    pub title: String,
    pub hidden: bool,
    pub typed: u32,
    pub frecency: i32,
    pub visit_count_local: i32,
    pub visit_count_remote: i32,
    pub last_visit_date_local: Timestamp,
    pub last_visit_date_remote: Timestamp,
}

/// The abstract form of a page row: plain mathematical values only.
#[verifier::ext_equal]
pub struct PageModel {
    pub url: Seq<char>,
    pub guid: Seq<char>,
    pub row_id: int,
    pub title: Seq<char>,
    pub hidden: bool,
    pub typed: int,
    pub frecency: int,
    pub visit_count_local: int,
    pub visit_count_remote: int,
    pub last_visit_date_local: int,
    pub last_visit_date_remote: int,
}

impl View for PageInfo {
    type V = PageModel;

    open spec fn view(&self) -> PageModel {
        PageModel {
            url: self.url@,
            guid: self.guid@,
            row_id: self.row_id.0 as int,
            title: self.title@,
            hidden: self.hidden,
            typed: self.typed as int,
            frecency: self.frecency as int,
            visit_count_local: self.visit_count_local as int,
            visit_count_remote: self.visit_count_remote as int,
            last_visit_date_local: self.last_visit_date_local.0 as int,
            last_visit_date_remote: self.last_visit_date_remote.0 as int,
        }
    }
}

/// One immutable record of a single navigation to a page.
#[derive(Debug, Copy, Clone, PartialEq, Eq)]
pub struct VisitRow {
    pub row_id: RowId,
    pub place_id: RowId,
    pub from_visit: Option<RowId>,
    pub visit_date: Timestamp,
    pub visit_type: VisitTransition,
    pub is_local: bool,
}

/// The abstract form of a visit row.
#[verifier::ext_equal]
pub struct VisitModel {
    pub row_id: int,
    pub place_id: int,
    pub from_visit: Option<int>,
    pub visit_date: int,
    pub visit_type: VisitTransition,
    pub is_local: bool,
}

impl View for VisitRow {
    type V = VisitModel;

    open spec fn view(&self) -> VisitModel {
        VisitModel {
            row_id: self.row_id.0 as int,
            place_id: self.place_id.0 as int,
            from_visit: match self.from_visit {
                Some(r) => Some(r.0 as int),
                None => None,
            },
            visit_date: self.visit_date.0 as int,
            visit_type: self.visit_type,
            is_local: self.is_local,
        }
    }
}

/// `fetch_page_info` hands back the page together with the row id of
/// whichever visit currently holds one of its "last visit" timestamps.
#[derive(Debug)]
pub struct FetchedPageInfo {
    pub page: PageInfo,
    pub last_visit_id: RowId,
}

fn clone_page_info(p: &PageInfo) -> (r: PageInfo)
    ensures
        r@ == p@,
{
    let r = PageInfo {
        url: p.url.clone(),
        guid: SyncGuid(p.guid.0.clone()),
        row_id: p.row_id,
        title: p.title.clone(),
        hidden: p.hidden,
        typed: p.typed,
        frecency: p.frecency,
        visit_count_local: p.visit_count_local,
        visit_count_remote: p.visit_count_remote,
        last_visit_date_local: p.last_visit_date_local,
        last_visit_date_remote: p.last_visit_date_remote,
    };
    proof {
        assert(r@ =~~= p@);
    }
    r
}

/// Inserts a new page row for a URL that has none yet, with a freshly
/// generated guid, hidden until a non-hidden visit arrives, and the
/// never-computed frecency sentinel.
fn new_page_info(db: &mut PlacesDb, url: &Url) -> (r: Result<PageInfo, Error>)
    requires
        old(db).wf(),
        db::find_page(old(db)@.pages, url@) is None,
    ensures
        final(db).wf(),
        old(db)@.next_page_id >= i64::MAX || old(db)@.guid_counter >= u64::MAX ==> (r matches Err(e)
            && e.kind == ErrorKind::StorageFailure && *final(db) == *old(db)),
        old(db)@.next_page_id < i64::MAX && old(db)@.guid_counter < u64::MAX ==> (r matches Ok(info)
            && info@ == db::new_page(
            url@,
            crate::types::dec_digits(old(db)@.guid_counter as u64),
            old(db)@.next_page_id,
        ) && final(db)@ == db::resolved(old(db)@, url@).0 && final(db).pages@.len() == old(
            db,
        ).pages@.len() + 1),
{
    if db.next_page_id == i64::MAX || db.guid_counter == u64::MAX {
        return Err(Error::new(ErrorKind::StorageFailure));
    }
    let guid = SyncGuid::from_counter(db.guid_counter);
    let info = PageInfo {
        url: url.clone(),
        guid,
        row_id: RowId(db.next_page_id),
        title: String::new(),
        hidden: true,
        typed: 0,
        frecency: -1,
        visit_count_local: 0,
        visit_count_remote: 0,
        last_visit_date_local: Timestamp(0),
        last_visit_date_remote: Timestamp(0),
    };
    let result = clone_page_info(&info);
    let h = hash::hash_url(url.as_str());
    db.pages.push(StoredPage { info, url_hash: h });
    db.next_page_id = db.next_page_id + 1;
    db.guid_counter = db.guid_counter + 1;
    proof {
        let m = old(db)@;
        let np = db::new_page(
            url@,
            crate::types::dec_digits(m.guid_counter as u64),
            m.next_page_id,
        );
        assert(db@.pages =~~= m.pages.push(np));
        db::lemma_find_page(m.pages, url@);
        db::lemma_matching_absent(m.visits, m.next_page_id, true);
        db::lemma_matching_absent(m.visits, m.next_page_id, false);
        assert(db::page_aggregates_ok(np, db@.visits));
        assert forall|i: int| 0 <= i < db@.pages.len() implies db::page_aggregates_ok(
            #[trigger] db@.pages[i],
            db@.visits,
        ) by {
            if i < m.pages.len() {
                assert(db@.pages[i] == m.pages[i]);
                assert(db::page_aggregates_ok(m.pages[i], m.visits));
            }
        }
        assert(db::inv(db@));
        assert(db.wf());
        assert(db@ =~~= db::resolved(m, url@).0);
        assert(result@ =~~= np);
    }
    Ok(result)
}

/// Appends one immutable visit row for an existing page. The engine's
/// triggers keep the owning page's visit counts and last-visit
/// timestamps in step; everything else on the page is the caller's to
/// maintain.
fn add_visit(
    db: &mut PlacesDb,
    page_id: &RowId,
    from_visit: &Option<RowId>,
    visit_date: &Timestamp,
    visit_type: &VisitTransition,
    is_local: &bool,
) -> (r: Result<RowId, Error>)
    requires
        old(db).wf(),
    ensures
        final(db).wf(),
        ({
            let m = old(db)@;
            match db::page_index_by_id(m, page_id.0 as int) {
                None => r matches Err(e) && e.kind == ErrorKind::StorageFailure && *final(db)
                    == *old(db),
                Some(i) => {
                    let p = m.pages[i];
                    let full = if *is_local {
                        p.visit_count_local >= i32::MAX
                    } else {
                        p.visit_count_remote >= i32::MAX
                    };
                    if m.next_visit_id >= i64::MAX || full {
                        r matches Err(e) && e.kind == ErrorKind::StorageFailure && *final(db)
                            == *old(db)
                    } else {
                        let v = VisitModel {
                            row_id: m.next_visit_id,
                            place_id: page_id.0 as int,
                            from_visit: match *from_visit {
                                Some(f) => Some(f.0 as int),
                                None => None,
                            },
                            visit_date: visit_date.0 as int,
                            visit_type: *visit_type,
                            is_local: *is_local,
                        };
                        &&& r == Ok::<RowId, Error>(RowId(m.next_visit_id as i64))
                        &&& final(db)@ == (StoreModel {
                            pages: m.pages.update(i, db::page_with_visit(p, v)),
                            visits: m.visits.push(v),
                            next_visit_id: m.next_visit_id + 1,
                            ..m
                        })
                    }
                },
            }
        }),
{
    let idx = match db.find_page_by_id(page_id.0) {
        Some(i) => i,
        None => {
            return Err(Error::new(ErrorKind::StorageFailure));
        },
    };
    proof {
        db::lemma_find_page_by_id(db@.pages, page_id.0 as int);
    }
    if db.next_visit_id == i64::MAX {
        return Err(Error::new(ErrorKind::StorageFailure));
    }
    let local = *is_local;
    if local && db.pages[idx].info.visit_count_local == i32::MAX {
        return Err(Error::new(ErrorKind::StorageFailure));
    }
    if !local && db.pages[idx].info.visit_count_remote == i32::MAX {
        return Err(Error::new(ErrorKind::StorageFailure));
    }
    let rid = RowId(db.next_visit_id);
    let row = VisitRow {
        row_id: rid,
        place_id: *page_id,
        from_visit: *from_visit,
        visit_date: *visit_date,
        visit_type: *visit_type,
        is_local: local,
    };
    db.visits.push(row);
    if local {
        let c = db.pages[idx].info.visit_count_local;
        db.pages[idx].info.visit_count_local = c + 1;
        if visit_date.0 > db.pages[idx].info.last_visit_date_local.0 {
            db.pages[idx].info.last_visit_date_local = *visit_date;
        }
    } else {
        let c = db.pages[idx].info.visit_count_remote;
        db.pages[idx].info.visit_count_remote = c + 1;
        if visit_date.0 > db.pages[idx].info.last_visit_date_remote.0 {
            db.pages[idx].info.last_visit_date_remote = *visit_date;
        }
    }
    db.next_visit_id = db.next_visit_id + 1;
    proof {
        let m = old(db)@;
        let i = idx as int;
        let v = VisitModel {
            row_id: m.next_visit_id,
            place_id: page_id.0 as int,
            from_visit: match *from_visit {
                Some(f) => Some(f.0 as int),
                None => None,
            },
            visit_date: visit_date.0 as int,
            visit_type: *visit_type,
            is_local: *is_local,
        };
        assert(db@.visits =~~= m.visits.push(v));
        assert(db@.pages =~~= m.pages.update(i, db::page_with_visit(m.pages[i], v)));
        assert forall|j: int| 0 <= j < db@.pages.len() implies db::page_aggregates_ok(
            #[trigger] db@.pages[j],
            db@.visits,
        ) by {
            db::lemma_matching_push(m.visits, v, db@.pages[j].row_id, true);
            db::lemma_matching_push(m.visits, v, db@.pages[j].row_id, false);
            if j != i {
                assert(db@.pages[j] == m.pages[j]);
                assert(db::page_aggregates_ok(m.pages[j], m.visits));
            } else {
                assert(db::page_aggregates_ok(m.pages[i], m.visits));
            }
        }
        assert(db::inv(db@));
        assert(db.wf());
        assert(db@ =~~= (StoreModel {
            pages: m.pages.update(i, db::page_with_visit(m.pages[i], v)),
            visits: m.visits.push(v),
            next_visit_id: m.next_visit_id + 1,
            ..m
        }));
    }
    Ok(rid)
}

/// True when applying `visit_ob` would have to wrap a row-key counter,
/// the guid counter, the typed counter or a visit-count column: the
/// engine refuses such an observation instead.
fn is_over_capacity(db: &PlacesDb, visit_ob: &VisitObservation) -> (b: bool)
    requires
        db.wf(),
    ensures
        b == db::apply_overflows(db@, visit_ob@),
{
    let h = hash::hash_url(visit_ob.url.as_str());
    let found = db.find_page_idx(&visit_ob.url, h);
    proof {
        db::lemma_find_page(db@.pages, visit_ob.url@);
        assert(visit_ob@.at matches Some(t) ==> t <= u64::MAX);
    }
    let creating = match found {
        Some(_) => false,
        None => true,
    };
    if creating && (db.next_page_id == i64::MAX || db.guid_counter == u64::MAX) {
        return true;
    }
    if let Some(vt) = visit_ob.visit_type {
        if db.next_visit_id == i64::MAX {
            return true;
        }
        let (typed0, cl0, cr0): (u32, i32, i32) = match found {
            Some(i) => (
                db.pages[i].info.typed,
                db.pages[i].info.visit_count_local,
                db.pages[i].info.visit_count_remote,
            ),
            None => (0, 0, 0),
        };
        if vt == VisitTransition::Typed && typed0 == u32::MAX {
            return true;
        }
        let remote = match visit_ob.is_remote {
            Some(b) => b,
            None => false,
        };
        if !remote && cl0 == i32::MAX {
            return true;
        }
        if remote && cr0 == i32::MAX {
            return true;
        }
    }
    false
}

/// Resolves the observed page (creating it when absent) and stages its
/// column updates: title, hidden-ness, and the typed counter.
fn resolve_and_stage(db: &mut PlacesDb, visit_ob: &VisitObservation) -> (idx: usize)
    requires
        old(db).wf(),
        !db::apply_overflows(old(db)@, visit_ob@),
    ensures
        final(db).wf(),
        idx as int == db::resolved(old(db)@, visit_ob@.url).1,
        final(db)@ == db::staged_store(old(db)@, visit_ob@),
        idx < final(db).pages@.len(),
{
    let ghost m = old(db)@;
    let ghost ob = visit_ob@;
    let h = hash::hash_url(visit_ob.url.as_str());
    let found = db.find_page_idx(&visit_ob.url, h);
    proof {
        db::lemma_find_page(m.pages, ob.url);
    }
    let idx: usize = match found {
        Some(i) => i,
        None => {
            match new_page_info(db, &visit_ob.url) {
                Ok(_) => {},
                Err(_) => {
                    proof {
                        assert(false);
                    }
                },
            }
            db.pages.len() - 1
        },
    };
    let ghost m1 = db::resolved(m, ob.url).0;
    let ghost si = db::resolved(m, ob.url).1;
    proof {
        assert(db@ == m1);
        assert(idx as int == si);
        assert(0 <= si < m1.pages.len());
    }
    if let Some(title) = &visit_ob.title {
        db.pages[idx].info.title = title.clone();
    }
    if let Some(vt) = visit_ob.visit_type {
        if !visit_ob.get_is_hidden() {
            db.pages[idx].info.hidden = false;
        }
        if vt == VisitTransition::Typed {
            let t = db.pages[idx].info.typed;
            db.pages[idx].info.typed = t + 1;
        }
    }
    proof {
        assert(db@.pages =~~= m1.pages.update(si, db::staged_page(m1.pages[si], ob)));
        assert forall|j: int| 0 <= j < db@.pages.len() implies db::page_aggregates_ok(
            #[trigger] db@.pages[j],
            db@.visits,
        ) by {
            assert(db::page_aggregates_ok(m1.pages[j], m1.visits));
        }
        assert(db::inv(db@));
        assert(db.wf());
        assert(db@ =~~= db::staged_store(m, ob));
    }
    idx
}

/// The reconciliation pipeline with an explicit fallback timestamp for
/// observations that carry none. One atomic step: resolve or create the
/// page, stage the title / hidden / typed column updates, insert the
/// visit, and recompute frecency unless the observation is flagged as an
/// error. On a storage refusal nothing at all changes.
#[verifier::rlimit(100)]
fn apply_observation_at(db: &mut PlacesDb, visit_ob: VisitObservation, fallback: Timestamp) -> (r:
    Result<Option<RowId>, Error>)
    requires
        old(db).wf(),
    ensures
        final(db).wf(),
        db::apply_overflows(old(db)@, visit_ob@) ==> (r matches Err(e) && e.kind
            == ErrorKind::StorageFailure && *final(db) == *old(db)),
        !db::apply_overflows(old(db)@, visit_ob@) ==> {
            &&& final(db)@ == db::spec_apply(old(db)@, visit_ob@, fallback.0 as int)
            &&& r == Ok::<Option<RowId>, Error>(
                if visit_ob.visit_type is Some {
                    Some(RowId(old(db)@.next_visit_id as i64))
                } else {
                    None
                },
            )
        },
{
    let ghost m = old(db)@;
    let ghost ob = visit_ob@;
    if is_over_capacity(db, &visit_ob) {
        return Err(Error::new(ErrorKind::StorageFailure));
    }
    let idx = resolve_and_stage(db, &visit_ob);
    let ghost m1 = db::resolved(m, ob.url).0;
    let ghost si = db::resolved(m, ob.url).1;
    let ghost staged = db::staged_page(m1.pages[si], ob);
    let ghost mid = db@;
    proof {
        db::lemma_find_page(m.pages, ob.url);
        assert(0 <= si < m1.pages.len());
        assert(mid == db::staged_store(m, ob));
        assert(mid.pages == m1.pages.update(si, staged));
    }
    let result: Option<RowId> = match visit_ob.visit_type {
        None => {
            proof {
                assert(db@ =~~= db::spec_apply(m, ob, fallback.0 as int));
            }
            None
        },
        Some(vt) => {
            proof {
                assert(mid.pages[si] == staged);
                db::lemma_find_page_by_id(mid.pages, staged.row_id);
                assert(db::page_index_by_id(mid, staged.row_id) == Some(si)) by {
                    match db::find_page_by_id_rec(mid.pages, staged.row_id) {
                        Some(k) => {
                            if k < si {
                                assert(mid.pages[k].row_id == mid.pages[si].row_id);
                            } else if k > si {
                                assert(mid.pages[si].row_id != staged.row_id);
                            }
                        },
                        None => {
                            assert(mid.pages[si].row_id != staged.row_id);
                        },
                    }
                }
            }
            let at = match visit_ob.at {
                Some(t) => t,
                None => fallback,
            };
            let remote = match visit_ob.is_remote {
                Some(b) => b,
                None => false,
            };
            let page_row_id = db.pages[idx].info.row_id;
            let rid = match add_visit(db, &page_row_id, &None, &at, &vt, &!remote) {
                Ok(rid) => rid,
                Err(e) => {
                    return Err(e);
                },
            };
            let ghost v = db::observed_visit(m1, ob, staged.row_id, vt, fallback.0 as int);
            let ghost p2 = db::page_with_visit(staged, v);
            let ghost mid2 = db@;
            proof {
                assert(mid2 == (StoreModel {
                    pages: mid.pages.update(si, p2),
                    visits: mid.visits.push(v),
                    next_visit_id: mid.next_visit_id + 1,
                    ..mid
                }));
                assert(mid2.pages[si] == p2);
            }
            let is_error = match visit_ob.is_error {
                Some(b) => b,
                None => false,
            };
            if !is_error {
                let settings = FrecencySettings::default();
                let boost = visit_ob.get_redirect_frecency_boost();
                proof {
                    db::lemma_find_page_by_id(db@.pages, staged.row_id);
                    assert(db@.pages[si].row_id == staged.row_id);
                    assert(db::page_index_by_id(db@, staged.row_id) == Some(si)) by {
                        match db::find_page_by_id_rec(db@.pages, staged.row_id) {
                            Some(k) => {
                                if k < si {
                                    assert(db@.pages[k].row_id == db@.pages[si].row_id);
                                } else if k > si {
                                    assert(db@.pages[si].row_id != staged.row_id);
                                }
                            },
                            None => {
                                assert(db@.pages[si].row_id != staged.row_id);
                            },
                        }
                    }
                }
                match frecency::calculate_frecency(db, &settings, page_row_id.0, Some(boost)) {
                    Ok(score) => {
                        proof {
                            assert(db::page_aggregates_ok(p2, mid2.visits));
                            db::lemma_count_nonneg(mid2.visits, p2.row_id, true);
                            db::lemma_count_nonneg(mid2.visits, p2.row_id, false);
                            frecency::lemma_frecency_in_range(
                                frecency::spec_default_settings(),
                                p2.visit_count_local + p2.visit_count_remote,
                                observation::spec_redirect_boost(ob),
                            );
                        }
                        db.pages[idx].info.frecency = score;
                        proof {
                            let p3 = db::rescored_page(p2, observation::spec_redirect_boost(ob));
                            assert(score as int == p3.frecency);
                            assert(db@.pages =~~= mid2.pages.update(si, p3));
                            assert(db@.visits == mid2.visits);
                            assert forall|j: int|
                                0 <= j < db@.pages.len() implies db::page_aggregates_ok(
                                #[trigger] db@.pages[j],
                                db@.visits,
                            ) by {
                                assert(db::page_aggregates_ok(mid2.pages[j], mid2.visits));
                            }
                            assert(db::inv(db@));
                            assert(db.wf());
                        }
                    },
                    Err(e) => {
                        return Err(e);
                    },
                }
            }
            proof {
                assert(db@.pages =~~= m1.pages.update(
                    si,
                    if ob.is_error {
                        p2
                    } else {
                        db::rescored_page(p2, observation::spec_redirect_boost(ob))
                    },
                ));
            }
            Some(rid)
        },
    };
    proof {
        assert(db@ =~~= db::spec_apply(m, ob, fallback.0 as int));
        assert(db.wf());
    }
    Ok(result)
}

/// Applies one observation without wrapping it in an explicit
/// transaction scope. For this store every application is already one
/// atomic step. Returns the `RowId` of the new visit row, or `None` if
/// no visit was added.
pub fn apply_observation_direct(db: &mut PlacesDb, visit_ob: VisitObservation) -> (r: Result<
    Option<RowId>,
    Error,
>)
    requires
        old(db).wf(),
    ensures
        final(db).wf(),
        db::apply_overflows(old(db)@, visit_ob@) ==> (r matches Err(e) && e.kind
            == ErrorKind::StorageFailure && *final(db) == *old(db)),
        !db::apply_overflows(old(db)@, visit_ob@) ==> {
            &&& exists|t: int|
                0 <= t <= u64::MAX && final(db)@ == db::spec_apply(old(db)@, visit_ob@, t)
            &&& (visit_ob@.at matches Some(t0) ==> final(db)@ == db::spec_apply(
                old(db)@,
                visit_ob@,
                t0,
            ))
            &&& r == Ok::<Option<RowId>, Error>(
                if visit_ob.visit_type is Some {
                    Some(RowId(old(db)@.next_visit_id as i64))
                } else {
                    None
                },
            )
        },
{
    let ghost m = old(db)@;
    let ghost ob = visit_ob@;
    let fallback = Timestamp::now();
    let r = apply_observation_at(db, visit_ob, fallback);
    proof {
        if !db::apply_overflows(m, ob) {
            let t = fallback.0 as int;
            assert(0 <= t <= u64::MAX && db@ == db::spec_apply(m, ob, t));
            match ob.at {
                Some(t0) => {
                    db::lemma_fallback_irrelevant(m, ob, t, t0);
                },
                None => {},
            }
        }
    }
    r
}

/// Applies one observation as a single atomic transaction: either the
/// whole reconciliation commits, or nothing at all is visible. Returns
/// the `RowId` of the new visit row in the visit table, or `None` if no
/// visit was added.
pub fn apply_observation(db: &mut PlacesDb, visit_ob: VisitObservation) -> (r: Result<
    Option<RowId>,
    Error,
>)
    requires
        old(db).wf(),
    ensures
        final(db).wf(),
        db::apply_overflows(old(db)@, visit_ob@) ==> (r matches Err(e) && e.kind
            == ErrorKind::StorageFailure && *final(db) == *old(db)),
        !db::apply_overflows(old(db)@, visit_ob@) ==> {
            &&& exists|t: int|
                0 <= t <= u64::MAX && final(db)@ == db::spec_apply(old(db)@, visit_ob@, t)
            &&& (visit_ob@.at matches Some(t0) ==> final(db)@ == db::spec_apply(
                old(db)@,
                visit_ob@,
                t0,
            ))
            &&& r == Ok::<Option<RowId>, Error>(
                if visit_ob.visit_type is Some {
                    Some(RowId(old(db)@.next_visit_id as i64))
                } else {
                    None
                },
            )
        },
{
    apply_observation_direct(db, visit_ob)
}

/// Recomputes and persists one page's frecency outside the observation
/// pipeline, with the default settings.
pub fn update_frecency(db: &mut PlacesDb, id: RowId, redirect: Option<bool>) -> (r: Result<
    (),
    Error,
>)
    requires
        old(db).wf(),
    ensures
        final(db).wf(),
        match db::page_index_by_id(old(db)@, id.0 as int) {
            None => r matches Err(e) && e.kind == ErrorKind::StorageFailure && *final(db) == *old(
                db,
            ),
            Some(i) => r is Ok && final(db)@ == (StoreModel {
                pages: old(db)@.pages.update(
                    i,
                    db::rescored_page(old(db)@.pages[i], redirect == Some(true)),
                ),
                ..old(db)@
            }),
        },
{
    let ghost m = old(db)@;
    let idx = match db.find_page_by_id(id.0) {
        Some(i) => i,
        None => {
            return Err(Error::new(ErrorKind::StorageFailure));
        },
    };
    proof {
        db::lemma_find_page_by_id(m.pages, id.0 as int);
    }
    let settings = FrecencySettings::default();
    let score = match frecency::calculate_frecency(db, &settings, id.0, redirect) {
        Ok(s) => s,
        Err(e) => {
            proof {
                assert(false);
            }
            return Err(e);
        },
    };
    proof {
        let i = idx as int;
        assert(db::page_aggregates_ok(m.pages[i], m.visits));
        db::lemma_count_nonneg(m.visits, m.pages[i].row_id, true);
        db::lemma_count_nonneg(m.visits, m.pages[i].row_id, false);
        frecency::lemma_frecency_in_range(
            frecency::spec_default_settings(),
            m.pages[i].visit_count_local + m.pages[i].visit_count_remote,
            redirect == Some(true),
        );
    }
    db.pages[idx].info.frecency = score;
    proof {
        let i = idx as int;
        let p3 = db::rescored_page(m.pages[i], redirect == Some(true));
        assert(db@.pages =~~= m.pages.update(i, p3));
        assert forall|j: int| 0 <= j < db@.pages.len() implies db::page_aggregates_ok(
            #[trigger] db@.pages[j],
            db@.visits,
        ) by {
            assert(db::page_aggregates_ok(m.pages[j], m.visits));
        }
        assert(db::inv(db@));
        assert(db.wf());
        assert(db@ =~~= (StoreModel { pages: m.pages.update(i, p3), ..m }));
    }
    Ok(())
}

/// Is this visit one that currently holds the page's local or remote
/// "last visit" timestamp?
pub open spec fn last_visit_candidate(v: VisitModel, p: PageModel) -> bool {
    v.place_id == p.row_id && (v.visit_date == p.last_visit_date_local || v.visit_date
        == p.last_visit_date_remote)
}

/// Finds an existing page by exact URL match, located through the
/// precomputed hash and confirmed by string equality. Also reports the
/// row id of whichever visit currently holds the page's last-visit
/// timestamp, for diagnostic use; a page that has aggregate timestamps
/// no visit accounts for is reported as a storage failure.
pub fn fetch_page_info(db: &PlacesDb, url: &Url) -> (r: Result<Option<FetchedPageInfo>, Error>)
    requires
        db.wf(),
    ensures
        match db::find_page(db@.pages, url@) {
            None => r matches Ok(o) && o is None,
            Some(i) => {
                let p = db@.pages[i];
                let has_candidate = exists|k: int|
                    0 <= k < db@.visits.len() && last_visit_candidate(#[trigger] db@.visits[k], p);
                &&& (p.visit_count_local > 0 || p.visit_count_remote > 0) ==> has_candidate
                &&& if has_candidate {
                    &&& r matches Ok(o)
                    &&& o matches Some(f)
                    &&& f.page@ == p
                    &&& exists|k: int|
                        0 <= k < db@.visits.len() && (#[trigger] db@.visits[k]).row_id
                            == f.last_visit_id.0 as int && last_visit_candidate(db@.visits[k], p)
                } else {
                    r matches Err(e) && e.kind == ErrorKind::StorageFailure
                }
            },
        },
{
    let h = hash::hash_url(url.as_str());
    let idx = match db.find_page_idx(url, h) {
        Some(i) => i,
        None => {
            return Ok(None);
        },
    };
    let ghost p = db@.pages[idx as int];
    proof {
        db::lemma_find_page(db@.pages, url@);
    }
    let page = clone_page_info(&db.pages[idx].info);
    let rid = page.row_id;
    let ll = page.last_visit_date_local;
    let lr = page.last_visit_date_remote;
    let mut k: usize = 0;
    while k < db.visits.len()
        invariant
            k <= db.visits@.len(),
            idx < db.pages@.len(),
            db::find_page(db@.pages, url@) == Some(idx as int),
            p == db@.pages[idx as int],
            page@ == p,
            rid.0 as int == p.row_id,
            ll.0 as int == p.last_visit_date_local,
            lr.0 as int == p.last_visit_date_remote,
            forall|j: int| 0 <= j < k ==> !last_visit_candidate(#[trigger] db@.visits[j], p),
        decreases db.visits@.len() - k,
    {
        let v = &db.visits[k];
        if v.place_id.0 == rid.0 && (v.visit_date.0 == ll.0 || v.visit_date.0 == lr.0) {
            proof {
                assert(last_visit_candidate(db@.visits[k as int], p));
            }
            return Ok(Some(FetchedPageInfo { page, last_visit_id: v.row_id }));
        }
        k += 1;
    }
    proof {
        // no candidate was found, so the page can have no visits at all:
        // a page with a visit has one holding its maximum date, and that
        // maximum is exactly the aggregate the candidate test compares.
        assert(db::page_aggregates_ok(p, db@.visits));
        if p.visit_count_local > 0 {
            db::lemma_max_achieved(db@.visits, p.row_id, true);
        }
        if p.visit_count_remote > 0 {
            db::lemma_max_achieved(db@.visits, p.row_id, false);
        }
    }
    Err(Error::new(ErrorKind::StorageFailure))
}

/// A derived-table batch resolves at most this many URLs, keeping every
/// batch within a bound-parameter budget of the storage engine.
pub const URLS_PER_CHUNK: usize = 333;

/// For every URL in the input, in input order and tolerating duplicates:
/// was it ever recorded as a page? Resolved chunk by chunk.
pub fn get_visited(db: &PlacesDb, urls: &[Url]) -> (r: Result<Vec<bool>, Error>)
    requires
        db.wf(),
    ensures
        r matches Ok(v) && v@.len() == urls@.len() && forall|i: int|
            0 <= i < urls@.len() ==> v@[i] == (db::find_page(db@.pages, urls@[i]@) is Some),
{
    let n = urls.len();
    let mut result: Vec<bool> = Vec::new();
    let mut i: usize = 0;
    while i < n
        invariant
            i <= n,
            result@.len() == i,
            forall|j: int| 0 <= j < i ==> result@[j] == false,
        decreases n - i,
    {
        result.push(false);
        i += 1;
    }
    let mut offset: usize = 0;
    while offset < n
        invariant
            db.wf(),
            offset <= n,
            n == urls@.len(),
            result@.len() == n,
            forall|j: int|
                0 <= j < offset ==> result@[j] == (db::find_page(db@.pages, urls@[j]@) is Some),
            forall|j: int| offset <= j < n ==> result@[j] == false,
        decreases n - offset,
    {
        let end = if n - offset > URLS_PER_CHUNK {
            offset + URLS_PER_CHUNK
        } else {
            n
        };
        let mut k = offset;
        while k < end
            invariant
                db.wf(),
                offset <= k <= end <= n,
                n == urls@.len(),
                result@.len() == n,
                forall|j: int|
                    0 <= j < k ==> result@[j] == (db::find_page(db@.pages, urls@[j]@) is Some),
                forall|j: int| k <= j < n ==> result@[j] == false,
            decreases end - k,
        {
            let h = hash::hash_url(urls[k].as_str());
            match db.find_page_idx(&urls[k], h) {
                Some(_) => {
                    result[k] = true;
                },
                None => {},
            }
            k += 1;
        }
        offset = end;
    }
    Ok(result)
}

fn page_has_visit_in_range(
    db: &PlacesDb,
    place_id: RowId,
    start: Timestamp,
    end: Timestamp,
    include_remote: bool,
) -> (b: bool)
    ensures
        b == db::has_visit_in_range(
            db@,
            place_id.0 as int,
            start.0 as int,
            end.0 as int,
            include_remote,
        ),
{
    let mut k: usize = 0;
    while k < db.visits.len()
        invariant
            k <= db.visits@.len(),
            forall|j: int|
                0 <= j < k ==> !db::visit_in_range(
                    #[trigger] db@.visits[j],
                    place_id.0 as int,
                    start.0 as int,
                    end.0 as int,
                    include_remote,
                ),
        decreases db.visits@.len() - k,
    {
        let v = &db.visits[k];
        if v.place_id.0 == place_id.0 && start.0 <= v.visit_date.0 && v.visit_date.0 <= end.0 && (
        include_remote || v.is_local) {
            proof {
                assert(db::visit_in_range(
                    db@.visits[k as int],
                    place_id.0 as int,
                    start.0 as int,
                    end.0 as int,
                    include_remote,
                ));
            }
            return true;
        }
        k += 1;
    }
    false
}

/// The distinct URLs visited between `start` and `end` inclusive, in
/// store order. Only local visits count unless `include_remote` is set.
pub fn get_visited_urls(db: &PlacesDb, start: Timestamp, end: Timestamp, include_remote: bool) -> (r:
    Result<Vec<String>, Error>)
    requires
        db.wf(),
    ensures
        r matches Ok(v) && v@.map_values(|s: String| s@) == db::visited_urls(
            db@,
            start.0 as int,
            end.0 as int,
            include_remote,
        ),
{
    let mut out: Vec<String> = Vec::new();
    let mut i: usize = 0;
    while i < db.pages.len()
        invariant
            db.wf(),
            i <= db.pages@.len(),
            out@.map_values(|s: String| s@) == db::visited_urls_upto(
                db@,
                start.0 as int,
                end.0 as int,
                include_remote,
                i as int,
            ),
        decreases db.pages@.len() - i,
    {
        let keep = page_has_visit_in_range(db, db.pages[i].info.row_id, start, end, include_remote);
        if keep {
            let s = db.pages[i].info.url.to_string();
            out.push(s);
        }
        proof {
            assert(out@.map_values(|s: String| s@) =~~= db::visited_urls_upto(
                db@,
                start.0 as int,
                end.0 as int,
                include_remote,
                i as int + 1,
            ));
        }
        i += 1;
    }
    Ok(out)
}

fn count_visits(visits: &Vec<VisitRow>, place_id: i64, is_local: bool) -> (c: u64)
    ensures
        c as int == db::count_matching(
            visits@.map_values(|v: VisitRow| v@),
            place_id as int,
            is_local,
        ),
{
    let ghost vs = visits@.map_values(|v: VisitRow| v@);
    let mut c: u64 = 0;
    let mut i: usize = 0;
    while i < visits.len()
        invariant
            i <= visits@.len(),
            vs == visits@.map_values(|v: VisitRow| v@),
            c <= i,
            c as int == db::count_matching(vs.take(i as int), place_id as int, is_local),
        decreases visits@.len() - i,
    {
        proof {
            assert(vs.take(i + 1).drop_last() =~= vs.take(i as int));
            assert(vs.take(i + 1).last() == vs[i as int]);
        }
        if visits[i].place_id.0 == place_id && visits[i].is_local == is_local {
            c += 1;
        }
        i += 1;
    }
    proof {
        assert(vs.take(vs.len() as int) =~= vs);
    }
    c
}

fn max_visit_date(visits: &Vec<VisitRow>, place_id: i64, is_local: bool) -> (m: u64)
    ensures
        m as int == db::max_date_matching(
            visits@.map_values(|v: VisitRow| v@),
            place_id as int,
            is_local,
        ),
{
    let ghost vs = visits@.map_values(|v: VisitRow| v@);
    let mut m: u64 = 0;
    let mut i: usize = 0;
    while i < visits.len()
        invariant
            i <= visits@.len(),
            vs == visits@.map_values(|v: VisitRow| v@),
            m as int == db::max_date_matching(vs.take(i as int), place_id as int, is_local),
        decreases visits@.len() - i,
    {
        proof {
            assert(vs.take(i + 1).drop_last() =~= vs.take(i as int));
            assert(vs.take(i + 1).last() == vs[i as int]);
        }
        if visits[i].place_id.0 == place_id && visits[i].is_local == is_local && visits[i].visit_date.0
            > m {
            m = visits[i].visit_date.0;
        }
        i += 1;
    }
    proof {
        assert(vs.take(vs.len() as int) =~= vs);
    }
    m
}

fn find_visit_idx(db: &PlacesDb, visit_id: i64) -> (r: Option<usize>)
    ensures
        match r {
            Some(k) => db::find_visit(db@.visits, visit_id as int) == Some(k as int),
            None => db::find_visit(db@.visits, visit_id as int) is None,
        },
{
    proof {
        db::lemma_find_visit(db@.visits, visit_id as int);
    }
    let mut k: usize = 0;
    while k < db.visits.len()
        invariant
            k <= db.visits@.len(),
            forall|j: int| 0 <= j < k ==> (#[trigger] db@.visits[j]).row_id != visit_id as int,
        decreases db.visits@.len() - k,
    {
        if db.visits[k].row_id.0 == visit_id {
            proof {
                assert(db@.visits[k as int].row_id == visit_id as int);
                db::lemma_find_visit(db@.visits, visit_id as int);
                assert(db::find_visit(db@.visits, visit_id as int) == Some(k as int));
            }
            return Some(k);
        }
        k += 1;
    }
    None
}

/// Deletes one visit row by id, as the storage layer's triggers would:
/// the owning page's visit counts and last-visit timestamps are brought
/// back in step, while its frecency is deliberately left as it was.
/// Deleting an id that no row holds is a no-op.
#[verifier::rlimit(100)]
pub fn delete_visit(db: &mut PlacesDb, visit_id: RowId) -> (r: Result<(), Error>)
    requires
        old(db).wf(),
    ensures
        final(db).wf(),
        r is Ok,
        match db::find_visit(old(db)@.visits, visit_id.0 as int) {
            None => *final(db) == *old(db),
            Some(k) => {
                &&& final(db)@.visits == old(db)@.visits.remove(k)
                &&& final(db)@.pages.len() == old(db)@.pages.len()
                &&& final(db)@.next_page_id == old(db)@.next_page_id
                &&& final(db)@.next_visit_id == old(db)@.next_visit_id
                &&& final(db)@.guid_counter == old(db)@.guid_counter
                &&& forall|j: int|
                    0 <= j < old(db)@.pages.len() ==> db::same_page_identity(
                        #[trigger] final(db)@.pages[j],
                        old(db)@.pages[j],
                    )
            },
        },
{
    let ghost m = old(db)@;
    let kidx = match find_visit_idx(db, visit_id.0) {
        Some(kk) => kk,
        None => {
            return Ok(());
        },
    };
    proof {
        db::lemma_find_visit(m.visits, visit_id.0 as int);
        assert(0 <= (kidx as int) && (kidx as int) < db.visits@.len());
    }
    let owner = db.find_page_by_id(db.visits[kidx].place_id.0);
    let removed = db.visits.remove(kidx);
    let ghost vs2 = db@.visits;
    proof {
        assert(vs2 =~~= m.visits.remove(kidx as int));
        m.visits.remove_ensures(kidx as int);
    }
    match owner {
        Some(pidx) => {
            proof {
                db::lemma_find_page_by_id(m.pages, removed.place_id.0 as int);
            }
            let cl = count_visits(&db.visits, removed.place_id.0, true);
            let cr = count_visits(&db.visits, removed.place_id.0, false);
            let dl = max_visit_date(&db.visits, removed.place_id.0, true);
            let dr = max_visit_date(&db.visits, removed.place_id.0, false);
            proof {
                let i = pidx as int;
                let pid = removed.place_id.0 as int;
                assert(db@.pages[i].row_id == pid);
                assert(db::page_aggregates_ok(m.pages[i], m.visits));
                db::lemma_matching_remove(m.visits, kidx as int, pid, true);
                db::lemma_matching_remove(m.visits, kidx as int, pid, false);
                db::lemma_count_nonneg(vs2, pid, true);
                db::lemma_count_nonneg(vs2, pid, false);
                assert(db::count_matching(vs2, pid, true) <= m.pages[i].visit_count_local);
                assert(db::count_matching(vs2, pid, false) <= m.pages[i].visit_count_remote);
            }
            db.pages[pidx].info.visit_count_local = cl as i32;
            db.pages[pidx].info.visit_count_remote = cr as i32;
            db.pages[pidx].info.last_visit_date_local = Timestamp(dl);
            db.pages[pidx].info.last_visit_date_remote = Timestamp(dr);
            proof {
                let i = pidx as int;
                let pid = removed.place_id.0 as int;
                let newp = PageModel {
                    visit_count_local: cl as int,
                    visit_count_remote: cr as int,
                    last_visit_date_local: dl as int,
                    last_visit_date_remote: dr as int,
                    ..m.pages[i]
                };
                assert(db@.pages =~~= m.pages.update(i, newp));
                assert forall|j: int| 0 <= j < db@.pages.len() implies db::page_aggregates_ok(
                    #[trigger] db@.pages[j],
                    db@.visits,
                ) by {
                    if j != i {
                        assert(db@.pages[j] == m.pages[j]);
                        assert(db::page_aggregates_ok(m.pages[j], m.visits));
                        assert(m.pages[j].row_id != pid);
                        db::lemma_matching_remove(m.visits, kidx as int, m.pages[j].row_id, true);
                        db::lemma_matching_remove(m.visits, kidx as int, m.pages[j].row_id, false);
                        db::lemma_max_remove_nonmatching(
                            m.visits,
                            kidx as int,
                            m.pages[j].row_id,
                            true,
                        );
                        db::lemma_max_remove_nonmatching(
                            m.visits,
                            kidx as int,
                            m.pages[j].row_id,
                            false,
                        );
                    }
                }
                assert(db::inv(db@));
                assert(db.wf());
            }
            Ok(())
        },
        None => {
            proof {
                db::lemma_find_page_by_id(m.pages, removed.place_id.0 as int);
                let pid = removed.place_id.0 as int;
                assert forall|j: int| 0 <= j < db@.pages.len() implies db::page_aggregates_ok(
                    #[trigger] db@.pages[j],
                    db@.visits,
                ) by {
                    assert(db@.pages[j] == m.pages[j]);
                    assert(db::page_aggregates_ok(m.pages[j], m.visits));
                    assert(m.pages[j].row_id != pid);
                    db::lemma_matching_remove(m.visits, kidx as int, m.pages[j].row_id, true);
                    db::lemma_matching_remove(m.visits, kidx as int, m.pages[j].row_id, false);
                    db::lemma_max_remove_nonmatching(m.visits, kidx as int, m.pages[j].row_id, true);
                    db::lemma_max_remove_nonmatching(
                        m.visits,
                        kidx as int,
                        m.pages[j].row_id,
                        false,
                    );
                }
                assert(db::inv(db@));
                assert(db.wf());
            }
            Ok(())
        },
    }
}

/// The character, lowered when it is an ASCII capital.
pub open spec fn lower_char(c: char) -> char {
    if 65 <= c as int && c as int <= 90 {
        ((c as u8) + 32) as char
    } else {
        c
    }
}

/// The host written backwards, each character ASCII-lowered.
pub open spec fn rev_lower(s: Seq<char>) -> Seq<char> {
    Seq::new(s.len(), |i: int| lower_char(s[s.len() - 1 - i]))
}

/// An origin: the scheme prefix and host of a page's URL, with its own
/// ranking score.
#[derive(Debug)]
pub struct Origin {
    pub prefix: String,
    pub host: String,
    pub frecency: i64,
}

impl Origin {
    /// The host written backwards in ASCII lowercase, the form the
    /// origins index keys by.
    pub fn rev_host(&self) -> (r: String)
        ensures
            r@ == rev_lower(self.host@),
    {
        let s = self.host.as_str();
        let n = s.unicode_len();
        let mut out = String::new();
        let mut i: usize = 0;
        while i < n
            invariant
                i <= n,
                n as int == s@.len(),
                s@ == self.host@,
                out@ == rev_lower(s@).take(i as int),
            decreases n - i,
        {
            let c = s.get_char(n - 1 - i);
            let lowered: char = if 'A' <= c && c <= 'Z' {
                (((c as u8) + 32) as u8) as char
            } else {
                c
            };
            crate::types::push_char(&mut out, lowered);
            proof {
                assert(lowered == lower_char(s@[n - 1 - i as int]));
                assert(out@ =~= rev_lower(s@).take(i + 1));
            }
            i += 1;
        }
        proof {
            assert(rev_lower(s@).take(n as int) =~= rev_lower(s@));
        }
        out
    }
}

} // verus!
