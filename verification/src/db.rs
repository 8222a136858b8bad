//! The page/visit store and its abstract model: a single-writer,
//! transaction-scoped engine holding one `pages` table and one `visits`
//! table, with the derived page aggregates (visit counts and last-visit
//! timestamps) the storage layer maintains.

use vstd::prelude::*;
use crate::error::{Error, ErrorKind};
use crate::frecency::{frecency_of, spec_default_settings};
use crate::hash::url_hash_of;
use crate::observation::{spec_redirect_boost, ObservationModel};
use crate::storage::{PageInfo, PageModel, VisitModel, VisitRow};
use crate::types::dec_digits;

verus! {

/// One page row as stored: the queryable snapshot plus the precomputed
/// URL hash the lookup index uses.
#[derive(Debug)]
pub struct StoredPage {
    pub info: PageInfo,
    pub url_hash: u64,
}

impl View for StoredPage {
    type V = PageModel;

    open spec fn view(&self) -> PageModel {
        self.info@
    }
}

/// The abstract store: the two tables and the engine's row-key and guid
/// counters.
#[verifier::ext_equal]
pub struct StoreModel {
    pub pages: Seq<PageModel>,
    pub visits: Seq<VisitModel>,
    pub next_page_id: int,
    pub next_visit_id: int,
    pub guid_counter: int,
}

/// How many visits of `vs` belong to page `place_id` with the given
/// locality.
pub open spec fn count_matching(vs: Seq<VisitModel>, place_id: int, is_local: bool) -> int
    decreases vs.len(),
{
    if vs.len() == 0 {
        0
    } else {
        count_matching(vs.drop_last(), place_id, is_local) + if vs.last().place_id == place_id
            && vs.last().is_local == is_local {
            1int
        } else {
            0int
        }
    }
}

/// The greatest visit date among those visits, `0` when there are none.
pub open spec fn max_date_matching(vs: Seq<VisitModel>, place_id: int, is_local: bool) -> int
    decreases vs.len(),
{
    if vs.len() == 0 {
        0
    } else {
        let rest = max_date_matching(vs.drop_last(), place_id, is_local);
        if vs.last().place_id == place_id && vs.last().is_local == is_local && vs.last().visit_date
            > rest {
            vs.last().visit_date
        } else {
            rest
        }
    }
}

/// The derived aggregate columns of a page row are exactly what its visit
/// history dictates.
pub open spec fn page_aggregates_ok(p: PageModel, vs: Seq<VisitModel>) -> bool {
    &&& p.visit_count_local == count_matching(vs, p.row_id, true)
    &&& p.visit_count_remote == count_matching(vs, p.row_id, false)
    &&& p.last_visit_date_local == max_date_matching(vs, p.row_id, true)
    &&& p.last_visit_date_remote == max_date_matching(vs, p.row_id, false)
}

/// The cross-row invariant of the store: unique URLs and row keys, row
/// keys below the counters, visit dates non-negative, and every page's
/// aggregate columns consistent with the visit table.
pub open spec fn inv(m: StoreModel) -> bool {
    &&& forall|i: int, j: int|
        0 <= i < j < m.pages.len() ==> (#[trigger] m.pages[i]).url != (#[trigger] m.pages[j]).url
    &&& forall|i: int, j: int|
        0 <= i < j < m.pages.len() ==> (#[trigger] m.pages[i]).row_id != (
        #[trigger] m.pages[j]).row_id
    &&& forall|i: int| 0 <= i < m.pages.len() ==> 0 < (#[trigger] m.pages[i]).row_id
        < m.next_page_id
    &&& forall|i: int, j: int|
        0 <= i < j < m.visits.len() ==> (#[trigger] m.visits[i]).row_id != (
        #[trigger] m.visits[j]).row_id
    &&& forall|i: int| 0 <= i < m.visits.len() ==> 0 < (#[trigger] m.visits[i]).row_id
        < m.next_visit_id
    &&& forall|i: int| 0 <= i < m.visits.len() ==> (#[trigger] m.visits[i]).visit_date >= 0
    &&& forall|i: int| 0 <= i < m.visits.len() ==> 0 < (#[trigger] m.visits[i]).place_id
        < m.next_page_id
    &&& forall|i: int|
        0 <= i < m.pages.len() ==> page_aggregates_ok(#[trigger] m.pages[i], m.visits)
    &&& 0 < m.next_page_id <= i64::MAX
    &&& 0 < m.next_visit_id <= i64::MAX
    &&& 0 <= m.guid_counter <= u64::MAX
}

/// The first page whose URL is exactly `url`.
pub open spec fn find_page(pages: Seq<PageModel>, url: Seq<char>) -> Option<int>
    decreases pages.len(),
{
    if pages.len() == 0 {
        None
    } else if pages[0].url == url {
        Some(0int)
    } else {
        match find_page(pages.drop_first(), url) {
            Some(i) => Some(i + 1),
            None => None,
        }
    }
}

/// The first page whose row key is `id`.
pub open spec fn page_index_by_id(m: StoreModel, id: int) -> Option<int>
    decreases m.pages.len(),
{
    find_page_by_id_rec(m.pages, id)
}

pub open spec fn find_page_by_id_rec(pages: Seq<PageModel>, id: int) -> Option<int>
    decreases pages.len(),
{
    if pages.len() == 0 {
        None
    } else if pages[0].row_id == id {
        Some(0int)
    } else {
        match find_page_by_id_rec(pages.drop_first(), id) {
            Some(i) => Some(i + 1),
            None => None,
        }
    }
}

pub proof fn lemma_find_page(pages: Seq<PageModel>, url: Seq<char>)
    ensures
        match find_page(pages, url) {
            Some(i) => 0 <= i < pages.len() && pages[i].url == url && forall|j: int|
                0 <= j < i ==> (#[trigger] pages[j]).url != url,
            None => forall|j: int| 0 <= j < pages.len() ==> (#[trigger] pages[j]).url != url,
        },
    decreases pages.len(),
{
    if pages.len() > 0 && pages[0].url != url {
        lemma_find_page(pages.drop_first(), url);
        assert(forall|j: int|
            1 <= j < pages.len() ==> (#[trigger] pages[j]) == pages.drop_first()[j - 1]);
    }
}

pub proof fn lemma_find_page_by_id(pages: Seq<PageModel>, id: int)
    ensures
        match find_page_by_id_rec(pages, id) {
            Some(i) => 0 <= i < pages.len() && pages[i].row_id == id && forall|j: int|
                0 <= j < i ==> (#[trigger] pages[j]).row_id != id,
            None => forall|j: int| 0 <= j < pages.len() ==> (#[trigger] pages[j]).row_id != id,
        },
    decreases pages.len(),
{
    if pages.len() > 0 && pages[0].row_id != id {
        lemma_find_page_by_id(pages.drop_first(), id);
        assert(forall|j: int|
            1 <= j < pages.len() ==> (#[trigger] pages[j]) == pages.drop_first()[j - 1]);
    }
}

pub proof fn lemma_count_nonneg(vs: Seq<VisitModel>, place_id: int, is_local: bool)
    ensures
        0 <= count_matching(vs, place_id, is_local) <= vs.len(),
    decreases vs.len(),
{
    if vs.len() > 0 {
        lemma_count_nonneg(vs.drop_last(), place_id, is_local);
    }
}

/// Appending one visit raises the matching count by one exactly for its
/// own page and locality, and updates the running maximum.
pub proof fn lemma_matching_push(vs: Seq<VisitModel>, v: VisitModel, place_id: int, is_local: bool)
    ensures
        count_matching(vs.push(v), place_id, is_local) == count_matching(vs, place_id, is_local)
            + if v.place_id == place_id && v.is_local == is_local {
            1int
        } else {
            0int
        },
        max_date_matching(vs.push(v), place_id, is_local) == if v.place_id == place_id
            && v.is_local == is_local && v.visit_date > max_date_matching(vs, place_id, is_local) {
            v.visit_date
        } else {
            max_date_matching(vs, place_id, is_local)
        },
{
    assert(vs.push(v).drop_last() =~= vs);
}

/// Removing one visit lowers the matching count by one exactly for its
/// own page and locality.
pub proof fn lemma_matching_remove(vs: Seq<VisitModel>, k: int, place_id: int, is_local: bool)
    requires
        0 <= k < vs.len(),
    ensures
        count_matching(vs.remove(k), place_id, is_local) == count_matching(vs, place_id, is_local)
            - if vs[k].place_id == place_id && vs[k].is_local == is_local {
            1int
        } else {
            0int
        },
    decreases vs.len(),
{
    if k == vs.len() - 1 {
        assert(vs.remove(k) =~= vs.drop_last());
    } else {
        assert(vs.remove(k).drop_last() =~= vs.drop_last().remove(k));
        assert(vs.remove(k).last() == vs.last());
        lemma_matching_remove(vs.drop_last(), k, place_id, is_local);
    }
}

/// A page no visit belongs to has zero counts and zero last dates.
pub proof fn lemma_matching_absent(vs: Seq<VisitModel>, place_id: int, is_local: bool)
    requires
        forall|i: int| 0 <= i < vs.len() ==> (#[trigger] vs[i]).place_id != place_id,
    ensures
        count_matching(vs, place_id, is_local) == 0,
        max_date_matching(vs, place_id, is_local) == 0,
    decreases vs.len(),
{
    if vs.len() > 0 {
        assert(forall|i: int|
            0 <= i < vs.drop_last().len() ==> (#[trigger] vs.drop_last()[i]).place_id != place_id);
        lemma_matching_absent(vs.drop_last(), place_id, is_local);
    }
}

/// Removing a visit that does not match leaves the running maximum as it
/// was.
pub proof fn lemma_max_remove_nonmatching(vs: Seq<VisitModel>, k: int, place_id: int, is_local: bool)
    requires
        0 <= k < vs.len(),
        !(vs[k].place_id == place_id && vs[k].is_local == is_local),
    ensures
        max_date_matching(vs.remove(k), place_id, is_local) == max_date_matching(
            vs,
            place_id,
            is_local,
        ),
    decreases vs.len(),
{
    if k == vs.len() - 1 {
        assert(vs.remove(k) =~= vs.drop_last());
    } else {
        assert(vs.remove(k).drop_last() =~= vs.drop_last().remove(k));
        assert(vs.remove(k).last() == vs.last());
        lemma_max_remove_nonmatching(vs.drop_last(), k, place_id, is_local);
    }
}

/// No matching visits means no last date.
pub proof fn lemma_count_zero_max_zero(vs: Seq<VisitModel>, place_id: int, is_local: bool)
    requires
        count_matching(vs, place_id, is_local) == 0,
    ensures
        max_date_matching(vs, place_id, is_local) == 0,
    decreases vs.len(),
{
    if vs.len() > 0 {
        lemma_count_nonneg(vs.drop_last(), place_id, is_local);
        lemma_count_zero_max_zero(vs.drop_last(), place_id, is_local);
    }
}

/// A page with at least one matching visit has one that holds the
/// maximum date.
pub proof fn lemma_max_achieved(vs: Seq<VisitModel>, place_id: int, is_local: bool)
    requires
        count_matching(vs, place_id, is_local) > 0,
        forall|i: int| 0 <= i < vs.len() ==> (#[trigger] vs[i]).visit_date >= 0,
    ensures
        exists|k: int|
            0 <= k < vs.len() && (#[trigger] vs[k]).place_id == place_id && vs[k].is_local
                == is_local && vs[k].visit_date == max_date_matching(vs, place_id, is_local),
    decreases vs.len(),
{
    let last = vs.last();
    let m = max_date_matching(vs, place_id, is_local);
    let rest = vs.drop_last();
    let n = vs.len() - 1;
    assert(forall|i: int| 0 <= i < rest.len() ==> (#[trigger] rest[i]).visit_date >= 0);
    lemma_count_nonneg(rest, place_id, is_local);
    if count_matching(rest, place_id, is_local) > 0 {
        lemma_max_achieved(rest, place_id, is_local);
        if last.place_id == place_id && last.is_local == is_local && last.visit_date
            > max_date_matching(rest, place_id, is_local) {
            assert(0 <= n < vs.len() && vs[n].place_id == place_id && vs[n].is_local == is_local
                && vs[n].visit_date == m);
        } else {
            let k = choose|k: int|
                0 <= k < rest.len() && (#[trigger] rest[k]).place_id == place_id && rest[k].is_local
                    == is_local && rest[k].visit_date == max_date_matching(
                    rest,
                    place_id,
                    is_local,
                );
            assert(vs[k] == rest[k]);
            assert(0 <= k < vs.len() && vs[k].place_id == place_id && vs[k].is_local == is_local
                && vs[k].visit_date == m);
        }
    } else {
        // the last visit is the only matching one
        lemma_count_zero_max_zero(rest, place_id, is_local);
        assert(last.place_id == place_id && last.is_local == is_local);
        assert(0 <= n < vs.len() && vs[n].place_id == place_id && vs[n].is_local == is_local && vs[
            n].visit_date == m);
    }
}

/// The first visit row carrying `row_id`.
pub open spec fn find_visit(vs: Seq<VisitModel>, row_id: int) -> Option<int>
    decreases vs.len(),
{
    if vs.len() == 0 {
        None
    } else if vs[0].row_id == row_id {
        Some(0int)
    } else {
        match find_visit(vs.drop_first(), row_id) {
            Some(i) => Some(i + 1),
            None => None,
        }
    }
}

pub proof fn lemma_find_visit(vs: Seq<VisitModel>, row_id: int)
    ensures
        match find_visit(vs, row_id) {
            Some(i) => 0 <= i < vs.len() && vs[i].row_id == row_id && forall|j: int|
                0 <= j < i ==> (#[trigger] vs[j]).row_id != row_id,
            None => forall|j: int| 0 <= j < vs.len() ==> (#[trigger] vs[j]).row_id != row_id,
        },
    decreases vs.len(),
{
    if vs.len() > 0 && vs[0].row_id != row_id {
        lemma_find_visit(vs.drop_first(), row_id);
        assert(forall|j: int| 1 <= j < vs.len() ==> (#[trigger] vs[j]) == vs.drop_first()[j - 1]);
    }
}

/// A freshly created page row: hidden, untitled, never scored.
pub open spec fn new_page(url: Seq<char>, guid: Seq<char>, row_id: int) -> PageModel {
    PageModel {
        url,
        guid,
        row_id,
        title: Seq::empty(),
        hidden: true,
        typed: 0,
        frecency: -1,
        visit_count_local: 0,
        visit_count_remote: 0,
        last_visit_date_local: 0,
        last_visit_date_remote: 0,
    }
}

/// The staged column updates of one observation: the title always
/// overwrites; a non-hidden visit reveals the page; a typed visit bumps
/// the typed counter.
pub open spec fn staged_page(p: PageModel, ob: ObservationModel) -> PageModel {
    let p1 = match ob.title {
        Some(t) => PageModel { title: t, ..p },
        None => p,
    };
    let p2 = if ob.visit_type is Some && !crate::observation::spec_is_hidden(ob) {
        PageModel { hidden: false, ..p1 }
    } else {
        p1
    };
    if ob.visit_type == Some(crate::types::VisitTransition::Typed) {
        PageModel { typed: p2.typed + 1, ..p2 }
    } else {
        p2
    }
}

/// The trigger-maintained aggregate update for one inserted visit.
pub open spec fn page_with_visit(p: PageModel, v: VisitModel) -> PageModel {
    if v.is_local {
        PageModel {
            visit_count_local: p.visit_count_local + 1,
            last_visit_date_local: if v.visit_date > p.last_visit_date_local {
                v.visit_date
            } else {
                p.last_visit_date_local
            },
            ..p
        }
    } else {
        PageModel {
            visit_count_remote: p.visit_count_remote + 1,
            last_visit_date_remote: if v.visit_date > p.last_visit_date_remote {
                v.visit_date
            } else {
                p.last_visit_date_remote
            },
            ..p
        }
    }
}

/// The page after its frecency has been recomputed from its own (already
/// updated) aggregates.
pub open spec fn rescored_page(p: PageModel, boost: bool) -> PageModel {
    PageModel {
        frecency: frecency_of(
            spec_default_settings(),
            p.visit_count_local + p.visit_count_remote,
            boost,
        ),
        ..p
    }
}

/// The store after the observed page has been resolved: unchanged when
/// the URL is already present, extended by a fresh page row otherwise.
/// The second component is the index of the resolved page.
pub open spec fn resolved(m: StoreModel, url: Seq<char>) -> (StoreModel, int) {
    match find_page(m.pages, url) {
        Some(i) => (m, i),
        None => (
            StoreModel {
                pages: m.pages.push(
                    new_page(url, dec_digits(m.guid_counter as u64), m.next_page_id),
                ),
                next_page_id: m.next_page_id + 1,
                guid_counter: m.guid_counter + 1,
                ..m
            },
            m.pages.len() as int,
        ),
    }
}

/// The store after the observed page has been resolved and its column
/// updates staged, before any visit is inserted.
pub open spec fn staged_store(m: StoreModel, ob: ObservationModel) -> StoreModel {
    let (m1, i) = resolved(m, ob.url);
    StoreModel { pages: m1.pages.update(i, staged_page(m1.pages[i], ob)), ..m1 }
}

/// The visit row one observation inserts.
pub open spec fn observed_visit(
    m: StoreModel,
    ob: ObservationModel,
    page_row_id: int,
    vt: crate::types::VisitTransition,
    fallback_at: int,
) -> VisitModel {
    VisitModel {
        row_id: m.next_visit_id,
        place_id: page_row_id,
        from_visit: None,
        visit_date: match ob.at {
            Some(t) => t,
            None => fallback_at,
        },
        visit_type: vt,
        is_local: !ob.is_remote,
    }
}

/// The whole reconciliation transition: resolve or create the page, stage
/// its column updates, insert the visit, and rescore — unless the
/// observation is flagged as an error, in which case the prior score
/// stays.
pub open spec fn spec_apply(m: StoreModel, ob: ObservationModel, fallback_at: int) -> StoreModel {
    let (m1, i) = resolved(m, ob.url);
    let staged = staged_page(m1.pages[i], ob);
    match ob.visit_type {
        None => StoreModel { pages: m1.pages.update(i, staged), ..m1 },
        Some(vt) => {
            let v = observed_visit(m1, ob, staged.row_id, vt, fallback_at);
            let p2 = page_with_visit(staged, v);
            let p3 = if ob.is_error {
                p2
            } else {
                rescored_page(p2, spec_redirect_boost(ob))
            };
            StoreModel {
                pages: m1.pages.update(i, p3),
                visits: m1.visits.push(v),
                next_visit_id: m1.next_visit_id + 1,
                ..m1
            }
        },
    }
}

/// The row id `spec_apply` hands back: the id of the inserted visit, or
/// nothing when the observation records no visit.
pub open spec fn spec_apply_result(m: StoreModel, ob: ObservationModel) -> Option<int> {
    if ob.visit_type is Some {
        Some(m.next_visit_id)
    } else {
        None
    }
}

/// The machine-limit conditions under which the engine refuses an
/// observation instead of wrapping a counter or an aggregate column.
pub open spec fn apply_overflows(m: StoreModel, ob: ObservationModel) -> bool {
    let creating = find_page(m.pages, ob.url) is None;
    let (m1, i) = resolved(m, ob.url);
    let p = m1.pages[i];
    ||| creating && (m.next_page_id >= i64::MAX || m.guid_counter >= u64::MAX)
    ||| ob.visit_type is Some && {
        ||| m.next_visit_id >= i64::MAX
        ||| ob.visit_type == Some(crate::types::VisitTransition::Typed) && p.typed >= u32::MAX
        ||| !ob.is_remote && p.visit_count_local >= i32::MAX
        ||| ob.is_remote && p.visit_count_remote >= i32::MAX
        ||| (ob.at matches Some(t) && t > u64::MAX)
    }
}

/// Does this visit put its page inside the queried window?
pub open spec fn visit_in_range(
    v: VisitModel,
    place_id: int,
    start: int,
    end: int,
    include_remote: bool,
) -> bool {
    v.place_id == place_id && start <= v.visit_date <= end && (include_remote || v.is_local)
}

pub open spec fn has_visit_in_range(
    m: StoreModel,
    place_id: int,
    start: int,
    end: int,
    include_remote: bool,
) -> bool {
    exists|k: int|
        0 <= k < m.visits.len() && visit_in_range(
            #[trigger] m.visits[k],
            place_id,
            start,
            end,
            include_remote,
        )
}

/// The URLs of the first `n` pages that have a visit inside the window,
/// in store order.
pub open spec fn visited_urls_upto(
    m: StoreModel,
    start: int,
    end: int,
    include_remote: bool,
    n: int,
) -> Seq<Seq<char>>
    decreases n,
{
    if n <= 0 {
        Seq::empty()
    } else {
        let rest = visited_urls_upto(m, start, end, include_remote, n - 1);
        if has_visit_in_range(m, m.pages[n - 1].row_id, start, end, include_remote) {
            rest.push(m.pages[n - 1].url)
        } else {
            rest
        }
    }
}

pub open spec fn visited_urls(m: StoreModel, start: int, end: int, include_remote: bool) -> Seq<
    Seq<char>,
> {
    visited_urls_upto(m, start, end, include_remote, m.pages.len() as int)
}

/// Everything on a page row except the trigger-maintained aggregate
/// columns.
pub open spec fn same_page_identity(a: PageModel, b: PageModel) -> bool {
    &&& a.url == b.url
    &&& a.guid == b.guid
    &&& a.row_id == b.row_id
    &&& a.title == b.title
    &&& a.hidden == b.hidden
    &&& a.typed == b.typed
    &&& a.frecency == b.frecency
}

/// An observation that carries its own timestamp is applied the same way
/// whatever the clock says.
pub proof fn lemma_fallback_irrelevant(m: StoreModel, ob: ObservationModel, t1: int, t2: int)
    requires
        ob.at is Some,
    ensures
        spec_apply(m, ob, t1) == spec_apply(m, ob, t2),
{
    assert(spec_apply(m, ob, t1) =~~= spec_apply(m, ob, t2));
}

/// The in-memory page/visit store: the engine behind the storage layer.
#[derive(Debug)]
pub struct PlacesDb {
    pub pages: Vec<StoredPage>,
    pub visits: Vec<VisitRow>,
    pub next_page_id: i64,
    pub next_visit_id: i64,
    pub guid_counter: u64,
}

impl View for PlacesDb {
    type V = StoreModel;

    open spec fn view(&self) -> StoreModel {
        StoreModel {
            pages: self.pages@.map_values(|sp: StoredPage| sp@),
            visits: self.visits@.map_values(|v: VisitRow| v@),
            next_page_id: self.next_page_id as int,
            next_visit_id: self.next_visit_id as int,
            guid_counter: self.guid_counter as int,
        }
    }
}

impl PlacesDb {
    /// Well-formed: the model invariant holds and every stored hash is
    /// the hash of its own URL.
    pub open spec fn wf(&self) -> bool {
        &&& inv(self@)
        &&& forall|i: int|
            0 <= i < self.pages@.len() ==> (#[trigger] self.pages@[i]).url_hash == url_hash_of(
                self.pages@[i].info.url@,
            )
    }

    /// Opens a fresh, empty in-memory store. The key parameter exists for
    /// interface parity with file-backed engines; an in-memory store
    /// accepts any.
    pub fn open_in_memory(_encryption_key: Option<&str>) -> (r: Result<PlacesDb, Error>)
        ensures
            r matches Ok(db) && db.wf() && db@.pages.len() == 0 && db@.visits.len() == 0
                && db@.next_visit_id == 1 && db@.next_page_id == 1 && db@.guid_counter == 0,
    {
        let db = PlacesDb {
            pages: Vec::new(),
            visits: Vec::new(),
            next_page_id: 1,
            next_visit_id: 1,
            guid_counter: 0,
        };
        proof {
            assert(db@.pages =~= Seq::<PageModel>::empty());
            assert(db@.visits =~= Seq::<VisitModel>::empty());
        }
        Ok(db)
    }

    /// The index of the page row holding `url`, located hash-first and
    /// confirmed by exact string equality, so a hash collision can never
    /// resolve to the wrong page.
    pub fn find_page_idx(&self, url: &crate::urls::Url, h: u64) -> (r: Option<usize>)
        requires
            self.wf(),
            h == url_hash_of(url@),
        ensures
            match r {
                Some(i) => find_page(self@.pages, url@) == Some(i as int),
                None => find_page(self@.pages, url@) is None,
            },
    {
        proof {
            lemma_find_page(self@.pages, url@);
        }
        let mut i: usize = 0;
        while i < self.pages.len()
            invariant
                self.wf(),
                h == url_hash_of(url@),
                i <= self.pages@.len(),
                forall|j: int| 0 <= j < i ==> (#[trigger] self@.pages[j]).url != url@,
            decreases self.pages@.len() - i,
        {
            if self.pages[i].url_hash == h && self.pages[i].info.url == *url {
                proof {
                    assert(self@.pages[i as int].url == url@);
                    lemma_find_page(self@.pages, url@);
                    assert(find_page(self@.pages, url@) == Some(i as int));
                }
                return Some(i);
            }
            proof {
                // either the hashes differ, and then the URLs must differ,
                // or the exact comparison said they differ
                if self@.pages[i as int].url == url@ {
                    assert(self.pages@[i as int].url_hash == url_hash_of(
                        self.pages@[i as int].info.url@,
                    ));
                }
            }
            i += 1;
        }
        None
    }

    /// The index of the page row with row key `id`.
    pub fn find_page_by_id(&self, id: i64) -> (r: Option<usize>)
        requires
            self.wf(),
        ensures
            match r {
                Some(i) => page_index_by_id(self@, id as int) == Some(i as int),
                None => page_index_by_id(self@, id as int) is None,
            },
    {
        proof {
            lemma_find_page_by_id(self@.pages, id as int);
        }
        let mut i: usize = 0;
        while i < self.pages.len()
            invariant
                self.wf(),
                i <= self.pages@.len(),
                forall|j: int| 0 <= j < i ==> (#[trigger] self@.pages[j]).row_id != id,
            decreases self.pages@.len() - i,
        {
            if self.pages[i].info.row_id.0 == id {
                proof {
                    assert(self@.pages[i as int].row_id == id as int);
                    lemma_find_page_by_id(self@.pages, id as int);
                    assert(find_page_by_id_rec(self@.pages, id as int) == Some(i as int));
                }
                return Some(i);
            }
            i += 1;
        }
        None
    }
}

} // verus!
