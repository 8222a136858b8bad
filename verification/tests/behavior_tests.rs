use places::db::PlacesDb;
use places::error::{self, Error, ErrorKind};
use places::frecency::{calculate_frecency, FrecencySettings};
use places::observation::VisitObservation;
use places::storage::{
    apply_observation, apply_observation_direct, delete_visit, fetch_page_info, get_visited,
    update_frecency, RowId,
};
use places::types::{Timestamp, VisitTransition};
use places::urls::Url;

fn open() -> PlacesDb {
    PlacesDb::open_in_memory(None).expect("no memory db")
}

fn visit(url: &Url, t: u64, remote: bool) -> VisitObservation {
    VisitObservation::new(url.clone())
        .with_visit_type(VisitTransition::Link)
        .with_at(Some(Timestamp(t)))
        .with_is_remote(remote)
}

#[test]
fn test_metadata_only_observation() {
    let mut conn = open();
    let url = Url::parse("https://example.com/page").unwrap();
    // A visit first, so the page has history.
    apply_observation(&mut conn, visit(&url, 1_000, false))
        .expect("Should apply visit")
        .expect("should get a rowid");
    // No visit_type: no visit is recorded, but the title still lands.
    let r = apply_observation(
        &mut conn,
        VisitObservation::new(url.clone()).with_title("A title".to_string()),
    )
    .expect("Should apply observation");
    assert_eq!(r, None);
    let pi = fetch_page_info(&conn, &url)
        .expect("should not fail")
        .expect("should have the page");
    assert_eq!(pi.page.title, "A title");
    assert_eq!(pi.page.visit_count_local, 1);
    assert_eq!(pi.page.visit_count_remote, 0);
}

#[test]
fn test_hidden_monotone() {
    let mut conn = open();
    let url = Url::parse("https://example.com/frame").unwrap();
    // An embedded (framework-internal) visit keeps the page hidden.
    apply_observation(
        &mut conn,
        VisitObservation::new(url.clone())
            .with_visit_type(VisitTransition::Embed)
            .with_at(Some(Timestamp(1_000))),
    )
    .expect("Should apply visit");
    let pi = fetch_page_info(&conn, &url).unwrap().unwrap();
    assert!(pi.page.hidden);
    // A plain link visit reveals it.
    apply_observation(&mut conn, visit(&url, 2_000, false)).expect("Should apply visit");
    let pi = fetch_page_info(&conn, &url).unwrap().unwrap();
    assert!(!pi.page.hidden);
    // Another embedded visit never re-hides it.
    apply_observation(
        &mut conn,
        VisitObservation::new(url.clone())
            .with_visit_type(VisitTransition::Embed)
            .with_at(Some(Timestamp(3_000))),
    )
    .expect("Should apply visit");
    let pi = fetch_page_info(&conn, &url).unwrap().unwrap();
    assert!(!pi.page.hidden);
}

#[test]
fn test_typed_increments() {
    let mut conn = open();
    let url = Url::parse("https://example.com/typed").unwrap();
    for t in [1_000u64, 2_000] {
        apply_observation(
            &mut conn,
            VisitObservation::new(url.clone())
                .with_visit_type(VisitTransition::Typed)
                .with_at(Some(Timestamp(t))),
        )
        .expect("Should apply visit");
    }
    let pi = fetch_page_info(&conn, &url).unwrap().unwrap();
    assert_eq!(pi.page.typed, 2);
    // A non-typed visit leaves the counter alone.
    apply_observation(&mut conn, visit(&url, 3_000, false)).expect("Should apply visit");
    let pi = fetch_page_info(&conn, &url).unwrap().unwrap();
    assert_eq!(pi.page.typed, 2);
}

#[test]
fn test_interleaved_localities() {
    let mut conn = open();
    let url = Url::parse("https://example.com/a").unwrap();
    let t = Timestamp::now().0;
    apply_observation(&mut conn, visit(&url, t - 60_000, false)).expect("Should apply visit");
    apply_observation(&mut conn, visit(&url, t - 30_000, true)).expect("Should apply visit");
    apply_observation(&mut conn, visit(&url, t, false)).expect("Should apply visit");
    let pi = fetch_page_info(&conn, &url).unwrap().unwrap();
    assert_eq!(pi.page.visit_count_local, 2);
    assert_eq!(pi.page.visit_count_remote, 1);
    assert_eq!(pi.page.last_visit_date_local, Timestamp(t));
    assert_eq!(pi.page.last_visit_date_remote, Timestamp(t - 30_000));
    assert!(!pi.page.hidden);
}

#[test]
fn test_error_observation_keeps_frecency() {
    let mut conn = open();
    let url = Url::parse("https://example.com/err").unwrap();
    apply_observation(&mut conn, visit(&url, 1_000, false)).expect("Should apply visit");
    let before = fetch_page_info(&conn, &url).unwrap().unwrap().page.frecency;
    assert_eq!(before, 100); // one counted visit at the default weight
    let rid = apply_observation(
        &mut conn,
        visit(&url, 2_000, false).with_is_error(true),
    )
    .expect("Should apply visit");
    assert!(rid.is_some()); // the visit itself is still recorded
    let pi = fetch_page_info(&conn, &url).unwrap().unwrap();
    assert_eq!(pi.page.visit_count_local, 2);
    assert_eq!(pi.page.frecency, before); // but the score is untouched
}

#[test]
fn test_second_title_wins() {
    let mut conn = open();
    let url = Url::parse("https://example.com/titled").unwrap();
    apply_observation(
        &mut conn,
        visit(&url, 1_000, false).with_title("first".to_string()),
    )
    .expect("Should apply visit");
    apply_observation(
        &mut conn,
        visit(&url, 2_000, false).with_title("second".to_string()),
    )
    .expect("Should apply visit");
    let pi = fetch_page_info(&conn, &url).unwrap().unwrap();
    assert_eq!(pi.page.title, "second");
}

#[test]
fn test_frecency_values() {
    let mut conn = open();
    let url = Url::parse("https://example.com/score").unwrap();
    apply_observation(&mut conn, visit(&url, 1_000, false)).expect("Should apply visit");
    assert_eq!(fetch_page_info(&conn, &url).unwrap().unwrap().page.frecency, 100);
    apply_observation(&mut conn, visit(&url, 2_000, false)).expect("Should apply visit");
    assert_eq!(fetch_page_info(&conn, &url).unwrap().unwrap().page.frecency, 200);
    // A redirect transition earns the redirect bonus on top.
    apply_observation(
        &mut conn,
        VisitObservation::new(url.clone())
            .with_visit_type(VisitTransition::RedirectTemporary)
            .with_at(Some(Timestamp(3_000))),
    )
    .expect("Should apply visit");
    assert_eq!(fetch_page_info(&conn, &url).unwrap().unwrap().page.frecency, 325);
}

#[test]
fn test_new_page_defaults() {
    let mut conn = open();
    let url = Url::parse("https://example.com/fresh").unwrap();
    // Metadata-only observation on a fresh URL creates the page...
    let r = apply_observation(&mut conn, VisitObservation::new(url.clone()))
        .expect("Should apply observation");
    assert_eq!(r, None);
    // ...and the page is known to the existence query even with no visit.
    let seen = get_visited(&conn, &[url.clone()]).unwrap();
    assert_eq!(seen, vec![true]);
}

#[test]
fn test_guids_are_distinct() {
    let mut conn = open();
    let a = Url::parse("https://example.com/a").unwrap();
    let b = Url::parse("https://example.com/b").unwrap();
    apply_observation(&mut conn, visit(&a, 1_000, false)).expect("Should apply visit");
    apply_observation(&mut conn, visit(&b, 2_000, false)).expect("Should apply visit");
    let ga = fetch_page_info(&conn, &a).unwrap().unwrap().page.guid;
    let gb = fetch_page_info(&conn, &b).unwrap().unwrap().page.guid;
    assert!(!ga.0.is_empty());
    assert_ne!(ga, gb);
}

#[test]
fn test_observation_without_timestamp_uses_clock() {
    let mut conn = open();
    let url = Url::parse("https://example.com/nowish").unwrap();
    let before = Timestamp::now().0;
    apply_observation_direct(
        &mut conn,
        VisitObservation::new(url.clone()).with_visit_type(VisitTransition::Link),
    )
    .expect("Should apply visit");
    let pi = fetch_page_info(&conn, &url).unwrap().unwrap();
    assert!(pi.page.last_visit_date_local.0 >= before);
}

#[test]
fn test_invalid_url_is_rejected() {
    let e = Url::parse("not a url").unwrap_err();
    assert_eq!(e.kind(), ErrorKind::InvalidUrl);
    // Parsing normalizes: a bare origin gains its trailing slash.
    let u = Url::parse("https://example.com").unwrap();
    assert_eq!(u.to_string(), "https://example.com/");
}

#[test]
fn test_error_codes_are_stable() {
    assert_eq!(error::get_code(&Error::new(ErrorKind::InvalidUrl)), error::INVALID_URL);
    assert_eq!(error::get_code(&Error::new(ErrorKind::StorageFailure)), error::STORAGE_FAILURE);
    assert_eq!(error::get_code(&Error::new(ErrorKind::NotADatabase)), error::NOT_A_DATABASE);
    assert_eq!(
        error::get_code(&Error::new(ErrorKind::CollaboratorFailure)),
        error::COLLABORATOR_FAILURE
    );
}

#[test]
fn test_update_frecency() {
    let mut conn = open();
    let url = Url::parse("https://example.com/rescore").unwrap();
    apply_observation(&mut conn, visit(&url, 1_000, false)).expect("Should apply visit");
    apply_observation(&mut conn, visit(&url, 2_000, false).with_is_error(true))
        .expect("Should apply visit");
    let pi = fetch_page_info(&conn, &url).unwrap().unwrap();
    assert_eq!(pi.page.frecency, 100); // the error visit was not scored
    update_frecency(&mut conn, pi.page.row_id, None).expect("should rescore");
    let pi = fetch_page_info(&conn, &url).unwrap().unwrap();
    assert_eq!(pi.page.frecency, 200);
    // An unknown row id is a storage failure.
    let e = update_frecency(&mut conn, RowId(99_999), None).unwrap_err();
    assert_eq!(e.kind(), ErrorKind::StorageFailure);
}

#[test]
fn test_calculate_frecency_contract() {
    let mut conn = open();
    let url = Url::parse("https://example.com/calc").unwrap();
    apply_observation(&mut conn, visit(&url, 1_000, false)).expect("Should apply visit");
    let pi = fetch_page_info(&conn, &url).unwrap().unwrap();
    let settings = FrecencySettings { visit_weight: 7, redirect_bonus: 3 };
    let score = calculate_frecency(&conn, &settings, pi.page.row_id.0, Some(true)).unwrap();
    assert_eq!(score, 10);
    let bad = FrecencySettings { visit_weight: -1, redirect_bonus: 0 };
    let e = calculate_frecency(&conn, &bad, pi.page.row_id.0, None).unwrap_err();
    assert_eq!(e.kind(), ErrorKind::CollaboratorFailure);
    let e = calculate_frecency(&conn, &settings, 99_999, None).unwrap_err();
    assert_eq!(e.kind(), ErrorKind::StorageFailure);
}

#[test]
fn test_delete_unknown_visit_is_noop() {
    let mut conn = open();
    let url = Url::parse("https://example.com/keep").unwrap();
    apply_observation(&mut conn, visit(&url, 1_000, false)).expect("Should apply visit");
    delete_visit(&mut conn, RowId(12_345)).expect("delete should work");
    let pi = fetch_page_info(&conn, &url).unwrap().unwrap();
    assert_eq!(pi.page.visit_count_local, 1);
}

#[test]
fn test_row_id_conversion() {
    let rid = RowId(42);
    assert_eq!(i64::from(rid), 42);
}
