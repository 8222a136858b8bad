use std::collections::HashSet;

use places::db::PlacesDb;
use places::observation::VisitObservation;
use places::storage::{
    apply_observation, delete_visit, fetch_page_info, get_visited, get_visited_urls, Origin,
};
use places::types::{Timestamp, VisitTransition};
use places::urls::Url;

#[test]
fn test_reverse() {
    let o = Origin {
        prefix: "http".to_string(),
        host: "foo.com".to_string(),
        frecency: 0,
    };
    assert_eq!(o.prefix, "http");
    assert_eq!(o.frecency, 0);
    assert_eq!(o.rev_host(), "moc.oof");
}

#[test]
fn test_get_visited_urls() {
    let mut conn = PlacesDb::open_in_memory(None).expect("no memory db");
    let now: Timestamp = Timestamp::now();
    let now_u64 = now.0;
    // (url, when, is_remote, (expected_always, expected_only_local)
    let to_add = [
        ("https://www.example.com/1", now_u64 - 200100, false, (false, false)),
        ("https://www.example.com/12", now_u64 - 200000, false, (true, true)),
        ("https://www.example.com/123", now_u64 - 10000, true, (true, false)),
        ("https://www.example.com/1234", now_u64 - 1000, false, (true, true)),
        ("https://www.mozilla.com", now_u64 - 500, false, (false, false)),
    ];

    for &(url, when, remote, _) in &to_add {
        apply_observation(
            &mut conn,
            VisitObservation::new(Url::parse(url).unwrap())
                .with_at(Some(Timestamp(when)))
                .with_is_remote(remote)
                .with_visit_type(VisitTransition::Link),
        )
        .expect("Should apply visit");
    }

    let visited_all = get_visited_urls(
        &conn,
        Timestamp(now_u64 - 200000),
        Timestamp(now_u64 - 1000),
        true,
    )
    .unwrap()
    .into_iter()
    .collect::<HashSet<_>>();

    let visited_local = get_visited_urls(
        &conn,
        Timestamp(now_u64 - 200000),
        Timestamp(now_u64 - 1000),
        false,
    )
    .unwrap()
    .into_iter()
    .collect::<HashSet<_>>();

    for &(url, ts, is_remote, (expected_in_all, expected_in_local)) in &to_add {
        // Make sure we format stuff the same way (in practice, just trailing slashes)
        let url = Url::parse(url).unwrap().to_string();
        assert_eq!(
            expected_in_local,
            visited_local.contains(&url),
            "Failed in local for {:?}",
            (url.clone(), ts, is_remote)
        );
        assert_eq!(
            expected_in_all,
            visited_all.contains(&url),
            "Failed in all for {:?}",
            (url, ts, is_remote)
        );
    }
}

#[test]
fn test_visit_counts() {
    let mut conn = PlacesDb::open_in_memory(None).expect("no memory db");
    let url = Url::parse("https://www.example.com").expect("it's a valid url");
    let late_time = Timestamp::now();
    let early_time = Timestamp(late_time.0 - 60_000);

    // add 2 local visits - add latest first
    let rid1 = apply_observation(
        &mut conn,
        VisitObservation::new(url.clone())
            .with_visit_type(VisitTransition::Link)
            .with_at(Some(late_time)),
    )
    .expect("Should apply visit")
    .expect("should get a rowid");

    let _rid2 = apply_observation(
        &mut conn,
        VisitObservation::new(url.clone())
            .with_visit_type(VisitTransition::Link)
            .with_at(Some(early_time)),
    )
    .expect("Should apply visit")
    .expect("should get a rowid");

    let mut pi = fetch_page_info(&conn, &url)
        .expect("should not fail")
        .expect("should have the page");
    assert_eq!(pi.page.visit_count_local, 2);
    assert_eq!(pi.page.last_visit_date_local, late_time);
    assert_eq!(pi.page.visit_count_remote, 0);
    assert_eq!(pi.page.last_visit_date_remote.0, 0);

    // 2 remote visits, earliest first.
    let rid3 = apply_observation(
        &mut conn,
        VisitObservation::new(url.clone())
            .with_visit_type(VisitTransition::Link)
            .with_at(Some(early_time))
            .with_is_remote(true),
    )
    .expect("Should apply visit")
    .expect("should get a rowid");

    let _rid4 = apply_observation(
        &mut conn,
        VisitObservation::new(url.clone())
            .with_visit_type(VisitTransition::Link)
            .with_at(Some(late_time))
            .with_is_remote(true),
    )
    .expect("Should apply visit")
    .expect("should get a rowid");

    pi = fetch_page_info(&conn, &url)
        .expect("should not fail")
        .expect("should have the page");
    assert_eq!(pi.page.visit_count_local, 2);
    assert_eq!(pi.page.last_visit_date_local, late_time);
    assert_eq!(pi.page.visit_count_remote, 2);
    assert_eq!(pi.page.last_visit_date_remote, late_time);

    // Delete some and make sure things update.
    // Delete the latest local visit.
    delete_visit(&mut conn, rid1).expect("delete should work");
    pi = fetch_page_info(&conn, &url)
        .expect("should not fail")
        .expect("should have the page");
    assert_eq!(pi.page.visit_count_local, 1);
    assert_eq!(pi.page.last_visit_date_local, early_time);
    assert_eq!(pi.page.visit_count_remote, 2);
    assert_eq!(pi.page.last_visit_date_remote, late_time);

    // Delete the earliest remote  visit.
    delete_visit(&mut conn, rid3).expect("delete should work");
    pi = fetch_page_info(&conn, &url)
        .expect("should not fail")
        .expect("should have the page");
    assert_eq!(pi.page.visit_count_local, 1);
    assert_eq!(pi.page.last_visit_date_local, early_time);
    assert_eq!(pi.page.visit_count_remote, 1);
    assert_eq!(pi.page.last_visit_date_remote, late_time);
}

#[test]
fn test_get_visited() {
    let mut conn = PlacesDb::open_in_memory(None).expect("no memory db");

    let to_add = [
        "https://www.example.com/1",
        "https://www.example.com/12",
        "https://www.example.com/123",
        "https://www.example.com/1234",
        "https://www.mozilla.com",
        "https://www.firefox.com",
    ];

    for item in &to_add {
        apply_observation(
            &mut conn,
            VisitObservation::new(Url::parse(item).unwrap()).with_visit_type(VisitTransition::Link),
        )
        .expect("Should apply visit");
    }

    let to_search = [
        ("https://www.example.com", false),
        ("https://www.example.com/1", true),
        ("https://www.example.com/12", true),
        ("https://www.example.com/123", true),
        ("https://www.example.com/1234", true),
        ("https://www.example.com/12345", false),
        ("https://www.mozilla.com", true),
        ("https://www.firefox.com", true),
        ("https://www.mozilla.org", false),
        // dupes should still work!
        ("https://www.example.com/1234", true),
        ("https://www.example.com/12345", false),
    ];

    let urls = to_search
        .iter()
        .map(|(url, _expect)| Url::parse(url).unwrap())
        .collect::<Vec<_>>();

    let visited = get_visited(&conn, &urls).unwrap();

    assert_eq!(visited.len(), to_search.len());

    for (i, &did_see) in visited.iter().enumerate() {
        assert_eq!(
            did_see,
            to_search[i].1,
            "Wrong value in get_visited for '{}' (idx {}), want {}, have {}",
            to_search[i].0,
            i, // idx is logged because some things are repeated
            to_search[i].1,
            did_see
        );
    }
}
