use lemmynator::listing::{
    next_sort, sort_type_index, CurrentTab, Listing, PageCursor, SortType, FETCH_LIMIT,
};

fn cursor(t: &str) -> Option<PageCursor> {
    Some(PageCursor { token: t.to_string() })
}

fn items(from: u32, n: u32) -> Vec<u32> {
    (from..from + n).collect()
}

#[test]
fn empty_listing_asks_for_first_page_once() {
    let mut l: Listing<u32> = Listing::new(CurrentTab::Local, SortType::Hot);
    let v = l.render_window();
    assert!(v.loading);
    assert!(!v.exhausted);
    assert_eq!(v.count, 0);
    let q = v.fetch.expect("first render starts a fetch");
    assert_eq!(q.listing_type, CurrentTab::Local);
    assert_eq!(q.sort_type, SortType::Hot);
    assert!(q.cursor.is_none());
    assert_eq!(q.limit, FETCH_LIMIT);
    assert_eq!(FETCH_LIMIT, 20);
    let v2 = l.render_window();
    assert!(v2.loading);
    assert!(v2.fetch.is_none());
}

#[test]
fn fetched_page_fills_window_and_prefetches_near_end() {
    let mut l: Listing<u32> = Listing::new(CurrentTab::All, SortType::New);
    l.resize(80);
    assert!(l.render_window().fetch.is_some());
    assert!(l.apply_fetch(CurrentTab::All, SortType::New, items(0, 30), cursor("c1")));
    let v = l.render_window();
    assert!(!v.loading);
    assert_eq!((v.first, v.count), (0, 10));
    assert!(v.fetch.is_none());
    assert_eq!(v.current_page, 1);
    for _ in 0..10 {
        l.scroll_down();
    }
    let v = l.render_window();
    assert_eq!((v.first, v.count, v.focused_index), (10, 10, 0));
    assert!(!v.loading);
    let q = v.fetch.expect("less than two full pages left beyond the window");
    assert_eq!(q.cursor.unwrap().token, "c1");
    assert_eq!(v.current_page, 2);
}

#[test]
fn stale_result_is_dropped() {
    let mut l: Listing<u32> = Listing::new(CurrentTab::Local, SortType::Hot);
    assert!(l.render_window().fetch.is_some());
    assert!(!l.apply_fetch(CurrentTab::Local, SortType::Active, items(0, 20), cursor("x")));
    assert!(!l.apply_fetch(CurrentTab::All, SortType::Hot, items(0, 20), cursor("x")));
    assert_eq!(l.page_data().len(), 0);
    // the fetch gate stays taken by the fetch that is still in flight
    assert!(l.render_window().fetch.is_none());
}

#[test]
fn failed_fetch_reopens_gate() {
    let mut l: Listing<u32> = Listing::new(CurrentTab::Local, SortType::Hot);
    assert!(l.render_window().fetch.is_some());
    assert!(!l.fetch_failed(CurrentTab::Local, SortType::New));
    assert!(l.render_window().fetch.is_none());
    assert!(l.fetch_failed(CurrentTab::Local, SortType::Hot));
    let v = l.render_window();
    assert!(v.loading);
    assert!(v.fetch.is_some());
}

#[test]
fn exhausted_feed_stops_fetching() {
    let mut l: Listing<u32> = Listing::new(CurrentTab::Subscribed, SortType::Scaled);
    l.resize(80);
    assert!(l.render_window().fetch.is_some());
    assert!(l.apply_fetch(CurrentTab::Subscribed, SortType::Scaled, items(0, 15), None));
    assert!(l.exhausted());
    let v = l.render_window();
    assert_eq!((v.first, v.count), (0, 10));
    assert!(v.fetch.is_none());
    for _ in 0..10 {
        l.scroll_down();
    }
    let v = l.render_window();
    assert!(v.exhausted);
    assert!(!v.loading);
    assert!(v.fetch.is_none());
    assert_eq!((v.first, v.count), (10, 5));
    for _ in 0..10 {
        l.scroll_down();
    }
    let v = l.render_window();
    assert!(v.exhausted);
    assert_eq!(v.count, 0);
    assert!(v.fetch.is_none());
}

#[test]
fn render_evicts_deep_window() {
    let mut l: Listing<u32> = Listing::new(CurrentTab::Local, SortType::Hot);
    l.resize(80);
    l.render_window();
    assert!(l.apply_fetch(CurrentTab::Local, SortType::Hot, items(0, 60), cursor("c")));
    for _ in 0..41 {
        l.scroll_down();
    }
    let v = l.render_window();
    assert_eq!(v.first, 20);
    assert_eq!(l.page_data().len(), 40);
    assert_eq!(l.page_data().items()[v.first], 40);
    assert_eq!(v.current_page, 5);
}

#[test]
fn sort_orders_cycle() {
    let mut s = SortType::Hot;
    let mut seen = vec![];
    for _ in 0..5 {
        seen.push(sort_type_index(s));
        s = next_sort(s);
    }
    assert_eq!(seen, vec![0, 1, 2, 3, 4]);
    assert_eq!(s, SortType::Hot);
    assert_eq!(next_sort(SortType::Controversial), SortType::New);
    assert_eq!(CurrentTab::default_tab(), CurrentTab::Local);
}

#[test]
fn try_fetch_new_pages_takes_gate_once() {
    let mut l: Listing<u32> = Listing::new(CurrentTab::All, SortType::Controversial);
    let q = l.try_fetch_new_pages().expect("gate starts open");
    assert_eq!(q.sort_type, SortType::Controversial);
    assert_eq!(q.listing_type, CurrentTab::All);
    assert!(l.try_fetch_new_pages().is_none());
    assert!(l.apply_fetch(CurrentTab::All, SortType::Controversial, items(0, 3), cursor("second-page")));
    let q = l.try_fetch_new_pages().expect("reopened by the result");
    assert_eq!(q.cursor.unwrap().token, "second-page");
}

#[test]
fn one_page_of_lookahead_prefetches() {
    let mut l: Listing<u32> = Listing::new(CurrentTab::Local, SortType::Hot);
    l.resize(80);
    assert!(l.render_window().fetch.is_some());
    assert!(l.apply_fetch(CurrentTab::Local, SortType::Hot, items(0, 20), cursor("n")));
    let v = l.render_window();
    assert!(!v.loading);
    assert_eq!((v.first, v.count), (0, 10));
    assert!(v.fetch.is_some());
    assert!(l.apply_fetch(CurrentTab::Local, SortType::Hot, items(20, 9), cursor("m")));
    assert!(l.render_window().fetch.is_some());
    assert!(l.apply_fetch(CurrentTab::Local, SortType::Hot, items(29, 1), cursor("k")));
    assert!(l.render_window().fetch.is_none());
}
