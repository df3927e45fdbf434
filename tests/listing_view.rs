use lemmynator::listing::{CurrentTab, PageCursor, SortType};
use lemmynator::listing_view::{tab_for_key, ListingView};

#[test]
fn starts_on_local_feed_sorted_hot() {
    let v: ListingView<u32> = ListingView::new();
    assert_eq!(v.current(), CurrentTab::Local);
    assert_eq!(v.current_sort(), SortType::Hot);
    for t in [CurrentTab::Subscribed, CurrentTab::Local, CurrentTab::All] {
        assert_eq!(v.listing(t).listing_type(), t);
        assert_eq!(v.listing(t).sort_type(), SortType::Hot);
    }
}

#[test]
fn tab_keys_switch_feed() {
    let mut v: ListingView<u32> = ListingView::new();
    v.change_tab(3);
    assert_eq!(v.current(), CurrentTab::All);
    v.change_tab(1);
    assert_eq!(v.current(), CurrentTab::Subscribed);
    v.change_tab(9);
    assert_eq!(v.current(), CurrentTab::Subscribed);
    assert_eq!(tab_for_key(2), Some(CurrentTab::Local));
    assert_eq!(tab_for_key(0), None);
}

#[test]
fn sort_change_replaces_current_listing_and_drops_stale_result() {
    let mut v: ListingView<u32> = ListingView::new();
    v.resize(80);
    let first = v.render_current();
    let q = first.fetch.expect("first render fetches");
    assert_eq!(q.sort_type, SortType::Hot);
    assert!(v.apply_fetch(CurrentTab::Local, SortType::Hot, (0..20).collect(), Some(PageCursor { token: "c".to_string() })));
    assert_eq!(v.listing(CurrentTab::Local).page_data().len(), 20);
    // a fetch for the local feed under the new order is started, then the sort changes again
    v.change_sort();
    assert_eq!(v.current_sort(), SortType::Active);
    assert_eq!(v.listing(CurrentTab::Local).sort_type(), SortType::Active);
    assert_eq!(v.listing(CurrentTab::Local).page_data().len(), 0);
    // the other feeds keep their listings
    assert_eq!(v.listing(CurrentTab::All).sort_type(), SortType::Hot);
    // a late result under the old order is dropped
    assert!(!v.apply_fetch(CurrentTab::Local, SortType::Hot, (0..20).collect(), None));
    assert_eq!(v.listing(CurrentTab::Local).page_data().len(), 0);
    let r = v.render_current();
    assert!(r.loading);
    assert_eq!(r.fetch.unwrap().sort_type, SortType::Active);
}

#[test]
fn results_go_to_their_own_feed() {
    let mut v: ListingView<u32> = ListingView::new();
    assert!(v.apply_fetch(CurrentTab::All, SortType::Hot, (0..5).collect(), None));
    assert_eq!(v.listing(CurrentTab::All).page_data().len(), 5);
    assert_eq!(v.listing(CurrentTab::Local).page_data().len(), 0);
    assert!(v.listing(CurrentTab::All).exhausted());
}

#[test]
fn scrolling_moves_only_current_listing() {
    let mut v: ListingView<u32> = ListingView::new();
    v.resize(40);
    v.render_current();
    assert!(v.apply_fetch(CurrentTab::Local, SortType::Hot, (0..20).collect(), Some(PageCursor { token: "n".to_string() })));
    for _ in 0..6 {
        v.scroll_down();
    }
    v.scroll_up();
    assert_eq!(v.listing(CurrentTab::Local).page_data().offset(), 5);
    assert_eq!(v.listing(CurrentTab::Local).page_data().focused_index(), 0);
    assert_eq!(v.listing(CurrentTab::All).page_data().offset(), 0);
    assert!(v.fetch_failed(CurrentTab::All, SortType::Hot));
    assert!(!v.fetch_failed(CurrentTab::All, SortType::New));
}
