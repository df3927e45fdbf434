use lemmynator::page::Page;

fn page_of(rows: u16, items: usize) -> Page<u32> {
    let mut p = Page::new();
    p.resize(rows);
    p.append((0..items as u32).collect());
    p
}

#[test]
fn last_row_moves_to_next_page() {
    let mut p = page_of(40, 20);
    assert_eq!(p.page_size(), 5);
    for _ in 0..4 {
        p.scroll_down();
    }
    assert_eq!((p.offset(), p.focused_index()), (0, 4));
    p.scroll_down();
    assert_eq!((p.offset(), p.focused_index()), (5, 0));
}

#[test]
fn scroll_up_from_first_row_goes_to_previous_page() {
    let mut p = page_of(40, 20);
    for _ in 0..5 {
        p.scroll_down();
    }
    assert_eq!((p.offset(), p.focused_index()), (5, 0));
    p.scroll_up();
    assert_eq!((p.offset(), p.focused_index()), (0, 4));
}

#[test]
fn scroll_up_at_first_item_does_nothing() {
    let mut p = page_of(40, 20);
    p.scroll_up();
    assert_eq!((p.offset(), p.focused_index()), (0, 0));
}

#[test]
fn down_then_up_restores_position() {
    let mut p = page_of(40, 40);
    for steps in 0..12 {
        let before = (p.offset(), p.focused_index());
        p.scroll_down();
        p.scroll_up();
        assert_eq!((p.offset(), p.focused_index()), before, "after {} steps", steps);
        p.scroll_down();
    }
}

#[test]
fn deep_scroll_evicts_two_pages() {
    let mut p = page_of(80, 45);
    assert_eq!(p.page_size(), 10);
    for _ in 0..40 {
        p.scroll_down();
    }
    assert_eq!((p.offset(), p.focused_index()), (40, 0));
    assert_eq!(p.len(), 45);
    p.scroll_down();
    p.evict();
    assert_eq!(p.len(), 25);
    assert_eq!(p.offset(), 20);
    assert_eq!(p.focused_index(), 1);
    assert_eq!(p.items()[0], 20);
}

#[test]
fn no_eviction_at_three_pages_deep() {
    let mut p = page_of(80, 45);
    for _ in 0..30 {
        p.scroll_down();
    }
    p.evict();
    assert_eq!(p.offset(), 30);
    assert_eq!(p.len(), 45);
}

#[test]
fn buffer_stays_within_four_pages() {
    let mut p = page_of(80, 10);
    for i in 0..200u32 {
        p.scroll_down();
        p.evict();
        if p.focused_index() == 0 {
            p.append((0..10).map(|k| i * 10 + k).collect());
            let keep = p.offset() + 10;
            assert!(p.len() <= keep);
        }
        assert!(p.len() <= 40);
    }
}

#[test]
fn eviction_with_short_buffer_drops_what_there_is() {
    let mut p = page_of(8, 2);
    for _ in 0..4 {
        p.scroll_down();
    }
    assert_eq!(p.offset(), 4);
    p.evict();
    assert_eq!(p.offset(), 2);
    assert_eq!(p.len(), 0);
}

#[test]
fn resize_keeps_focused_item() {
    let mut p = page_of(80, 50);
    for _ in 0..13 {
        p.scroll_down();
    }
    assert_eq!((p.offset(), p.focused_index()), (10, 3));
    p.resize(40);
    assert_eq!(p.page_size(), 5);
    assert_eq!((p.offset(), p.focused_index()), (10, 3));
    p.resize(24);
    assert_eq!(p.page_size(), 3);
    assert_eq!((p.offset(), p.focused_index()), (12, 1));
    p.resize(7);
    assert_eq!(p.page_size(), 0);
    assert_eq!((p.offset(), p.focused_index()), (13, 0));
    p.resize(80);
    assert_eq!((p.offset(), p.focused_index()), (10, 3));
}

#[test]
fn resize_caps_page_size() {
    let mut p: Page<u32> = Page::new();
    p.resize(u16::MAX);
    assert_eq!(p.page_size(), 255);
}

#[test]
fn current_page_counts_dropped_items() {
    let mut p = page_of(80, 45);
    assert_eq!(p.current_page(), 1);
    for _ in 0..41 {
        p.scroll_down();
    }
    assert_eq!(p.current_page(), 5);
    p.evict();
    assert_eq!(p.offset(), 20);
    assert_eq!(p.current_page(), 5);
    assert_eq!(p.total_seen(), 45);
}

#[test]
fn current_page_is_zero_without_page_size() {
    let p: Page<u32> = Page::new();
    assert_eq!(p.current_page(), 0);
}
