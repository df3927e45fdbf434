//! The three feeds of the client side by side, one listing each, under the
//! sort order chosen for them.
use vstd::prelude::*;
use crate::listing::{
    fetch_taken, next_sort, next_sort_spec, rendered, same_source, CurrentTab, Listing,
    PageCursor, SortType, WindowView,
};

verus! {

/// The feed that a tab key (`1` to `3`) selects.
pub open spec fn tab_for_key_spec(n: u8) -> Option<CurrentTab> {
    if n == 1 {
        Some(CurrentTab::Subscribed)
    } else if n == 2 {
        Some(CurrentTab::Local)
    } else if n == 3 {
        Some(CurrentTab::All)
    } else {
        None
    }
}

pub fn tab_for_key(n: u8) -> (r: Option<CurrentTab>)
    ensures
        r == tab_for_key_spec(n),
{
    if n == 1 {
        Some(CurrentTab::Subscribed)
    } else if n == 2 {
        Some(CurrentTab::Local)
    } else if n == 3 {
        Some(CurrentTab::All)
    } else {
        None
    }
}

/// One listing per feed, the feed on screen, and the sort order that new
/// listings take.
#[derive(Debug)]
pub struct ListingView<T> {
    subscribed: Listing<T>,
    local: Listing<T>,
    all: Listing<T>,
    current: CurrentTab,
    sort: SortType,
}

impl<T> ListingView<T> {
    pub closed spec fn listing_of(&self, t: CurrentTab) -> Listing<T> {
        match t {
            CurrentTab::Subscribed => self.subscribed,
            CurrentTab::Local => self.local,
            CurrentTab::All => self.all,
        }
    }

    pub closed spec fn current_tab(&self) -> CurrentTab {
        self.current
    }

    pub closed spec fn sort_order(&self) -> SortType {
        self.sort
    }

    /// Each feed's listing is well formed and shows that feed.
    pub open spec fn wf(&self) -> bool {
        forall|t: CurrentTab| #[trigger] self.listing_of(t).wf() && self.listing_of(t).feed() == t
    }

    /// `b` holds the listings of `a` for every feed but `t`.
    pub open spec fn others_kept(a: ListingView<T>, b: ListingView<T>, t: CurrentTab) -> bool {
        forall|u: CurrentTab| u != t ==> #[trigger] b.listing_of(u) == a.listing_of(u)
    }

    /// A fresh listing for every feed, all sorted hot, the local feed on screen.
    pub fn new() -> (r: ListingView<T>)
        ensures
            r.wf(),
            r.current_tab() == CurrentTab::Local,
            r.sort_order() == SortType::Hot,
            forall|t: CurrentTab| {
                let l = #[trigger] r.listing_of(t);
                &&& l.sort() == SortType::Hot
                &&& l.window().buffer.len() == 0
                &&& l.window().total_seen == 0
                &&& l.cursor() is None
                &&& !l.is_exhausted()
                &&& l.gate_open()
            },
    {
        ListingView {
            subscribed: Listing::new(CurrentTab::Subscribed, SortType::Hot),
            local: Listing::new(CurrentTab::Local, SortType::Hot),
            all: Listing::new(CurrentTab::All, SortType::Hot),
            current: CurrentTab::Local,
            sort: SortType::Hot,
        }
    }

    pub fn current(&self) -> (r: CurrentTab)
        ensures
            r == self.current_tab(),
    {
        self.current
    }

    pub fn current_sort(&self) -> (r: SortType)
        ensures
            r == self.sort_order(),
    {
        self.sort
    }

    pub fn listing(&self, t: CurrentTab) -> (r: &Listing<T>)
        ensures
            *r == self.listing_of(t),
    {
        match t {
            CurrentTab::Subscribed => &self.subscribed,
            CurrentTab::Local => &self.local,
            CurrentTab::All => &self.all,
        }
    }

    /// Puts the feed of a tab key on screen; other keys change nothing.
    pub fn change_tab(&mut self, n: u8)
        ensures
            final(self).current_tab() == match tab_for_key_spec(n) {
                Some(t) => t,
                None => old(self).current_tab(),
            },
            final(self).sort_order() == old(self).sort_order(),
            forall|t: CurrentTab| #[trigger] final(self).listing_of(t) == old(self).listing_of(t),
    {
        match tab_for_key(n) {
            Some(t) => {
                self.current = t;
            },
            None => {},
        }
    }

    /// Moves to the next sort order and replaces the listing on screen with a
    /// fresh one under it: its items, window, cursor and fetch gate start
    /// anew. A fetch still in flight for the old listing is dropped when it
    /// comes back, its sort order no longer matching.
    pub fn change_sort(&mut self)
        requires
            old(self).wf(),
        ensures
            final(self).wf(),
            final(self).sort_order() == next_sort_spec(old(self).sort_order()),
            final(self).current_tab() == old(self).current_tab(),
            ListingView::others_kept(*old(self), *final(self), old(self).current_tab()),
            ({
                let l = final(self).listing_of(old(self).current_tab());
                &&& l.sort() == next_sort_spec(old(self).sort_order())
                &&& l.window().buffer.len() == 0
                &&& l.window().offset == 0
                &&& l.window().focused == 0
                &&& l.window().page_size == 0
                &&& l.window().total_seen == 0
                &&& l.cursor() is None
                &&& !l.is_exhausted()
                &&& l.gate_open()
            }),
    {
        self.sort = next_sort(self.sort);
        let fresh = Listing::new(self.current, self.sort);
        match self.current {
            CurrentTab::Subscribed => {
                self.subscribed = fresh;
            },
            CurrentTab::Local => {
                self.local = fresh;
            },
            CurrentTab::All => {
                self.all = fresh;
            },
        }
        proof {
            assert forall|t: CurrentTab| #[trigger] self.listing_of(t).wf() && self.listing_of(t).feed() == t by {
                assert(old(self).listing_of(t).wf());
            }
        }
    }

    /// Hands the result of a fetch to the listing of its feed, which drops it
    /// if it was fetched under another sort order.
    pub fn apply_fetch(
        &mut self,
        listing_type: CurrentTab,
        sort_type: SortType,
        items: Vec<T>,
        next_page: Option<PageCursor>,
    ) -> (applied: bool)
        requires
            old(self).wf(),
            old(self).listing_of(listing_type).window().total_seen + items@.len() <= usize::MAX,
        ensures
            final(self).wf(),
            final(self).current_tab() == old(self).current_tab(),
            final(self).sort_order() == old(self).sort_order(),
            ListingView::others_kept(*old(self), *final(self), listing_type),
            fetch_taken(
                old(self).listing_of(listing_type),
                final(self).listing_of(listing_type),
                listing_type,
                sort_type,
                items@,
                next_page,
                applied,
            ),
    {
        proof {
            assert(old(self).listing_of(listing_type).wf());
        }
        let applied = match listing_type {
            CurrentTab::Subscribed => self.subscribed.apply_fetch(listing_type, sort_type, items, next_page),
            CurrentTab::Local => self.local.apply_fetch(listing_type, sort_type, items, next_page),
            CurrentTab::All => self.all.apply_fetch(listing_type, sort_type, items, next_page),
        };
        proof {
            assert forall|t: CurrentTab| #[trigger] self.listing_of(t).wf() && self.listing_of(t).feed() == t by {
                assert(old(self).listing_of(t).wf());
            }
        }
        applied
    }

    /// Reports a failed fetch to the listing of its feed.
    pub fn fetch_failed(&mut self, listing_type: CurrentTab, sort_type: SortType) -> (released: bool)
        requires
            old(self).wf(),
        ensures
            final(self).wf(),
            final(self).current_tab() == old(self).current_tab(),
            final(self).sort_order() == old(self).sort_order(),
            ListingView::others_kept(*old(self), *final(self), listing_type),
            released == (sort_type == old(self).listing_of(listing_type).sort()),
            final(self).listing_of(listing_type).window() == old(self).listing_of(listing_type).window(),
            final(self).listing_of(listing_type).gate_open() == (released || old(self).listing_of(listing_type).gate_open()),
    {
        proof {
            assert(old(self).listing_of(listing_type).wf());
        }
        let released = match listing_type {
            CurrentTab::Subscribed => self.subscribed.fetch_failed(listing_type, sort_type),
            CurrentTab::Local => self.local.fetch_failed(listing_type, sort_type),
            CurrentTab::All => self.all.fetch_failed(listing_type, sort_type),
        };
        proof {
            assert forall|t: CurrentTab| #[trigger] self.listing_of(t).wf() && self.listing_of(t).feed() == t by {
                assert(old(self).listing_of(t).wf());
            }
        }
        released
    }

    /// Prepares the listing on screen for drawing, as `Listing::render_window` does.
    pub fn render_current(&mut self) -> (r: WindowView)
        requires
            old(self).wf(),
        ensures
            final(self).wf(),
            final(self).current_tab() == old(self).current_tab(),
            final(self).sort_order() == old(self).sort_order(),
            ListingView::others_kept(*old(self), *final(self), old(self).current_tab()),
            rendered(
                old(self).listing_of(old(self).current_tab()),
                final(self).listing_of(old(self).current_tab()),
                r,
            ),
    {
        proof {
            assert(old(self).listing_of(old(self).current_tab()).wf());
        }
        let r = match self.current {
            CurrentTab::Subscribed => self.subscribed.render_window(),
            CurrentTab::Local => self.local.render_window(),
            CurrentTab::All => self.all.render_window(),
        };
        proof {
            assert forall|t: CurrentTab| #[trigger] self.listing_of(t).wf() && self.listing_of(t).feed() == t by {
                assert(old(self).listing_of(t).wf());
            }
        }
        r
    }

    /// Scrolls the listing on screen one item down.
    pub fn scroll_down(&mut self)
        requires
            old(self).wf(),
            old(self).listing_of(old(self).current_tab()).window().offset + old(self).listing_of(
                old(self).current_tab(),
            ).window().page_size <= usize::MAX,
        ensures
            final(self).wf(),
            final(self).current_tab() == old(self).current_tab(),
            final(self).sort_order() == old(self).sort_order(),
            ListingView::others_kept(*old(self), *final(self), old(self).current_tab()),
            final(self).listing_of(old(self).current_tab()).window() == old(self).listing_of(
                old(self).current_tab(),
            ).window().scrolled_down(),
            same_source(
                old(self).listing_of(old(self).current_tab()),
                final(self).listing_of(old(self).current_tab()),
            ),
    {
        proof {
            assert(old(self).listing_of(old(self).current_tab()).wf());
        }
        match self.current {
            CurrentTab::Subscribed => self.subscribed.scroll_down(),
            CurrentTab::Local => self.local.scroll_down(),
            CurrentTab::All => self.all.scroll_down(),
        }
        proof {
            assert forall|t: CurrentTab| #[trigger] self.listing_of(t).wf() && self.listing_of(t).feed() == t by {
                assert(old(self).listing_of(t).wf());
            }
        }
    }

    /// Scrolls the listing on screen one item up.
    pub fn scroll_up(&mut self)
        requires
            old(self).wf(),
        ensures
            final(self).wf(),
            final(self).current_tab() == old(self).current_tab(),
            final(self).sort_order() == old(self).sort_order(),
            ListingView::others_kept(*old(self), *final(self), old(self).current_tab()),
            final(self).listing_of(old(self).current_tab()).window() == old(self).listing_of(
                old(self).current_tab(),
            ).window().scrolled_up(),
            same_source(
                old(self).listing_of(old(self).current_tab()),
                final(self).listing_of(old(self).current_tab()),
            ),
    {
        proof {
            assert(old(self).listing_of(old(self).current_tab()).wf());
        }
        match self.current {
            CurrentTab::Subscribed => self.subscribed.scroll_up(),
            CurrentTab::Local => self.local.scroll_up(),
            CurrentTab::All => self.all.scroll_up(),
        }
        proof {
            assert forall|t: CurrentTab| #[trigger] self.listing_of(t).wf() && self.listing_of(t).feed() == t by {
                assert(old(self).listing_of(t).wf());
                if t == old(self).current_tab() {
                    assert(same_source(old(self).listing_of(t), self.listing_of(t)));
                    assert(self.listing_of(t).feed() == old(self).listing_of(t).feed());
                } else {
                    assert(self.listing_of(t) == old(self).listing_of(t));
                }
            }
        }
    }

    /// Sets the page size of the listing on screen for the rows it is given.
    pub fn resize(&mut self, rows: u16)
        requires
            old(self).wf(),
            old(self).listing_of(old(self).current_tab()).window().offset + old(self).listing_of(
                old(self).current_tab(),
            ).window().focused <= usize::MAX,
        ensures
            final(self).wf(),
            final(self).current_tab() == old(self).current_tab(),
            final(self).sort_order() == old(self).sort_order(),
            ListingView::others_kept(*old(self), *final(self), old(self).current_tab()),
            final(self).listing_of(old(self).current_tab()).window() == old(self).listing_of(
                old(self).current_tab(),
            ).window().resized(crate::page::page_size_for_rows(rows as nat)),
            same_source(
                old(self).listing_of(old(self).current_tab()),
                final(self).listing_of(old(self).current_tab()),
            ),
    {
        proof {
            assert(old(self).listing_of(old(self).current_tab()).wf());
        }
        match self.current {
            CurrentTab::Subscribed => self.subscribed.resize(rows),
            CurrentTab::Local => self.local.resize(rows),
            CurrentTab::All => self.all.resize(rows),
        }
        proof {
            assert forall|t: CurrentTab| #[trigger] self.listing_of(t).wf() && self.listing_of(t).feed() == t by {
                assert(old(self).listing_of(t).wf());
            }
        }
    }
}

} // verus!
