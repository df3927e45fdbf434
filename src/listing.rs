//! One listing: a feed under one sort order, with its window, its cursor and
//! its fetch gate.
use vstd::prelude::*;
use crate::fetch_gate::FetchGate;
use crate::page::{Page, PageModel};

verus! {

/// Items asked for in one fetch.
pub const FETCH_LIMIT: u8 = 20;

/// The feed that a listing shows.
#[derive(Clone, Copy, Debug, PartialEq, Eq, Structural)]
pub enum CurrentTab {
    Subscribed,
    Local,
    All,
}

impl CurrentTab {
    /// The feed a new session opens on.
    pub fn default_tab() -> (r: CurrentTab)
        ensures
            r == CurrentTab::Local,
    {
        CurrentTab::Local
    }
}

/// The sort orders a listing offers, in the order they are cycled through.
#[derive(Clone, Copy, Debug, PartialEq, Eq, Structural)]
pub enum SortType {
    Hot,
    Active,
    Scaled,
    Controversial,
    New,
}

pub open spec fn sort_index_spec(s: SortType) -> nat {
    match s {
        SortType::Hot => 0,
        SortType::Active => 1,
        SortType::Scaled => 2,
        SortType::Controversial => 3,
        SortType::New => 4,
    }
}

/// The sort order that follows `s`, wrapping round to the first.
pub open spec fn next_sort_spec(s: SortType) -> SortType {
    match s {
        SortType::Hot => SortType::Active,
        SortType::Active => SortType::Scaled,
        SortType::Scaled => SortType::Controversial,
        SortType::Controversial => SortType::New,
        SortType::New => SortType::Hot,
    }
}

/// Position of a sort order among the tabs.
pub fn sort_type_index(s: SortType) -> (r: usize)
    ensures
        r == sort_index_spec(s),
{
    match s {
        SortType::Hot => 0,
        SortType::Active => 1,
        SortType::Scaled => 2,
        SortType::Controversial => 3,
        SortType::New => 4,
    }
}

/// The sort order that follows `s`, wrapping round to the first.
pub fn next_sort(s: SortType) -> (r: SortType)
    ensures
        r == next_sort_spec(s),
        sort_index_spec(r) == (sort_index_spec(s) + 1) % 5,
{
    match s {
        SortType::Hot => SortType::Active,
        SortType::Active => SortType::Scaled,
        SortType::Scaled => SortType::Controversial,
        SortType::Controversial => SortType::New,
        SortType::New => SortType::Hot,
    }
}

/// A server-issued token for the next page of a feed.
#[derive(Debug)]
pub struct PageCursor {
    pub token: String,
}

fn copy_cursor(c: &Option<PageCursor>) -> (r: Option<PageCursor>)
    ensures
        r == *c,
{
    match c {
        Some(p) => Some(PageCursor { token: p.token.clone() }),
        None => None,
    }
}

/// A fetch to start: which feed, in which order, from which cursor, how many items.
#[derive(Debug)]
pub struct FetchRequest {
    pub listing_type: CurrentTab,
    pub sort_type: SortType,
    pub cursor: Option<PageCursor>,
    pub limit: u8,
}

/// What the rendering layer draws of a listing.
#[derive(Debug)]
pub struct WindowView {
    /// Index in the buffer of the first visible item.
    pub first: usize,
    /// Number of visible items.
    pub count: usize,
    pub focused_index: u8,
    /// The window waits for a fetch.
    pub loading: bool,
    /// The window stands past the last item that the feed has.
    pub exhausted: bool,
    pub current_page: usize,
    /// A fetch that the caller is to start now, the fetch gate having been taken for it.
    pub fetch: Option<FetchRequest>,
}

/// A feed under one sort order: its buffered items and window, the cursor of
/// its next page, and the fetch gate that lets one fetch run at a time.
#[derive(Debug)]
pub struct Listing<T> {
    listing_type: CurrentTab,
    sort_type: SortType,
    page_data: Page<T>,
    next_page: Option<PageCursor>,
    exhausted: bool,
    gate: FetchGate,
}

/// The page number shown for a window, as `Page::current_page` gives it.
pub open spec fn shown_page<T>(m: PageModel<T>) -> nat {
    if m.current_page() > usize::MAX {
        usize::MAX as nat
    } else {
        m.current_page()
    }
}

/// `b` has the feed, sort order, cursor, exhaustion and fetch gate of `a`.
pub open spec fn same_source<T>(a: Listing<T>, b: Listing<T>) -> bool {
    &&& a.feed() == b.feed()
    &&& a.sort() == b.sort()
    &&& a.cursor() == b.cursor()
    &&& a.is_exhausted() == b.is_exhausted()
    &&& a.gate_open() == b.gate_open()
}

/// What `Listing::render_window` does: `new` is `old` after it, and `r` what
/// it returned.
pub open spec fn rendered<T>(old: Listing<T>, new: Listing<T>, r: WindowView) -> bool {
    let m = old.window().evicted();
    &&& new.window() == m
    &&& new.feed() == old.feed()
    &&& new.sort() == old.sort()
    &&& new.cursor() == old.cursor()
    &&& new.is_exhausted() == old.is_exhausted()
    &&& new.gate_open() == (old.gate_open() && !old.wants_fetch())
    &&& r.fetch is Some == (old.gate_open() && old.wants_fetch())
    &&& (r.fetch matches Some(q) ==> q.listing_type == old.feed() && q.sort_type == old.sort()
        && q.cursor == old.cursor() && q.limit == FETCH_LIMIT)
    &&& r.first == m.offset
    &&& r.count == if m.backed() {
        m.page_size
    } else if old.is_exhausted() && m.offset < m.buffer.len() {
        (m.buffer.len() - m.offset) as nat
    } else {
        0
    }
    &&& r.focused_index == m.focused
    &&& r.loading == (!m.backed() && !old.is_exhausted())
    &&& r.exhausted == (!m.backed() && old.is_exhausted())
    &&& r.current_page == shown_page(m)
}

/// What `Listing::apply_fetch` does with a result for `listing_type` and
/// `sort_type`: `new` is `old` after it, and `applied` what it returned.
pub open spec fn fetch_taken<T>(
    old: Listing<T>,
    new: Listing<T>,
    listing_type: CurrentTab,
    sort_type: SortType,
    items: Seq<T>,
    next_page: Option<PageCursor>,
    applied: bool,
) -> bool {
    &&& applied == (listing_type == old.feed() && sort_type == old.sort())
    &&& new.feed() == old.feed()
    &&& new.sort() == old.sort()
    &&& (applied ==> {
        &&& new.window() == old.window().appended(items)
        &&& new.cursor() == next_page
        &&& new.is_exhausted() == (next_page is None)
        &&& new.gate_open()
    })
    &&& (!applied ==> new.window() == old.window() && same_source(old, new))
}

impl<T> Listing<T> {
    pub closed spec fn window(&self) -> PageModel<T> {
        self.page_data@
    }

    pub closed spec fn feed(&self) -> CurrentTab {
        self.listing_type
    }

    pub closed spec fn sort(&self) -> SortType {
        self.sort_type
    }

    pub closed spec fn cursor(&self) -> Option<PageCursor> {
        self.next_page
    }

    /// The last fetch came back without a cursor: the feed has no more items.
    pub closed spec fn is_exhausted(&self) -> bool {
        self.exhausted
    }

    pub closed spec fn gate_open(&self) -> bool {
        self.gate.is_open()
    }

    pub open spec fn wf(&self) -> bool {
        self.window().wf()
    }

    /// Whether a render of the window, as it stands after eviction, asks for a fetch.
    pub open spec fn wants_fetch(&self) -> bool {
        let m = self.window().evicted();
        !self.is_exhausted() && (!m.backed() || m.lookahead_short())
    }

    /// A listing with nothing fetched, no cursor and an open gate.
    pub fn new(listing_type: CurrentTab, sort_type: SortType) -> (r: Listing<T>)
        ensures
            r.wf(),
            r.feed() == listing_type,
            r.sort() == sort_type,
            r.window().buffer.len() == 0,
            r.window().offset == 0,
            r.window().focused == 0,
            r.window().page_size == 0,
            r.window().total_seen == 0,
            r.cursor() is None,
            !r.is_exhausted(),
            r.gate_open(),
    {
        Listing {
            listing_type,
            sort_type,
            page_data: Page::new(),
            next_page: None,
            exhausted: false,
            gate: FetchGate::new(),
        }
    }

    pub fn listing_type(&self) -> (r: CurrentTab)
        ensures
            r == self.feed(),
    {
        self.listing_type
    }

    pub fn sort_type(&self) -> (r: SortType)
        ensures
            r == self.sort(),
    {
        self.sort_type
    }

    pub fn page_data(&self) -> (r: &Page<T>)
        ensures
            r@ == self.window(),
    {
        &self.page_data
    }

    pub fn exhausted(&self) -> (r: bool)
        ensures
            r == self.is_exhausted(),
    {
        self.exhausted
    }

    pub fn scroll_down(&mut self)
        requires
            old(self).wf(),
            old(self).window().offset + old(self).window().page_size <= usize::MAX,
        ensures
            final(self).wf(),
            final(self).window() == old(self).window().scrolled_down(),
            same_source(*old(self), *final(self)),
    {
        self.page_data.scroll_down();
    }

    pub fn scroll_up(&mut self)
        requires
            old(self).wf(),
        ensures
            final(self).wf(),
            final(self).window() == old(self).window().scrolled_up(),
            same_source(*old(self), *final(self)),
    {
        self.page_data.scroll_up();
    }

    /// Sets the page size for the rows the terminal gives the listing.
    pub fn resize(&mut self, rows: u16)
        requires
            old(self).wf(),
            old(self).window().offset + old(self).window().focused <= usize::MAX,
        ensures
            final(self).wf(),
            final(self).window() == old(self).window().resized(
                crate::page::page_size_for_rows(rows as nat),
            ),
            same_source(*old(self), *final(self)),
    {
        self.page_data.resize(rows);
    }

    /// Takes the fetch gate for the next page; if that succeeds, hands back
    /// the fetch to start, from the current cursor.
    pub fn try_fetch_new_pages(&mut self) -> (r: Option<FetchRequest>)
        requires
            old(self).wf(),
        ensures
            final(self).wf(),
            final(self).window() == old(self).window(),
            final(self).feed() == old(self).feed(),
            final(self).sort() == old(self).sort(),
            final(self).cursor() == old(self).cursor(),
            final(self).is_exhausted() == old(self).is_exhausted(),
            !final(self).gate_open(),
            r is Some == old(self).gate_open(),
            r matches Some(q) ==> q.listing_type == old(self).feed() && q.sort_type
                == old(self).sort() && q.cursor == old(self).cursor() && q.limit == FETCH_LIMIT,
    {
        if self.gate.try_acquire() {
            Some(
                FetchRequest {
                    listing_type: self.listing_type,
                    sort_type: self.sort_type,
                    cursor: copy_cursor(&self.next_page),
                    limit: FETCH_LIMIT,
                },
            )
        } else {
            None
        }
    }

    /// Prepares the window for drawing: drops the oldest pages once it stands
    /// too deep, then says what to draw. Where the buffer does not hold the
    /// whole window, or holds less than `LOOKAHEAD_PAGES` full pages beyond
    /// it, and the feed is not
    /// exhausted, it takes the fetch gate; if that succeeds the caller is
    /// handed the fetch to start.
    pub fn render_window(&mut self) -> (r: WindowView)
        requires
            old(self).wf(),
        ensures
            final(self).wf(),
            rendered(*old(self), *final(self), r),
    {
        self.page_data.evict();
        let backed = self.page_data.is_backed();
        let short = self.page_data.is_lookahead_short();
        let wants = !self.exhausted && (!backed || short);
        let fetch = if wants {
            self.try_fetch_new_pages()
        } else {
            None
        };
        let offset = self.page_data.offset();
        let len = self.page_data.len();
        let count = if backed {
            self.page_data.page_size() as usize
        } else if self.exhausted && offset < len {
            len - offset
        } else {
            0
        };
        WindowView {
            first: offset,
            count,
            focused_index: self.page_data.focused_index(),
            loading: !backed && !self.exhausted,
            exhausted: !backed && self.exhausted,
            current_page: self.page_data.current_page(),
            fetch,
        }
    }

    /// Takes in the result of a fetch that returned `items` and the cursor of
    /// the page after them. A result for another feed or sort order is stale
    /// and is dropped, leaving the listing as it was; otherwise the items are
    /// appended, the cursor replaced, the feed marked exhausted when no cursor
    /// came back, and the fetch gate reopened.
    pub fn apply_fetch(
        &mut self,
        listing_type: CurrentTab,
        sort_type: SortType,
        items: Vec<T>,
        next_page: Option<PageCursor>,
    ) -> (applied: bool)
        requires
            old(self).wf(),
            old(self).window().total_seen + items@.len() <= usize::MAX,
        ensures
            final(self).wf(),
            fetch_taken(*old(self), *final(self), listing_type, sort_type, items@, next_page, applied),
    {
        if listing_type != self.listing_type || sort_type != self.sort_type {
            return false;
        }
        self.page_data.append(items);
        self.exhausted = next_page.is_none();
        self.next_page = next_page;
        self.gate.release();
        true
    }

    /// A fetch of this listing failed: the fetch gate reopens so that a later
    /// render can try again. A failure reported for another feed or sort
    /// order changes nothing.
    pub fn fetch_failed(&mut self, listing_type: CurrentTab, sort_type: SortType) -> (released: bool)
        requires
            old(self).wf(),
        ensures
            final(self).wf(),
            released == (listing_type == old(self).feed() && sort_type == old(self).sort()),
            final(self).window() == old(self).window(),
            final(self).feed() == old(self).feed(),
            final(self).sort() == old(self).sort(),
            final(self).cursor() == old(self).cursor(),
            final(self).is_exhausted() == old(self).is_exhausted(),
            final(self).gate_open() == (released || old(self).gate_open()),
    {
        if listing_type != self.listing_type || sort_type != self.sort_type {
            return false;
        }
        self.gate.release();
        true
    }
}

} // verus!
