//! The visible window of a listing over its growing buffer of fetched items.
use vstd::prelude::*;

verus! {

/// Rows of the terminal that one item takes.
pub const ROWS_PER_ITEM: u16 = 8;

/// Pages behind the current one that are kept before the oldest are dropped.
pub const LOOKBACK_PAGES: usize = 3;

/// Full pages beyond the current window below which more items are fetched.
pub const LOOKAHEAD_PAGES: usize = 2;

/// What a window holds, as mathematical values.
pub struct PageModel<T> {
    pub buffer: Seq<T>,
    pub offset: nat,
    pub focused: nat,
    pub page_size: nat,
    pub total_seen: nat,
}

/// The page size for a number of rows: one item per `ROWS_PER_ITEM` rows, at most 255.
pub open spec fn page_size_for_rows(rows: nat) -> nat {
    let p = rows / (ROWS_PER_ITEM as nat);
    if p > 255 { 255 } else { p }
}

impl<T> PageModel<T> {
    /// The invariant of a window: the offset is a whole number of pages, the
    /// focus lies inside the page, and every buffered item has been counted.
    pub open spec fn wf(self) -> bool {
        &&& self.page_size <= 255
        &&& (self.page_size == 0 ==> self.focused == 0)
        &&& (self.page_size > 0 ==> self.focused < self.page_size && self.offset
            % self.page_size == 0)
        &&& self.buffer.len() <= self.total_seen
    }

    /// The buffer index of the focused item.
    pub open spec fn position(self) -> nat {
        self.offset + self.focused
    }

    pub open spec fn scrolled_down(self) -> Self {
        if self.focused + 1 < self.page_size {
            PageModel { focused: self.focused + 1, ..self }
        } else {
            PageModel { offset: self.offset + self.page_size, focused: 0, ..self }
        }
    }

    pub open spec fn scrolled_up(self) -> Self {
        if self.focused > 0 {
            PageModel { focused: (self.focused - 1) as nat, ..self }
        } else if self.offset > 0 && self.page_size > 0 {
            PageModel {
                offset: (self.offset - self.page_size) as nat,
                focused: (self.page_size - 1) as nat,
                ..self
            }
        } else {
            self
        }
    }

    /// Whether the window stands more than `LOOKBACK_PAGES` pages deep.
    pub open spec fn too_deep(self) -> bool {
        self.page_size > 0 && self.offset / self.page_size > LOOKBACK_PAGES as nat
    }

    /// Drops the two oldest pages once the window stands too deep.
    pub open spec fn evicted(self) -> Self {
        if self.too_deep() {
            let d = 2 * self.page_size;
            let dropped = if d <= self.buffer.len() { d } else { self.buffer.len() };
            PageModel {
                buffer: self.buffer.skip(dropped as int),
                offset: (self.offset - d) as nat,
                ..self
            }
        } else {
            self
        }
    }

    /// A new page size that keeps the focused item in focus.
    pub open spec fn resized(self, p: nat) -> Self {
        let a = self.position();
        if p == 0 {
            PageModel { offset: a, focused: 0, page_size: 0, ..self }
        } else {
            PageModel { offset: a / p * p, focused: a % p, page_size: p, ..self }
        }
    }

    /// New items appended after a fetch.
    pub open spec fn appended(self, items: Seq<T>) -> Self {
        PageModel {
            buffer: self.buffer + items,
            total_seen: self.total_seen + items.len(),
            ..self
        }
    }

    /// Whether the buffer holds every item of the current window.
    pub open spec fn backed(self) -> bool {
        self.buffer.len() > 0 && self.offset + self.page_size <= self.buffer.len()
    }

    /// Whether the buffer holds less than `LOOKAHEAD_PAGES` full pages
    /// beyond the current window.
    pub open spec fn lookahead_short(self) -> bool {
        self.buffer.len() < self.offset + (LOOKAHEAD_PAGES as nat + 1) * self.page_size
    }

    /// The page under the window, counted from one over every item ever
    /// fetched (dropped ones too); zero while no page size is known.
    pub open spec fn current_page(self) -> nat {
        if self.page_size == 0 {
            0
        } else {
            ((self.total_seen - self.buffer.len()) + self.offset) as nat / self.page_size + 1
        }
    }
}

/// The window over a listing's buffer of fetched items.
#[derive(Debug)]
pub struct Page<T> {
    buffer: Vec<T>,
    offset: usize,
    focused: u8,
    page_size: u8,
    total_seen: usize,
}

impl<T> View for Page<T> {
    type V = PageModel<T>;

    closed spec fn view(&self) -> PageModel<T> {
        PageModel {
            buffer: self.buffer@,
            offset: self.offset as nat,
            focused: self.focused as nat,
            page_size: self.page_size as nat,
            total_seen: self.total_seen as nat,
        }
    }
}

impl<T> Page<T> {
    pub open spec fn wf(&self) -> bool {
        self@.wf()
    }

    /// An empty window whose page size is not known yet.
    pub fn new() -> (r: Page<T>)
        ensures
            r.wf(),
            r@.buffer.len() == 0,
            r@.offset == 0,
            r@.focused == 0,
            r@.page_size == 0,
            r@.total_seen == 0,
    {
        Page { buffer: Vec::new(), offset: 0, focused: 0, page_size: 0, total_seen: 0 }
    }

    pub fn offset(&self) -> (r: usize)
        ensures
            r == self@.offset,
    {
        self.offset
    }

    pub fn focused_index(&self) -> (r: u8)
        ensures
            r == self@.focused,
    {
        self.focused
    }

    pub fn page_size(&self) -> (r: u8)
        ensures
            r == self@.page_size,
    {
        self.page_size
    }

    pub fn total_seen(&self) -> (r: usize)
        ensures
            r == self@.total_seen,
    {
        self.total_seen
    }

    pub fn len(&self) -> (r: usize)
        ensures
            r == self@.buffer.len(),
    {
        self.buffer.len()
    }

    pub fn items(&self) -> (r: &Vec<T>)
        ensures
            r@ == self@.buffer,
    {
        &self.buffer
    }

    /// Moves the focus one item down, onto the next page past the last row.
    pub fn scroll_down(&mut self)
        requires
            old(self).wf(),
            old(self)@.offset + old(self)@.page_size <= usize::MAX,
        ensures
            final(self).wf(),
            final(self)@ == old(self)@.scrolled_down(),
    {
        if (self.focused as u16) + 1 < self.page_size as u16 {
            self.focused = self.focused + 1;
        } else {
            self.offset = self.offset + self.page_size as usize;
            self.focused = 0;
            proof {
                if self.page_size > 0 {
                    lemma_mod_shift(old(self).offset as int, self.page_size as int, 1);
                }
            }
        }
    }

    /// Moves the focus one item up, onto the last row of the previous page
    /// from the first row; nothing at the first item of the first page.
    pub fn scroll_up(&mut self)
        requires
            old(self).wf(),
        ensures
            final(self).wf(),
            final(self)@ == old(self)@.scrolled_up(),
    {
        if self.focused > 0 {
            self.focused = self.focused - 1;
        } else if self.offset > 0 && self.page_size > 0 {
            proof {
                lemma_multiple_at_least(self.offset as int, self.page_size as int);
                lemma_mod_shift(self.offset as int, self.page_size as int, -1);
            }
            self.offset = self.offset - self.page_size as usize;
            self.focused = self.page_size - 1;
        }
    }

    /// Sets the page size for the rows that the terminal gives the listing.
    /// The focused item keeps the focus: the offset moves to the start of the
    /// new page that holds it, and the focus to its row there, so the focus
    /// always lies inside the page, however far the page size shrinks. With
    /// no room for an item, the offset stands on the focused item.
    pub fn resize(&mut self, rows: u16)
        requires
            old(self).wf(),
            old(self)@.offset + old(self)@.focused <= usize::MAX,
        ensures
            final(self).wf(),
            final(self)@ == old(self)@.resized(page_size_for_rows(rows as nat)),
    {
        let per_rows: u16 = rows / ROWS_PER_ITEM;
        let p: u8 = if per_rows > 255 { 255 } else { per_rows as u8 };
        let a: usize = self.offset + self.focused as usize;
        if p == 0 {
            self.offset = a;
            self.focused = 0;
        } else {
            let pu = p as usize;
            proof {
                vstd::arithmetic::div_mod::lemma_fundamental_div_mod(a as int, pu as int);
                vstd::arithmetic::div_mod::lemma_mod_pos_bound(a as int, pu as int);
                vstd::arithmetic::div_mod::lemma_mod_multiples_basic((a / pu) as int, pu as int);
                assert((a / pu) * pu <= a) by (nonlinear_arith)
                    requires
                        (a / pu) * pu + a % pu == a,
                        a % pu >= 0,
                ;
            }
            self.offset = (a / pu) * pu;
            self.focused = (a % pu) as u8;
        }
        self.page_size = p;
    }

    /// Drops the two oldest pages when the window stands more than
    /// `LOOKBACK_PAGES` pages deep, and moves the offset back with them.
    pub fn evict(&mut self)
        requires
            old(self).wf(),
        ensures
            final(self).wf(),
            final(self)@ == old(self)@.evicted(),
    {
        if self.page_size > 0 && self.offset / (self.page_size as usize) > LOOKBACK_PAGES {
            let p = self.page_size as usize;
            let d = 2 * p;
            proof {
                lemma_deep_offset(self.offset as int, p as int);
                lemma_mod_shift(self.offset as int, p as int, -2);
            }
            let dropped = if d <= self.buffer.len() { d } else { self.buffer.len() };
            let tail = self.buffer.split_off(dropped);
            self.buffer = tail;
            self.offset = self.offset - d;
            proof {
                assert(self.buffer@ =~= old(self)@.buffer.skip(dropped as int));
            }
        }
    }

    /// Appends the items of a completed fetch.
    pub fn append(&mut self, items: Vec<T>)
        requires
            old(self).wf(),
            old(self)@.total_seen + items@.len() <= usize::MAX,
        ensures
            final(self).wf(),
            final(self)@ == old(self)@.appended(items@),
    {
        let n = items.len();
        let mut items = items;
        self.buffer.append(&mut items);
        self.total_seen = self.total_seen + n;
    }

    /// Whether the buffer holds every item of the current window.
    pub fn is_backed(&self) -> (r: bool)
        ensures
            r == self@.backed(),
    {
        self.buffer.len() > 0 && self.offset <= self.buffer.len() && self.buffer.len()
            - self.offset >= self.page_size as usize
    }

    /// Whether the buffer holds less than `LOOKAHEAD_PAGES` full pages
    /// beyond the current window.
    pub fn is_lookahead_short(&self) -> (r: bool)
        ensures
            r == self@.lookahead_short(),
    {
        let p = self.page_size as usize;
        assert((LOOKAHEAD_PAGES + 1) * p <= 765) by (nonlinear_arith)
            requires
                LOOKAHEAD_PAGES == 2,
                p <= 255,
        ;
        !(self.offset <= self.buffer.len() && self.buffer.len() - self.offset >= (LOOKAHEAD_PAGES
            + 1) * p)
    }

    /// The page under the window, counted from one over every item ever
    /// fetched; zero while no page size is known. Saturates at `usize::MAX`.
    pub fn current_page(&self) -> (r: usize)
        requires
            self.wf(),
        ensures
            r == if self@.current_page() > usize::MAX {
                usize::MAX as nat
            } else {
                self@.current_page()
            },
    {
        if self.page_size == 0 {
            return 0;
        }
        let before: u128 = (self.total_seen - self.buffer.len()) as u128 + self.offset as u128;
        let page: u128 = before / (self.page_size as u128) + 1;
        if page > usize::MAX as u128 {
            usize::MAX
        } else {
            page as usize
        }
    }
}

/// Scrolling down and straight back up restores the offset and the focus.
pub proof fn lemma_down_then_up<T>(m: PageModel<T>)
    requires
        m.wf(),
    ensures
        m.scrolled_down().scrolled_up().offset == m.offset,
        m.scrolled_down().scrolled_up().focused == m.focused,
{
}

/// `n` scroll-down steps, each followed by eviction as the window is drawn.
pub open spec fn scrolled_down_evicting<T>(m: PageModel<T>, n: nat) -> PageModel<T>
    decreases n,
{
    if n == 0 {
        m
    } else {
        scrolled_down_evicting(m, (n - 1) as nat).scrolled_down().evicted()
    }
}

/// A window whose buffer ends within its current page, at most
/// `LOOKBACK_PAGES` pages deep, keeps at most four pages buffered however far
/// it is scrolled down.
pub proof fn lemma_eviction_bound<T>(m: PageModel<T>, n: nat)
    requires
        m.wf(),
        m.page_size > 0,
        m.offset <= LOOKBACK_PAGES * m.page_size,
        m.buffer.len() <= m.offset + m.page_size,
    ensures
        scrolled_down_evicting(m, n).buffer.len() <= 4 * m.page_size,
    decreases n,
{
    lemma_bound_kept(m, n);
}

proof fn lemma_bound_kept<T>(m: PageModel<T>, n: nat)
    requires
        m.wf(),
        m.page_size > 0,
        m.offset <= LOOKBACK_PAGES * m.page_size,
        m.buffer.len() <= m.offset + m.page_size,
    ensures
        ({
            let r = scrolled_down_evicting(m, n);
            &&& r.wf()
            &&& r.page_size == m.page_size
            &&& r.offset <= LOOKBACK_PAGES * m.page_size
            &&& r.buffer.len() <= r.offset + m.page_size
        }),
    decreases n,
{
    if n > 0 {
        lemma_bound_kept(m, (n - 1) as nat);
        let q = scrolled_down_evicting(m, (n - 1) as nat);
        let s = q.scrolled_down();
        let p = m.page_size as int;
        let o = s.offset as int;
        assert(o <= 4 * p);
        if q.focused + 1 >= q.page_size {
            lemma_mod_shift(q.offset as int, p, 1);
        }
        if s.too_deep() {
            lemma_deep_offset(o, p);
            lemma_mod_shift(o, p, -2);
        } else {
            vstd::arithmetic::div_mod::lemma_fundamental_div_mod(o, p);
            let k = o / p;
            assert(o <= 3 * p) by (nonlinear_arith)
                requires
                    o == p * k,
                    k <= 3,
                    p > 0,
            ;
        }
        let r = s.evicted();
        assert(r.buffer.len() <= r.offset + p);
    }
}

proof fn lemma_mod_shift(o: int, p: int, k: int)
    requires
        p > 0,
        o % p == 0,
    ensures
        (o + k * p) % p == 0,
{
    vstd::arithmetic::div_mod::lemma_fundamental_div_mod(o, p);
    let q = o / p;
    assert(o + k * p == (q + k) * p) by (nonlinear_arith)
        requires
            o == p * q,
    ;
    vstd::arithmetic::div_mod::lemma_mod_multiples_basic(q + k, p);
}

proof fn lemma_multiple_at_least(o: int, p: int)
    requires
        p > 0,
        o > 0,
        o % p == 0,
    ensures
        o >= p,
{
    vstd::arithmetic::div_mod::lemma_fundamental_div_mod(o, p);
    let q = o / p;
    assert(o >= p) by (nonlinear_arith)
        requires
            o == p * q,
            o > 0,
            p > 0,
    ;
}

proof fn lemma_deep_offset(o: int, p: int)
    requires
        p > 0,
        o >= 0,
        o / p > LOOKBACK_PAGES as int,
    ensures
        o >= (LOOKBACK_PAGES as int + 1) * p,
{
    vstd::arithmetic::div_mod::lemma_fundamental_div_mod(o, p);
    vstd::arithmetic::div_mod::lemma_mod_pos_bound(o, p);
    let q = o / p;
    assert(o >= 4 * p) by (nonlinear_arith)
        requires
            o == p * q + o % p,
            q >= 4,
            o % p >= 0,
            p > 0,
    ;
}

} // verus!
