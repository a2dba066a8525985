//! Pagination over the filtered banned-address view.
//!
//! Fixed page size, 0-based current page, total item count. The standing
//! invariant is `current_page < total_pages()`, where an empty collection
//! still has one (empty) page; it must be re-established by
//! [`BannedIpPagination::update_total_items`] whenever the visible count
//! changes.

use vstd::prelude::*;

verus! {

/// Page window over a list of `total_items` records.
#[derive(Debug, Clone)]
pub struct BannedIpPagination {
    /// Number of records per page; always positive.
    pub page_size: usize,
    /// 0-based index of the page on display.
    pub current_page: usize,
    /// Number of records in the collection being paged.
    pub total_items: usize,
}

/// Number of pages: 1 for an empty collection, else the item count divided
/// by the page size, rounded up.
pub open spec fn spec_total_pages(total_items: nat, page_size: nat) -> int
    recommends
        page_size > 0,
{
    if total_items == 0 {
        1
    } else {
        ((total_items - 1) / (page_size as int)) + 1
    }
}

impl BannedIpPagination {
    /// Well-formedness: positive page size and a current page in range.
    pub open spec fn wf(self) -> bool {
        &&& self.page_size > 0
        &&& (self.current_page as int) < spec_total_pages(
            self.total_items as nat,
            self.page_size as nat,
        )
    }

    pub open spec fn spec_total_pages(self) -> int {
        spec_total_pages(self.total_items as nat, self.page_size as nat)
    }

    /// Index of the first record of the current page.
    pub open spec fn spec_start_index(self) -> int {
        self.current_page * self.page_size
    }

    /// One past the index of the last record of the current page.
    pub open spec fn spec_end_index(self) -> int {
        let next = (self.current_page + 1) * self.page_size;
        if next <= self.total_items {
            next
        } else {
            self.total_items as int
        }
    }

    /// The start index lies strictly inside the collection whenever the
    /// collection is non-empty.
    pub proof fn lemma_start_index_in_range(self)
        requires
            self.wf(),
            self.total_items > 0,
        ensures
            self.spec_start_index() < self.total_items,
    {
        let p = self.page_size as int;
        let n = self.total_items as int;
        let cp = self.current_page as int;
        assert(cp <= (n - 1) / p);
        assert(cp * p <= ((n - 1) / p) * p) by (nonlinear_arith)
            requires
                p > 0,
                cp <= (n - 1) / p,
        ;
        assert(((n - 1) / p) * p <= n - 1) by (nonlinear_arith)
            requires
                p > 0,
                n >= 1,
        ;
    }

    /// A page never starts at or past its end while anything is on display:
    /// `start_index() < end_index()` whenever `total_items > 0`.
    pub proof fn lemma_page_window_nonempty(self)
        requires
            self.wf(),
            self.total_items > 0,
        ensures
            self.spec_start_index() < self.spec_end_index(),
    {
        self.lemma_start_index_in_range();
        assert(self.current_page * self.page_size + self.page_size == (self.current_page + 1)
            * self.page_size) by (nonlinear_arith);
    }

    /// Number of pages; at least 1 even when the collection is empty.
    pub fn total_pages(&self) -> (r: usize)
        requires
            self.wf(),
        ensures
            r == self.spec_total_pages(),
            r >= 1,
    {
        if self.total_items == 0 {
            1
        } else {
            (self.total_items - 1) / self.page_size + 1
        }
    }

    /// Index of the first record of the current page.
    pub fn start_index(&self) -> (r: usize)
        requires
            self.wf(),
        ensures
            r == self.spec_start_index(),
            self.total_items > 0 ==> r < self.total_items,
            self.total_items == 0 ==> r == 0,
    {
        proof {
            if self.total_items > 0 {
                self.lemma_start_index_in_range();
            } else {
                assert(self.spec_total_pages() == 1);
                assert(self.current_page == 0);
                assert(self.current_page * self.page_size == 0) by (nonlinear_arith)
                    requires
                        self.current_page == 0,
                ;
            }
        }
        self.current_page * self.page_size
    }

    /// One past the index of the last record of the current page, clamped
    /// to the collection size.
    pub fn end_index(&self) -> (r: usize)
        requires
            self.wf(),
        ensures
            r == self.spec_end_index(),
            r <= self.total_items,
            self.total_items > 0 ==> self.spec_start_index() < r,
    {
        proof {
            if self.total_items > 0 {
                self.lemma_page_window_nonempty();
            } else {
                assert(self.spec_total_pages() == 1);
                assert(self.current_page == 0);
            }
        }
        let start = self.start_index();
        proof {
            assert(start + self.page_size == (self.current_page + 1) * self.page_size)
                by (nonlinear_arith)
                requires
                    start == self.current_page * self.page_size,
            ;
            if self.total_items == 0 {
                assert(start == 0) by (nonlinear_arith)
                    requires
                        start == self.current_page * self.page_size,
                        self.current_page == 0,
                ;
            }
            assert(start <= self.total_items);
        }
        if self.total_items - start >= self.page_size {
            start + self.page_size
        } else {
            self.total_items
        }
    }

    /// Moves one page forward unless already on the last page; reports
    /// whether movement occurred. No wraparound.
    pub fn next_page(&mut self) -> (moved: bool)
        requires
            old(self).wf(),
        ensures
            final(self).wf(),
            final(self).page_size == old(self).page_size,
            final(self).total_items == old(self).total_items,
            moved <==> (old(self).current_page + 1 < old(self).spec_total_pages()),
            moved ==> final(self).current_page == old(self).current_page + 1,
            !moved ==> final(self).current_page == old(self).current_page,
    {
        let tp = self.total_pages();
        if self.current_page < tp - 1 {
            self.current_page = self.current_page + 1;
            true
        } else {
            false
        }
    }

    /// Moves one page back unless already on the first page; reports
    /// whether movement occurred. No wraparound.
    pub fn prev_page(&mut self) -> (moved: bool)
        requires
            old(self).wf(),
        ensures
            final(self).wf(),
            final(self).page_size == old(self).page_size,
            final(self).total_items == old(self).total_items,
            moved <==> old(self).current_page > 0,
            moved ==> final(self).current_page == old(self).current_page - 1,
            !moved ==> final(self).current_page == old(self).current_page,
    {
        if self.current_page > 0 {
            self.current_page = self.current_page - 1;
            true
        } else {
            false
        }
    }

    /// Jumps to the first page.
    pub fn go_to_first_page(&mut self)
        requires
            old(self).wf(),
        ensures
            final(self).wf(),
            final(self).page_size == old(self).page_size,
            final(self).total_items == old(self).total_items,
            final(self).current_page == 0,
    {
        self.current_page = 0;
    }

    /// Jumps to the last page; on an empty collection stays on page 0.
    pub fn go_to_last_page(&mut self)
        requires
            old(self).wf(),
        ensures
            final(self).wf(),
            final(self).page_size == old(self).page_size,
            final(self).total_items == old(self).total_items,
            old(self).total_items > 0 ==> final(self).current_page == old(self).spec_total_pages()
                - 1,
            old(self).total_items == 0 ==> final(self).current_page == old(self).current_page,
    {
        if self.total_items > 0 {
            let tp = self.total_pages();
            self.current_page = tp - 1;
        }
    }

    /// Records a new total item count and re-clamps the current page so
    /// that `current_page < total_pages()` holds again. Never leaves the
    /// current page at or past the page count.
    pub fn update_total_items(&mut self, total: usize)
        requires
            old(self).wf(),
        ensures
            final(self).wf(),
            final(self).page_size == old(self).page_size,
            final(self).total_items == total,
            final(self).current_page < final(self).spec_total_pages(),
            final(self).current_page == if (old(self).current_page as int) < final(self).spec_total_pages() {
                old(self).current_page as int
            } else {
                final(self).spec_total_pages() - 1
            },
    {
        self.total_items = total;
        let max_page = self.total_pages_raw() - 1;
        if self.current_page > max_page {
            self.current_page = max_page;
        }
    }

    /// Page count computed without assuming the current page is in range;
    /// used while re-establishing the invariant.
    fn total_pages_raw(&self) -> (r: usize)
        requires
            self.page_size > 0,
        ensures
            r == spec_total_pages(self.total_items as nat, self.page_size as nat),
            r >= 1,
    {
        if self.total_items == 0 {
            1
        } else {
            (self.total_items - 1) / self.page_size + 1
        }
    }
}

/// The page window defaults to 100 records per page, opening on the first
/// page of an empty collection.
impl Default for BannedIpPagination {
    fn default() -> (r: Self)
        ensures
            r.page_size == 100,
            r.current_page == 0,
            r.total_items == 0,
            r.wf(),
    {
        BannedIpPagination { page_size: 100, current_page: 0, total_items: 0 }
    }
}

} // verus!
