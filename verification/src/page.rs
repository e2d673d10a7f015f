//! Dividing a listing into pages.

use vstd::prelude::*;

verus! {

/// The number of page links shown at once.
pub const PAGE_WINDOW: u32 = 5;

/// The number of pages that `items` items fill, `per_page` to a page.
pub open spec fn pages_needed(items: int, per_page: int) -> int {
    (items + per_page - 1) / per_page
}

/// The first of the page numbers shown around the page `current` of `total`.
pub open spec fn window_start(current: int, total: int) -> int {
    if total <= PAGE_WINDOW {
        1
    } else {
        let around = if current >= 2 {
            current - 2
        } else {
            0
        };
        let low = if around < total - 4 {
            around
        } else {
            total - 4
        };
        if low < 1 {
            1
        } else {
            low
        }
    }
}

/// The last of the page numbers shown around the page `current` of `total`.
pub open spec fn window_end(current: int, total: int) -> int {
    if total <= PAGE_WINDOW {
        total
    } else if window_start(current, total) + 4 < total {
        window_start(current, total) + 4
    } else {
        total
    }
}

/// The page numbers shown around the page `current` of `total`: all of them if
/// there are at most five, else five around the current page.
pub open spec fn page_window(current: int, total: int) -> Seq<int> {
    Seq::new(
        (window_end(current, total) - window_start(current, total) + 1) as nat,
        |k: int| window_start(current, total) + k,
    )
}

/// The page numbers shown around the page `current` of `total`.
pub fn compute_page_numbers(current: u32, total: u32) -> (r: Vec<u32>)
    ensures
        r@.map_values(|p: u32| p as int) == page_window(current as int, total as int),
{
    let start: u32 = if total <= PAGE_WINDOW {
        1
    } else {
        let around: u32 = if current >= 2 {
            current - 2
        } else {
            0
        };
        let low: u32 = if around < total - 4 {
            around
        } else {
            total - 4
        };
        if low < 1 {
            1
        } else {
            low
        }
    };
    let end: u32 = if total <= PAGE_WINDOW {
        total
    } else if start + 4 < total {
        start + 4
    } else {
        total
    };
    let mut r: Vec<u32> = Vec::new();
    let mut p: u64 = start as u64;
    while p <= end as u64
        invariant
            start <= p,
            p <= end + 1,
            start == window_start(current as int, total as int),
            end == window_end(current as int, total as int),
            r.len() == p - start,
            forall|k: int| 0 <= k < r.len() ==> r[k] == start + k,
        decreases end + 1 - p,
    {
        r.push(p as u32);
        p += 1;
    }
    assert(r@.map_values(|p: u32| p as int) =~= page_window(current as int, total as int));
    r
}

/// One page of a listing.
#[derive(Debug)]
pub struct Pagination {
    pub current_page: u32,
    pub total_pages: u32,
    pub prev_page: Option<u32>,
    pub next_page: Option<u32>,
    pub page_numbers: Vec<u32>,
    /// The position of the first item of the page.
    pub start: usize,
    /// The position behind the last item of the page.
    pub end: usize,
}

/// The lesser of two numbers.
pub open spec fn least(a: int, b: int) -> int {
    if a < b {
        a
    } else {
        b
    }
}

/// The page `page` of a listing of `total_items` items, `per_page` to a page.
///
/// The number of pages is counted up to `u32::MAX`.
pub fn paginate(total_items: usize, page: u32, per_page: u32) -> (r: Pagination)
    requires
        page >= 1,
        per_page >= 1,
    ensures
        r.current_page == page,
        r.total_pages == least(pages_needed(total_items as int, per_page as int), u32::MAX as int),
        r.prev_page == (if page > 1 {
            Some((page - 1) as u32)
        } else {
            None
        }),
        r.next_page == (if page < r.total_pages {
            Some((page + 1) as u32)
        } else {
            None
        }),
        r.page_numbers@.map_values(|p: u32| p as int) == page_window(page as int, r.total_pages as int),
        r.start == least((page - 1) * per_page, total_items as int),
        r.end == least(r.start + per_page, total_items as int),
{
    let items: u128 = total_items as u128;
    let per: u128 = per_page as u128;
    let needed: u128 = (items + per - 1) / per;
    let total_pages: u32 = if needed > u32::MAX as u128 {
        u32::MAX
    } else {
        needed as u32
    };
    let before: u128 = page as u128 - 1;
    assert(before * per <= 0xFFFF_FFFF * 0xFFFF_FFFF) by (nonlinear_arith)
        requires
            before <= 0xFFFF_FFFF,
            per <= 0xFFFF_FFFF,
    ;
    let first: u128 = before * per;
    let start: usize = if first < items {
        first as usize
    } else {
        total_items
    };
    let end: usize = if per < items - start as u128 {
        start + per_page as usize
    } else {
        total_items
    };
    Pagination {
        current_page: page,
        total_pages,
        prev_page: if page > 1 {
            Some(page - 1)
        } else {
            None
        },
        next_page: if page < total_pages {
            Some(page + 1)
        } else {
            None
        },
        page_numbers: compute_page_numbers(page, total_pages),
        start,
        end,
    }
}

impl Pagination {
    /// The same page of a listing that has at least one page, even an empty one.
    pub fn at_least_one_page(self) -> (r: Pagination)
        ensures
            r.total_pages == (if self.total_pages == 0 {
                1u32
            } else {
                self.total_pages
            }),
            r.current_page == self.current_page,
            r.prev_page == self.prev_page,
            r.next_page == (if self.current_page < r.total_pages {
                Some((self.current_page + 1) as u32)
            } else {
                None
            }),
            r.page_numbers@.map_values(|p: u32| p as int) == page_window(
                self.current_page as int,
                r.total_pages as int,
            ),
            r.start == self.start,
            r.end == self.end,
    {
        let total_pages: u32 = if self.total_pages == 0 {
            1
        } else {
            self.total_pages
        };
        Pagination {
            current_page: self.current_page,
            total_pages,
            prev_page: self.prev_page,
            next_page: if self.current_page < total_pages {
                Some(self.current_page + 1)
            } else {
                None
            },
            page_numbers: compute_page_numbers(self.current_page, total_pages),
            start: self.start,
            end: self.end,
        }
    }
}

} // verus!
