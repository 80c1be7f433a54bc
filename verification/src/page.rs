//! Cutting fetched rows down to one page and deciding whether a further page exists.
use vstd::prelude::*;

verus! {

/// A request without a limit returns at most this many items.
pub const DEFAULT_PAGE_LIMIT: u64 = 1_000_000;

/// The most items a page holds: the limit, where it is given (a negative limit counts as
/// zero), else the default.
pub open spec fn page_limit(limit: Option<i64>) -> int {
    match limit {
        Some(l) => if l < 0 {
            0
        } else {
            l as int
        },
        None => DEFAULT_PAGE_LIMIT as int,
    }
}

/// How many of `n` fetched rows the page keeps.
pub open spec fn page_len(n: int, limit: Option<i64>) -> int {
    if n <= page_limit(limit) {
        n
    } else {
        page_limit(limit)
    }
}

/// One page of results.
pub struct Page<T> {
    pub items: Vec<T>,
    /// More rows follow the page; the caller answers with a key to resume from.
    pub has_more: bool,
}

/// Keeps the first rows, up to the page limit, and tells whether any were left over. The
/// caller fetches one row more than the limit, so a left-over row means a further page.
pub fn take_page<T>(rows: Vec<T>, limit: Option<i64>) -> (page: Page<T>)
    ensures
        page.items@ == rows@.take(page_len(rows.len() as int, limit)),
        page.has_more == (rows.len() > page_limit(limit)),
        ({
            let cap: int = match limit {
                Some(l) => if l < 0 {
                    0
                } else {
                    l as int
                },
                None => 1_000_000,
            };
            &&& page.items.len() <= cap
            &&& page.items.len() <= rows.len()
            &&& (page.items.len() == cap || page.items.len() == rows.len())
            &&& page.has_more <==> rows.len() > cap
            &&& forall|i: int| 0 <= i < page.items.len() ==> #[trigger] page.items@[i] == rows@[i]
        }),
{
    let n: usize = rows.len();
    let keep: usize = match limit {
        Some(l) => {
            if l <= 0 {
                0
            } else if (l as u64) >= (n as u64) {
                n
            } else {
                l as usize
            }
        },
        None => {
            if (n as u64) > DEFAULT_PAGE_LIMIT {
                DEFAULT_PAGE_LIMIT as usize
            } else {
                n
            }
        },
    };
    let has_more = keep < n;
    let mut items = rows;
    items.truncate(keep);
    Page { items, has_more }
}

impl<T> Page<T> {
    /// The position of the item that the next page resumes after: the last item of the
    /// page, where a further page exists and the page is not empty.
    pub fn last_evaluated_index(&self) -> (res: Option<usize>)
        ensures
            res == (if self.has_more && self.items.len() > 0 {
                Some((self.items.len() - 1) as usize)
            } else {
                None::<usize>
            }),
    {
        if self.has_more && self.items.len() > 0 {
            Some(self.items.len() - 1)
        } else {
            None
        }
    }
}

/// A page never holds more than the limit; a further page is announced exactly when rows
/// were left over, and then the page is full.
pub proof fn lemma_page_bounds(n: int, limit: Option<i64>)
    requires
        n >= 0,
    ensures
        0 <= page_len(n, limit) <= page_limit(limit),
        page_len(n, limit) <= n,
        n > page_limit(limit) ==> page_len(n, limit) == page_limit(limit),
        n <= page_limit(limit) ==> page_len(n, limit) == n,
{
}

} // verus!
