//! Pagination over GitLab list endpoints.
//!
//! GitLab reports the total number of pages in a response header. The
//! retrieval loops start at page one and keep requesting while the declared
//! total lies beyond the current page; a failed or unparsable response is
//! treated as a declared total of one, so a scan degrades to whatever pages
//! it got instead of aborting or looping forever.
//!
//! The unverified caller performs the HTTP requests; this module holds every
//! decision: which page to ask for next, when to stop, and how the pages'
//! entries are combined.

use crate::text::parse_u64_digits;
use vstd::prelude::*;

verus! {

/// The page number to request after `page`, given the total the server
/// declared in the response for `page`; `None` when the scan is done.
pub open spec fn next_page(page: u64, declared_total: u64) -> Option<u64> {
    if declared_total > page {
        Some((page + 1) as u64)
    } else {
        None
    }
}

/// Position of a pagination scan: the page to request next, starting at one.
#[derive(Debug, Clone, Copy, PartialEq, Eq, Structural)]
pub struct PageCursor {
    pub page: u64,
}

impl PageCursor {
    /// A scan starts at page one.
    pub fn first() -> (c: Self)
        ensures
            c.page == 1,
    {
        PageCursor { page: 1 }
    }

    /// After the response for this cursor's page declared `declared_total`
    /// pages in all, the cursor for the next request, or `None` when no page
    /// remains. A failed request is reported as a declared total of one,
    /// which always ends the scan.
    pub fn advance(&self, declared_total: u64) -> (r: Option<PageCursor>)
        ensures
            match r {
                Some(c) => next_page(self.page, declared_total) == Some(c.page),
                None => next_page(self.page, declared_total) is None,
            },
    {
        if declared_total > self.page {
            Some(PageCursor { page: self.page + 1 })
        } else {
            None
        }
    }
}

/// How many requests a scan makes when every response declares `total`
/// pages, counted from `page`.
pub open spec fn requests_from(page: u64, total: u64) -> nat
    decreases total - page,
{
    if total > page {
        1 + requests_from((page + 1) as u64, total)
    } else {
        1
    }
}

/// Pagination terminates: a scan whose responses all declare `total` pages
/// issues exactly `max(1, total)` requests, one per page (a declared total
/// of zero still costs the single request that revealed it).
pub proof fn lemma_pagination_request_count(total: u64)
    ensures
        requests_from(1, total) == if total <= 1 { 1nat } else { total as nat },
{
    lemma_requests_from(1, total);
}

proof fn lemma_requests_from(page: u64, total: u64)
    requires
        page >= 1,
    ensures
        requests_from(page, total) == if total > page {
            (total - page + 1) as nat
        } else {
            1nat
        },
    decreases total - page,
{
    if total > page {
        lemma_requests_from((page + 1) as u64, total);
    }
}

/// One fetched page, as the unverified caller hands it over: the entry ids
/// found in the body and the total page count declared in the response. A
/// request that failed or could not be parsed is passed as no entries with
/// a declared total of one.
#[derive(Debug)]
pub struct PageResponse {
    pub ids: Vec<u64>,
    pub total_pages: u64,
}

impl PageResponse {
    /// The stand-in for a failed or unparsable request.
    pub fn failed() -> (r: Self)
        ensures
            r.ids@ == Seq::<u64>::empty(),
            r.total_pages == 1,
    {
        PageResponse { ids: Vec::new(), total_pages: 1 }
    }
}

/// The ids a scan accumulates when the server would answer request `k` with
/// `pages[k - 1]`, starting from request number `page`: each visited page
/// contributes its entries, and a request beyond the recorded responses
/// fails, contributing nothing and ending the scan.
pub open spec fn scan_ids(pages: Seq<PageResponse>, page: u64) -> Seq<u64>
    recommends
        page >= 1,
    decreases pages.len() + 2 - page when 1 <= page <= pages.len() + 1
{
    if page < 1 || page > pages.len() {
        Seq::empty()
    } else {
        let resp = pages[page - 1];
        resp.ids@ + if next_page(page, resp.total_pages) is Some {
            scan_ids(pages, (page + 1) as u64)
        } else {
            Seq::empty()
        }
    }
}

/// Runs a whole pagination scan against recorded responses: `pages[k]` is
/// what the server answers to request `k + 1`. Returns the concatenation of
/// the entries of every page the scan visits.
pub fn collect_pages(pages: &Vec<PageResponse>) -> (ids: Vec<u64>)
    ensures
        ids@ == scan_ids(pages@, 1),
{
    let mut ids: Vec<u64> = Vec::new();
    let mut cursor = PageCursor::first();
    let mut done = false;
    while !done
        invariant
            done ==> ids@ == scan_ids(pages@, 1),
            !done ==> 1 <= cursor.page <= pages@.len() + 1,
            !done ==> scan_ids(pages@, 1) == ids@ + scan_ids(pages@, cursor.page),
        decreases (if done { 0int } else { pages@.len() + 2 - cursor.page }),
    {
        if cursor.page > pages.len() as u64 {
            // This request would fail: nothing is added and the scan ends.
            proof {
                assert(scan_ids(pages@, cursor.page) =~= Seq::<u64>::empty());
                assert(ids@ =~= ids@ + Seq::<u64>::empty());
            }
            done = true;
        } else {
            let idx = (cursor.page - 1) as usize;
            let resp = &pages[idx];
            let ghost old_ids = ids@;
            let mut k: usize = 0;
            let n = resp.ids.len();
            while k < n
                invariant
                    n == resp.ids@.len(),
                    k <= n,
                    ids@ == old_ids + resp.ids@.subrange(0, k as int),
                decreases n - k,
            {
                let v = resp.ids[k];
                ids.push(v);
                proof {
                    assert(old_ids + resp.ids@.subrange(0, k + 1) =~= (old_ids
                        + resp.ids@.subrange(0, k as int)).push(resp.ids@[k as int]));
                }
                k = k + 1;
            }
            proof {
                assert(resp.ids@.subrange(0, n as int) =~= resp.ids@);
            }
            match cursor.advance(resp.total_pages) {
                Some(next) => {
                    proof {
                        assert(scan_ids(pages@, cursor.page) == resp.ids@ + scan_ids(
                            pages@,
                            next.page,
                        ));
                        assert(old_ids + (resp.ids@ + scan_ids(pages@, next.page)) =~= (old_ids
                            + resp.ids@) + scan_ids(pages@, next.page));
                    }
                    cursor = next;
                },
                None => {
                    proof {
                        assert(scan_ids(pages@, cursor.page) =~= resp.ids@);
                    }
                    done = true;
                },
            }
        }
    }
    ids
}

/// The total page count a response declares: the unsigned numeral in the
/// page-count header, or one when the header is absent or not a number.
pub fn total_pages_from_header(header: Option<&str>) -> (r: u64)
    ensures
        r == match header {
            Some(h) => match crate::text::spec_parse_u64(h@) {
                Some(v) => v,
                None => 1u64,
            },
            None => 1u64,
        },
{
    match header {
        Some(h) => match parse_u64_digits(h) {
            Some(v) => v,
            None => 1,
        },
        None => 1,
    }
}

/// Appends `id` unless it is already present, as a set-valued accumulation
/// of project ids does.
pub fn insert_unique(acc: &mut Vec<u64>, id: u64)
    ensures
        forall|x: u64| #[trigger] final(acc)@.contains(x) <==> (old(acc)@.contains(x) || x == id),
        old(acc)@.no_duplicates() ==> final(acc)@.no_duplicates(),
{
    let mut i: usize = 0;
    let n = acc.len();
    while i < n
        invariant
            n == acc@.len(),
            i <= n,
            forall|j: int| 0 <= j < i ==> acc@[j] != id,
        decreases n - i,
    {
        if acc[i] == id {
            return;
        }
        i = i + 1;
    }
    acc.push(id);
    proof {
        let pre = old(acc)@;
        assert forall|x: u64| #[trigger] acc@.contains(x) implies (pre.contains(x) || x == id) by {
            let k = choose|k: int| 0 <= k < acc@.len() && acc@[k] == x;
            if k < pre.len() {
                assert(pre[k] == x);
            }
        }
        assert forall|x: u64| pre.contains(x) || x == id implies #[trigger] acc@.contains(x) by {
            if pre.contains(x) {
                let k = choose|k: int| 0 <= k < pre.len() && pre[k] == x;
                assert(acc@[k] == x);
            } else {
                assert(acc@[pre.len() as int] == id);
            }
        }
    }
}

} // verus!
