//! Summing viewer counts across paginated listings of live broadcasts.
//!
//! One game's viewer count is the sum of `viewer_count` over every live
//! broadcast of that game, read page by page: each page carries some counts
//! and an optional cursor for the next page. Pagination ends when the cursor
//! is absent or empty, when a page fails to arrive (the partial sum stands),
//! or when a fixed safety bound on the number of pages is reached.

use vstd::prelude::*;

verus! {

/// Safety bound on the number of pages fetched for one game, so that a
/// service which always returns a non-empty cursor cannot cause an
/// unbounded run of requests.
pub const MAX_PAGES: u64 = 1000;

/// One page of live-broadcast records for a single game: the viewer count of
/// each record on the page, and the cursor with which to request the next
/// page, if the service supplied one.
pub struct StreamsPage {
    pub counts: Vec<u64>,
    pub cursor: Option<String>,
}

/// Mathematical image of a [`StreamsPage`].
pub ghost struct PageView {
    pub counts: Seq<u64>,
    pub cursor: Option<Seq<char>>,
}

impl View for StreamsPage {
    type V = PageView;

    open spec fn view(&self) -> PageView {
        PageView { counts: self.counts@, cursor: self.cursor.deep_view() }
    }
}

/// The outcome of requesting one page: either the page arrived and was
/// decoded, or the transport or the decoding failed.
pub enum PageFetch {
    Page(StreamsPage),
    Failure,
}

/// Mathematical image of a [`PageFetch`].
pub ghost enum FetchView {
    Page(PageView),
    Failure,
}

impl View for PageFetch {
    type V = FetchView;

    open spec fn view(&self) -> FetchView {
        match self {
            PageFetch::Page(p) => FetchView::Page(p@),
            PageFetch::Failure => FetchView::Failure,
        }
    }
}

/// An absent or empty cursor ends pagination.
pub open spec fn cursor_ends(cursor: Option<Seq<char>>) -> bool {
    match cursor {
        Option::None => true,
        Option::Some(c) => c.len() == 0,
    }
}

/// The integer sum of a sequence of counts.
pub open spec fn sum_of(s: Seq<u64>) -> int
    decreases s.len(),
{
    if s.len() == 0 {
        0
    } else {
        sum_of(s.drop_last()) + s.last()
    }
}

/// An integer clamped into the range of `u64`; sums of counts are clamped
/// rather than allowed to overflow.
pub open spec fn clamp_u64(n: int) -> int {
    if n > u64::MAX {
        u64::MAX as int
    } else {
        n
    }
}

/// A sum of counts is never negative.
pub proof fn lemma_sum_of_nonneg(s: Seq<u64>)
    ensures
        sum_of(s) >= 0,
    decreases s.len(),
{
    if s.len() > 0 {
        lemma_sum_of_nonneg(s.drop_last());
    }
}

proof fn lemma_sum_of_take_succ(s: Seq<u64>, i: int)
    requires
        0 <= i < s.len(),
    ensures
        sum_of(s.take(i + 1)) == sum_of(s.take(i)) + s[i],
{
    assert(s.take(i + 1).drop_last() =~= s.take(i));
    assert(s.take(i + 1).last() == s[i]);
}

/// The sum of the counts on one page, clamped into `u64`.
pub fn sum_counts(counts: &Vec<u64>) -> (total: u64)
    ensures
        total == clamp_u64(sum_of(counts@)),
{
    let mut total: u64 = 0;
    let mut i: usize = 0;
    while i < counts.len()
        invariant
            0 <= i <= counts.len(),
            total == clamp_u64(sum_of(counts@.take(i as int))),
        decreases counts.len() - i,
    {
        let c = counts[i];
        proof {
            lemma_sum_of_take_succ(counts@, i as int);
            lemma_sum_of_nonneg(counts@.take(i as int));
        }
        total = if c <= u64::MAX - total {
            total + c
        } else {
            u64::MAX
        };
        i = i + 1;
    }
    proof {
        assert(counts@.take(counts@.len() as int) =~= counts@);
    }
    total
}

proof fn lemma_clamp_add(a: int, b: int)
    requires
        a >= 0,
        b >= 0,
    ensures
        clamp_u64(clamp_u64(a) + b) == clamp_u64(a + b),
{
}

/// The running state of one game's pagination: the clamped sum accumulated
/// so far, how many pages have been fetched, whether pagination has ended,
/// and the cursor to request the next page with.
pub struct Aggregation {
    pub total: u64,
    pub pages: u64,
    pub finished: bool,
    pub cursor: Option<String>,
}

impl Aggregation {
    /// The page counter never passes the safety bound, and pagination is
    /// declared finished once it reaches it.
    pub open spec fn wf(&self) -> bool {
        self.pages <= MAX_PAGES && (!self.finished ==> self.pages < MAX_PAGES)
    }

    /// The state before any page has been requested: no cursor is supplied
    /// with the first request.
    pub fn new() -> (a: Aggregation)
        ensures
            a.wf(),
            a.total == 0,
            a.pages == 0,
            !a.finished,
            a.cursor is None,
    {
        Aggregation { total: 0, pages: 0, finished: false, cursor: None }
    }

    /// Record one page that arrived: its counts join the running total
    /// (clamped into `u64`), and pagination ends exactly when the page's
    /// cursor is absent or empty, or the safety bound is reached.
    pub fn on_page(&mut self, page: &StreamsPage)
        requires
            old(self).wf(),
            !old(self).finished,
        ensures
            final(self).wf(),
            final(self).total == clamp_u64(old(self).total + sum_of(page@.counts)),
            final(self).pages == old(self).pages + 1,
            final(self).finished == (cursor_ends(page@.cursor) || old(self).pages + 1
                == MAX_PAGES),
            final(self).cursor.deep_view() == page@.cursor,
    {
        let s = sum_counts(&page.counts);
        proof {
            lemma_sum_of_nonneg(page@.counts);
            lemma_clamp_add(sum_of(page@.counts), self.total as int);
        }
        self.total = if s <= u64::MAX - self.total {
            self.total + s
        } else {
            u64::MAX
        };
        self.pages = self.pages + 1;
        let ends = match &page.cursor {
            Option::None => true,
            Option::Some(c) => c.as_str().is_empty(),
        };
        self.finished = ends || self.pages == MAX_PAGES;
        self.cursor = match &page.cursor {
            Option::None => None,
            Option::Some(c) => Some(c.clone()),
        };
    }

    /// Record that a page failed to arrive or to decode: pagination ends and
    /// the partial sum accumulated so far stands.
    pub fn on_failure(&mut self)
        requires
            old(self).wf(),
            !old(self).finished,
        ensures
            final(self).wf(),
            final(self).total == old(self).total,
            final(self).pages == old(self).pages,
            final(self).finished,
            final(self).cursor == old(self).cursor,
    {
        self.finished = true;
    }
}

/// The total that pagination yields over a given succession of page
/// outcomes, with `budget` fetches still allowed: page sums accumulate until
/// a page's cursor is absent or empty, a fetch fails, the succession runs
/// out, or the budget does.
pub open spec fn spec_aggregate(script: Seq<FetchView>, budget: nat) -> int
    decreases script.len(),
{
    if script.len() == 0 || budget == 0 {
        0
    } else {
        match script[0] {
            FetchView::Failure => 0,
            FetchView::Page(p) => sum_of(p.counts) + if cursor_ends(p.cursor) {
                0
            } else {
                spec_aggregate(script.skip(1), (budget - 1) as nat)
            },
        }
    }
}

/// The page-sum that one fetch outcome contributes: a failed fetch
/// contributes nothing.
pub open spec fn page_total(f: FetchView) -> int {
    match f {
        FetchView::Page(p) => sum_of(p.counts),
        FetchView::Failure => 0,
    }
}

/// The sum of the page-sums of the first `k` outcomes of a succession.
pub open spec fn pages_sum(script: Seq<FetchView>, k: int) -> int
    decreases k,
{
    if k <= 0 || script.len() == 0 {
        0
    } else {
        page_total(script[0]) + pages_sum(script.skip(1), k - 1)
    }
}

/// A fetch failure truncates, it does not abort: when the first `k` pages
/// arrive with cursors that continue pagination and fetch `k` fails, the
/// aggregate is exactly the partial sum of those `k` pages.
pub proof fn lemma_failure_yields_partial_sum(script: Seq<FetchView>, k: int, budget: nat)
    requires
        0 <= k < script.len(),
        k < budget,
        script[k] is Failure,
        forall|j: int|
            0 <= j < k ==> ((#[trigger] script[j]) matches FetchView::Page(p)
                && !cursor_ends(p.cursor)),
    ensures
        spec_aggregate(script, budget) == pages_sum(script, k),
    decreases k,
{
    if k == 0 {
        assert(spec_aggregate(script, budget) == 0);
    } else {
        assert(script[0] matches FetchView::Page(p) && !cursor_ends(p.cursor));
        assert(forall|j: int|
            0 <= j < k - 1 ==> (#[trigger] script.skip(1)[j]) == script[j + 1]);
        lemma_failure_yields_partial_sum(script.skip(1), k - 1, (budget - 1) as nat);
    }
}

/// Pagination sums every page: when each page arrives, each page but the
/// last carries a cursor that continues pagination, the last page's cursor
/// ends it, and the safety bound is not hit, the aggregate is exactly the
/// sum of every `viewer_count` on every page.
pub proof fn lemma_every_page_summed(script: Seq<FetchView>, budget: nat)
    requires
        script.len() > 0,
        script.len() <= budget,
        forall|j: int|
            0 <= j < script.len() - 1 ==> ((#[trigger] script[j]) matches FetchView::Page(p)
                && !cursor_ends(p.cursor)),
        script.last() matches FetchView::Page(p) && cursor_ends(p.cursor),
    ensures
        spec_aggregate(script, budget) == pages_sum(script, script.len() as int),
    decreases script.len(),
{
    if script.len() == 1 {
        assert(script[0] == script.last());
        assert(spec_aggregate(script, budget) == page_total(script[0]));
        assert(pages_sum(script, 1) == page_total(script[0]) + pages_sum(script.skip(1), 0));
    } else {
        assert(script[0] matches FetchView::Page(p) && !cursor_ends(p.cursor));
        assert(forall|j: int|
            0 <= j < script.len() - 1 ==> (#[trigger] script.skip(1)[j]) == script[j + 1]);
        assert(script.skip(1).last() == script.last());
        lemma_every_page_summed(script.skip(1), (budget - 1) as nat);
        assert(spec_aggregate(script, budget) == page_total(script[0]) + spec_aggregate(
            script.skip(1),
            (budget - 1) as nat,
        ));
        assert(pages_sum(script, script.len() as int) == page_total(script[0]) + pages_sum(
            script.skip(1),
            script.len() - 1,
        ));
    }
}

/// The succession of page outcomes a vector holds, as mathematical values.
pub open spec fn script_view(script: Seq<PageFetch>) -> Seq<FetchView> {
    script.map_values(|p: PageFetch| p@)
}

/// The viewer count of one game, given the succession of page outcomes that
/// the service would serve: the exact clamped sum of every `viewer_count`
/// on every page until the cursor runs out, a fetch fails, or the safety
/// bound on pages is reached.
pub fn aggregate_viewers(script: &Vec<PageFetch>) -> (total: u64)
    ensures
        total == clamp_u64(spec_aggregate(script_view(script@), MAX_PAGES as nat)),
{
    let ghost full = script_view(script@);
    let mut agg = Aggregation::new();
    let ghost mut raw: int = 0;
    let mut i: usize = 0;
    proof {
        assert(full.skip(0) =~= full);
    }
    while i < script.len() && !agg.finished
        invariant
            full == script_view(script@),
            agg.wf(),
            0 <= i <= script.len(),
            raw >= 0,
            agg.total == clamp_u64(raw),
            !agg.finished ==> agg.pages == i,
            !agg.finished ==> spec_aggregate(full, (MAX_PAGES as nat)) == raw
                + spec_aggregate(full.skip(i as int), (MAX_PAGES - i) as nat),
            agg.finished ==> spec_aggregate(full, (MAX_PAGES as nat)) == raw,
        decreases script.len() - i,
    {
        proof {
            assert(full.skip(i as int)[0] == full[i as int]);
            assert(full.skip(i as int).skip(1) =~= full.skip(i as int + 1));
        }
        match &script[i] {
            PageFetch::Page(p) => {
                proof {
                    lemma_sum_of_nonneg(p@.counts);
                    assert(full[i as int] == FetchView::Page(p@));
                    assert(spec_aggregate(full.skip(i as int), (MAX_PAGES - i) as nat)
                        == sum_of(p@.counts) + if cursor_ends(p@.cursor) {
                            0int
                        } else {
                            spec_aggregate(full.skip(i as int + 1), (MAX_PAGES - i - 1) as nat)
                        });
                }
                agg.on_page(p);
                proof {
                    raw = raw + sum_of(p@.counts);
                    if agg.finished && !cursor_ends(p@.cursor) {
                        assert(MAX_PAGES - i - 1 == 0);
                        assert(spec_aggregate(full.skip(i as int + 1), 0nat) == 0);
                    }
                }
            },
            PageFetch::Failure => {
                agg.on_failure();
            },
        }
        i = i + 1;
    }
    proof {
        if !agg.finished {
            assert(full.skip(i as int) =~= Seq::<FetchView>::empty());
        }
    }
    agg.total
}

} // verus!
