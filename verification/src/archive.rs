//! Walking the paginated archive listing.
//!
//! Each listing page holds a results table of resource links and may
//! name a next page through a pagination anchor. The crawler keeps a
//! buffer of not-yet-yielded resource URLs and the pending next-page
//! address, yields buffered URLs first-discovered-first, and asks its
//! driver to fetch exactly one page at a time; page N+1's address is
//! only known once page N is parsed.

use vstd::prelude::*;

use soup::{NodeExt, QueryBuilderExt};

use crate::error::{Error, ParseIssue};

verus! {

/// The `href` attribute of every anchor inside the results table of a
/// listing page, in document order, an anchor without one kept as such;
/// nothing when the page has no results table.
pub uninterp spec fn table_hrefs_of(html: Seq<char>) -> Option<Seq<Option<Seq<char>>>>;

/// Relies on soup's HTML queries: finds the element with id
/// `table-document` and collects the `href` attribute of every anchor
/// under it.
#[verifier::external_body]
fn table_hrefs(html: &str) -> (r: Option<Vec<Option<String>>>)
    ensures
        match r {
            Some(hs) => table_hrefs_of(html@) == Some(hs.deep_view()),
            None => table_hrefs_of(html@) is None,
        },
{
    let soup = soup::Soup::new(html);
    let table = match soup.attr("id", "table-document").find() {
        Some(t) => t,
        None => {
            return None;
        },
    };
    Some(table.tag("a").find_all().map(|a| a.get("href")).collect())
}

/// The `href` attribute of the pagination anchor whose label is the
/// fixed forward marker: nothing when no such anchor exists; an anchor
/// without an `href` kept as such.
pub uninterp spec fn next_href_of(html: Seq<char>) -> Option<Option<Seq<char>>>;

/// Relies on soup's HTML queries: finds the anchor with title `Weiter`
/// and reads its `href` attribute.
#[verifier::external_body]
fn next_href(html: &str) -> (r: Option<Option<String>>)
    ensures
        match r {
            Some(h) => next_href_of(html@) == Some(h.deep_view()),
            None => next_href_of(html@) is None,
        },
{
    let soup = soup::Soup::new(html);
    match soup.tag("a").attr("title", "Weiter").find() {
        Some(a) => Some(a.get("href")),
        None => None,
    }
}

/// The resolution of a possibly relative `href` against the base URL,
/// as the url crate computes it; nothing when either is malformed.
pub uninterp spec fn url_join_of(base: Seq<char>, href: Seq<char>) -> Option<Seq<char>>;

/// Relies on url::Url::parse and url::Url::join: resolves `href`
/// against the absolute base URL.
#[verifier::external_body]
fn url_join(base: &str, href: &str) -> (r: Option<String>)
    ensures
        match r {
            Some(u) => url_join_of(base@, href@) == Some(u@),
            None => url_join_of(base@, href@) is None,
        },
{
    match url::Url::parse(base) {
        Ok(b) => match b.join(href) {
            Ok(u) => Some(u.to_string()),
            Err(_) => None,
        },
        Err(_) => None,
    }
}

/// The resource links found on one archive page, resolved against the
/// listing's base URL, and the address of the next page if the page
/// names one. Transient: consumed at once by the crawler.
pub struct PageListing {
    pub urls: Vec<String>,
    pub next: Option<String>,
}

/// The mathematical reading of one parsed page.
#[verifier::ext_equal]
pub ghost struct PageListingView {
    pub urls: Seq<Seq<char>>,
    pub next: Option<Seq<char>>,
}

impl View for PageListing {
    type V = PageListingView;

    open spec fn view(&self) -> PageListingView {
        PageListingView {
            urls: self.urls.deep_view(),
            next: match self.next {
                Some(u) => Some(u@),
                None => None,
            },
        }
    }
}

/// What resolving the collected hrefs yields: each against the base in
/// order; an anchor without an href or an unresolvable href is the
/// failure of the earliest such anchor.
pub open spec fn spec_join_all(base: Seq<char>, hrefs: Seq<Option<Seq<char>>>) -> Result<
    Seq<Seq<char>>,
    Error,
>
    decreases hrefs.len(),
{
    if hrefs.len() == 0 {
        Ok(Seq::<Seq<char>>::empty())
    } else {
        match spec_join_all(base, hrefs.drop_last()) {
            Err(e) => Err(e),
            Ok(prefix) => match hrefs.last() {
                None => Err(Error::ParseError(ParseIssue::MissingHref)),
                Some(h) => match url_join_of(base, h) {
                    None => Err(Error::Url),
                    Some(u) => Ok(prefix.push(u)),
                },
            },
        }
    }
}

/// A failure among the first `i` hrefs is the failure of the whole
/// sequence.
proof fn lemma_join_err_extends(base: Seq<char>, hrefs: Seq<Option<Seq<char>>>, i: int)
    requires
        0 <= i <= hrefs.len(),
        spec_join_all(base, hrefs.subrange(0, i)) is Err,
    ensures
        spec_join_all(base, hrefs) == spec_join_all(base, hrefs.subrange(0, i)),
    decreases hrefs.len(),
{
    if i == hrefs.len() {
        assert(hrefs.subrange(0, i) =~= hrefs);
    } else {
        assert(hrefs.drop_last().subrange(0, i) =~= hrefs.subrange(0, i));
        lemma_join_err_extends(base, hrefs.drop_last(), i);
    }
}

/// What parsing one archive page yields, for every page text and base:
/// a page without a results table is malformed; every table link and
/// the pagination link, if one exists, must resolve against the base.
pub open spec fn spec_page(html: Seq<char>, base: Seq<char>) -> Result<PageListingView, Error> {
    match table_hrefs_of(html) {
        None => Err(Error::ParseError(ParseIssue::MissingTable)),
        Some(hs) => match spec_join_all(base, hs) {
            Err(e) => Err(e),
            Ok(urls) => match next_href_of(html) {
                None => Ok(PageListingView { urls, next: None }),
                Some(None) => Err(Error::ParseError(ParseIssue::MissingHref)),
                Some(Some(h)) => match url_join_of(base, h) {
                    None => Err(Error::Url),
                    Some(u) => Ok(PageListingView { urls, next: Some(u) }),
                },
            },
        },
    }
}

/// Parses one archive listing page, per `spec_page`: the resource links
/// of the results table in document order, each resolved against
/// `base`, and the resolved next-page link if the page names one.
pub fn parse_archive_page(html: &str, base: &str) -> (r: Result<PageListing, Error>)
    ensures
        match r {
            Ok(p) => spec_page(html@, base@) == Ok::<PageListingView, Error>(p@),
            Err(e) => spec_page(html@, base@) == Err::<PageListingView, Error>(e),
        },
{
    let hrefs = match table_hrefs(html) {
        Some(hs) => hs,
        None => {
            return Err(Error::ParseError(ParseIssue::MissingTable));
        },
    };
    let ghost hv = hrefs.deep_view();
    let mut urls: Vec<String> = Vec::new();
    proof {
        assert(hv.subrange(0, 0) =~= Seq::<Option<Seq<char>>>::empty());
        assert(urls.deep_view() =~= Seq::<Seq<char>>::empty());
    }
    let mut i: usize = 0;
    while i < hrefs.len()
        invariant
            0 <= i <= hrefs@.len(),
            hv == hrefs.deep_view(),
            hv.len() == hrefs@.len(),
            table_hrefs_of(html@) == Some(hv),
            spec_join_all(base@, hv.subrange(0, i as int)) == Ok::<Seq<Seq<char>>, Error>(
                urls.deep_view(),
            ),
        decreases hrefs@.len() - i,
    {
        let ghost step = hv.subrange(0, i + 1);
        proof {
            assert(step.drop_last() =~= hv.subrange(0, i as int));
            assert(step.last() == hv[i as int]);
            assert(hv[i as int] == hrefs@[i as int].deep_view());
        }
        let href = match &hrefs[i] {
            Some(h) => h,
            None => {
                proof {
                    assert(spec_join_all(base@, step) == Err::<Seq<Seq<char>>, Error>(
                        Error::ParseError(ParseIssue::MissingHref),
                    ));
                    lemma_join_err_extends(base@, hv, i + 1);
                }
                return Err(Error::ParseError(ParseIssue::MissingHref));
            },
        };
        let url = match url_join(base, href.as_str()) {
            Some(u) => u,
            None => {
                proof {
                    assert(spec_join_all(base@, step) == Err::<Seq<Seq<char>>, Error>(Error::Url));
                    lemma_join_err_extends(base@, hv, i + 1);
                }
                return Err(Error::Url);
            },
        };
        let ghost urls_prev = urls.deep_view();
        urls.push(url);
        proof {
            assert(urls.deep_view() =~= urls_prev.push(url@));
        }
        i = i + 1;
    }
    proof {
        assert(hv.subrange(0, i as int) =~= hv);
    }
    let next = match next_href(html) {
        None => None,
        Some(None) => {
            return Err(Error::ParseError(ParseIssue::MissingHref));
        },
        Some(Some(h)) => match url_join(base, h.as_str()) {
            Some(u) => Some(u),
            None => {
                return Err(Error::Url);
            },
        },
    };
    Ok(PageListing { urls, next })
}

/// One step of driving the crawler.
pub enum ListerStep {
    /// The next discovered resource URL.
    Yield(String),
    /// The crawler needs this page fetched and handed to `on_page`.
    FetchPage(String),
    /// The listing is exhausted.
    Done,
}

/// The lazy, non-restartable walk over the archive listing.
///
/// Holds the resource URLs of the current page that were not yet
/// yielded (kept last-to-first, so the back is the next to yield) and
/// the address of the page still to be fetched, if any. The driver
/// alternates `next_step` with fetching and `on_page`.
pub struct ArchiveStream {
    buffer: Vec<String>,
    pending: Option<String>,
    base: String,
}

/// The mathematical reading of the crawler's state.
#[verifier::ext_equal]
pub ghost struct ArchiveStreamView {
    /// Buffered URLs, in yield order (first to yield first).
    pub buffered: Seq<Seq<char>>,
    /// The page still to fetch, if any.
    pub pending: Option<Seq<char>>,
    /// The base all links resolve against.
    pub base: Seq<char>,
}

impl View for ArchiveStream {
    type V = ArchiveStreamView;

    closed spec fn view(&self) -> ArchiveStreamView {
        ArchiveStreamView {
            buffered: self.buffer.deep_view().reverse(),
            pending: match self.pending {
                Some(p) => Some(p@),
                None => None,
            },
            base: self.base@,
        }
    }
}

impl ArchiveStream {
    /// Starts the walk over the daily-report archive listing: nothing
    /// buffered, the archive's first page pending. Fails only if the
    /// fixed archive address does not resolve against the site root.
    pub fn new() -> (r: Result<ArchiveStream, Error>)
        ensures
            match r {
                Ok(s) => s@.buffered.len() == 0
                    && s@.base == "https://www.divi.de"@
                    && s@.pending == url_join_of(
                        "https://www.divi.de"@,
                        "divi-intensivregister-tagesreport-archiv-csv"@,
                    )
                    && s@.pending is Some,
                Err(e) => e == Error::Url && url_join_of(
                    "https://www.divi.de"@,
                    "divi-intensivregister-tagesreport-archiv-csv"@,
                ) is None,
            },
    {
        let base = "https://www.divi.de";
        match url_join(base, "divi-intensivregister-tagesreport-archiv-csv") {
            Some(start) => Ok(ArchiveStream::with_start(String::from_str(base), start)),
            None => Err(Error::Url),
        }
    }

    /// Starts a walk at a listing root: nothing buffered, the start
    /// page pending.
    pub fn with_start(base: String, start_url: String) -> (s: ArchiveStream)
        ensures
            s@.buffered == Seq::<Seq<char>>::empty(),
            s@.pending == Some(start_url@),
            s@.base == base@,
    {
        let s = ArchiveStream { buffer: Vec::new(), pending: Some(start_url), base };
        proof {
            assert(s@.buffered =~= Seq::<Seq<char>>::empty());
        }
        s
    }

    /// Decides the next move: yield the first buffered URL, else ask
    /// for the pending page, else finish.
    pub fn next_step(&mut self) -> (s: ListerStep)
        ensures
            old(self)@.buffered.len() > 0 ==> (s matches ListerStep::Yield(u)
                && u@ == old(self)@.buffered[0]
                && final(self)@.buffered == old(self)@.buffered.drop_first()
                && final(self)@.pending == old(self)@.pending
                && final(self)@.base == old(self)@.base),
            (old(self)@.buffered.len() == 0 && old(self)@.pending is Some) ==> (
                s matches ListerStep::FetchPage(u) && Some(u@) == old(self)@.pending
                && final(self)@ == old(self)@),
            (old(self)@.buffered.len() == 0 && old(self)@.pending is None) ==> (
                s matches ListerStep::Done && final(self)@ == old(self)@),
    {
        let ghost before = self.buffer.deep_view();
        match self.buffer.pop() {
            Some(u) => {
                proof {
                    assert(before.len() > 0);
                    assert(self.buffer.deep_view() =~= before.drop_last());
                    assert(before.reverse()[0] == before.last());
                    assert(self.buffer.deep_view().reverse() =~= before.reverse().drop_first());
                }
                ListerStep::Yield(u)
            },
            None => {
                proof {
                    assert(before.len() == 0);
                    assert(before.reverse().len() == 0);
                    assert(self.buffer.deep_view() =~= before);
                    assert(self@ =~= old(self)@);
                }
                match &self.pending {
                    Some(p) => ListerStep::FetchPage(p.clone()),
                    None => ListerStep::Done,
                }
            },
        }
    }

    /// Installs one fetched page: parses it against the crawler's base,
    /// buffers its resource links in discovery order, and remembers the
    /// next page address if one was named. A malformed page aborts the
    /// walk with that page's failure and changes nothing.
    pub fn on_page(&mut self, html: &str) -> (r: Result<(), Error>)
        ensures
            match r {
                Ok(()) => (spec_page(html@, old(self)@.base) matches Ok(p)
                    && final(self)@.buffered == p.urls
                    && final(self)@.pending == p.next
                    && final(self)@.base == old(self)@.base),
                Err(e) => spec_page(html@, old(self)@.base) == Err::<PageListingView, Error>(e)
                    && final(self)@ == old(self)@,
            },
    {
        let page = match parse_archive_page(html, self.base.as_str()) {
            Ok(p) => p,
            Err(e) => {
                return Err(e);
            },
        };
        let ghost pv = page@;
        let mut urls = page.urls;
        reverse_in_place(&mut urls);
        proof {
            assert(urls.deep_view().reverse() =~= pv.urls);
        }
        self.buffer = urls;
        self.pending = page.next;
        Ok(())
    }
}

/// Reverses a vector of strings in place.
fn reverse_in_place(v: &mut Vec<String>)
    ensures
        final(v).deep_view() == old(v).deep_view().reverse(),
{
    let ghost orig = old(v).deep_view();
    let n = v.len();
    let mut out: Vec<String> = Vec::new();
    let mut i: usize = n;
    while i > 0
        invariant
            0 <= i <= n,
            n == v@.len(),
            v.deep_view() == orig,
            out.deep_view().len() == n - i,
            forall|j: int| 0 <= j < n - i ==> out.deep_view()[j] == orig[n - 1 - j],
        decreases i,
    {
        let ghost out_prev = out.deep_view();
        i = i - 1;
        out.push(v[i].clone());
        proof {
            assert(out.deep_view() =~= out_prev.push(orig[i as int]));
        }
    }
    proof {
        assert(out.deep_view() =~= orig.reverse());
    }
    *v = out;
}

} // verus!
