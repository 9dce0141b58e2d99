use divi_sync::archive::{parse_archive_page, ArchiveStream, ListerStep};
use divi_sync::error::{Error, ParseIssue};

const PAGE_ONE: &str = "<html><body>\
<table id=\"table-document\">\
<tr><td><a href=\"/files/a-2021-03-04-09-15.csv\">a</a></td></tr>\
<tr><td><a href=\"/files/b-2021-03-03-09-15.csv\">b</a></td></tr>\
<tr><td><a href=\"/files/c-2021-03-02-09-15.csv\">c</a></td></tr>\
</table>\
<a title=\"Weiter\" href=\"/archive?page=2\">next</a>\
</body></html>";

const PAGE_TWO: &str = "<html><body>\
<table id=\"table-document\">\
<tr><td><a href=\"/files/d-2021-03-01-09-15.csv\">d</a></td></tr>\
<tr><td><a href=\"/files/e-2021-02-28-09-15.csv\">e</a></td></tr>\
</table>\
</body></html>";

fn lister() -> ArchiveStream {
    ArchiveStream::with_start(
        String::from("https://example.org"),
        String::from("https://example.org/archive"),
    )
}

#[test]
fn two_page_listing_yields_five_urls_in_order() {
    let mut stream = lister();
    let mut yielded: Vec<String> = Vec::new();
    let mut pages: usize = 0;
    loop {
        match stream.next_step() {
            ListerStep::Yield(u) => yielded.push(u),
            ListerStep::FetchPage(url) => {
                let html = if pages == 0 {
                    assert_eq!(url, "https://example.org/archive");
                    PAGE_ONE
                } else {
                    assert_eq!(url, "https://example.org/archive?page=2");
                    PAGE_TWO
                };
                pages += 1usize;
                stream.on_page(html).unwrap();
            }
            ListerStep::Done => break,
        }
    }
    assert_eq!(pages, 2);
    assert_eq!(
        yielded,
        vec![
            "https://example.org/files/a-2021-03-04-09-15.csv",
            "https://example.org/files/b-2021-03-03-09-15.csv",
            "https://example.org/files/c-2021-03-02-09-15.csv",
            "https://example.org/files/d-2021-03-01-09-15.csv",
            "https://example.org/files/e-2021-02-28-09-15.csv",
        ]
    );
}

#[test]
fn page_without_results_table_is_malformed() {
    let mut stream = lister();
    let r = stream.on_page("<html><body><p>nothing here</p></body></html>");
    assert_eq!(r, Err(Error::ParseError(ParseIssue::MissingTable)));
}

#[test]
fn anchor_without_href_is_malformed() {
    let html = "<html><body><table id=\"table-document\">\
<tr><td><a name=\"x\">no target</a></td></tr></table></body></html>";
    let r = parse_archive_page(html, "https://example.org");
    assert_eq!(r.err(), Some(Error::ParseError(ParseIssue::MissingHref)));
}

#[test]
fn links_resolve_against_base() {
    let html = "<html><body><table id=\"table-document\">\
<tr><td><a href=\"relative.csv\">r</a></td>\
<td><a href=\"https://other.example/abs.csv\">s</a></td></tr>\
</table></body></html>";
    let page = parse_archive_page(html, "https://example.org/archive/").unwrap();
    assert_eq!(
        page.urls,
        vec![
            "https://example.org/archive/relative.csv",
            "https://other.example/abs.csv",
        ]
    );
    assert!(page.next.is_none());
}

#[test]
fn unresolvable_link_is_a_url_error() {
    let html = "<html><body><table id=\"table-document\">\
<tr><td><a href=\"relative.csv\">r</a></td></tr></table></body></html>";
    let r = parse_archive_page(html, "not a base url");
    assert_eq!(r.err(), Some(Error::Url));
}

#[test]
fn archive_walk_starts_at_fixed_root() {
    let mut stream = ArchiveStream::new().unwrap();
    match stream.next_step() {
        ListerStep::FetchPage(url) => {
            assert_eq!(url, "https://www.divi.de/divi-intensivregister-tagesreport-archiv-csv");
        }
        _ => panic!("expected a page fetch first"),
    }
}
