//! The HTML side of the scan: parsing a fetched page body and reading the
//! listing table and the pagination links out of the document tree.
//!
//! The document tree belongs to the `scraper` crate. What it yields for a
//! fixed document text and fixed selector text is a function of those texts
//! alone, so the two queries the scan makes — the listing rows, and the
//! hyperlink targets — are named by uninterpreted spec functions that two
//! trusted extractors apply. The selector text itself is configuration of
//! this library and stands in verified code, in one place each. Everything
//! downstream of the extractors — classification, the last-page maximum — is
//! verified against the exact specifications of `row` and `pagination`.

use scraper::Html;
use scraper::Selector;
use vstd::prelude::*;
use crate::ValidatorHit;
use crate::IconColor;
use crate::hit_views;
use crate::pagination::href_views;
use crate::pagination::last_page_from_hrefs;
use crate::pagination::spec_last_page;
use crate::row::RowModel;
use crate::row::RowView;
use crate::row::hits_of_rows;
use crate::row::lemma_rows_hits_wellformed;
use crate::row::row_views;
use crate::row::spec_rows_hits;
use crate::url::page_url;
use crate::url::spec_page_url;

verus! {

/// The rows that the document tree of `html` yields for the given selector
/// texts: for each element matching `row_css`, the text of its `cell_css`
/// descendants in document order, and whether its last such descendant has a
/// descendant matching `danger_css` or `warning_css`. A function of the
/// texts alone.
pub uninterp spec fn spec_doc_rows(
    html: Seq<char>,
    row_css: Seq<char>,
    cell_css: Seq<char>,
    danger_css: Seq<char>,
    warning_css: Seq<char>,
) -> Seq<RowView>;

/// The values of the `attr` attribute of the elements of the document tree
/// of `html` matching `link_css`, in document order. A function of the texts
/// alone.
pub uninterp spec fn spec_doc_hrefs(
    html: Seq<char>,
    link_css: Seq<char>,
    attr: Seq<char>,
) -> Seq<Seq<char>>;

/// Relies on scraper's Html::parse_document (lenient, never fails hard),
/// Selector::parse, select and ElementRef::text: what a fixed document text
/// yields for fixed selector texts depends on those texts alone. Each row's
/// indicator flags are read from its last cell; a row without cells has
/// none.
#[verifier::external_body]
fn doc_rows(
    html: &str,
    row_css: &str,
    cell_css: &str,
    danger_css: &str,
    warning_css: &str,
) -> (rows: Vec<RowModel>)
    ensures
        row_views(rows@) == spec_doc_rows(html@, row_css@, cell_css@, danger_css@, warning_css@),
{
    let mut rows: Vec<RowModel> = Vec::new();
    let doc = Html::parse_document(html);
    let sels = (Selector::parse(row_css), Selector::parse(cell_css), Selector::parse(danger_css), Selector::parse(warning_css));
    if let (Ok(tr), Ok(td), Ok(dg), Ok(wn)) = sels {
        for row in doc.select(&tr) {
            let mut r = RowModel { cells: Vec::new(), danger: false, warning: false };
            for cell in row.select(&td) {
                r.cells.push(cell.text().collect());
                r.danger = cell.select(&dg).next().is_some();
                r.warning = cell.select(&wn).next().is_some();
            }
            rows.push(r);
        }
    }
    rows
}

/// Relies on scraper's Html::parse_document, Selector::parse, select and
/// ElementRef::attr: the attribute values that a fixed document text yields
/// for fixed selector and attribute texts depend on those texts alone.
#[verifier::external_body]
fn doc_hrefs(html: &str, link_css: &str, attr: &str) -> (hrefs: Vec<String>)
    ensures
        href_views(hrefs@) == spec_doc_hrefs(html@, link_css@, attr@),
{
    let mut hrefs: Vec<String> = Vec::new();
    let doc = Html::parse_document(html);
    if let Ok(sel) = Selector::parse(link_css) {
        for el in doc.select(&sel) {
            if let Some(h) = el.attr(attr) {
                hrefs.push(h.to_owned());
            }
        }
    }
    hrefs
}

/// The listing rows of a page body, under this library's fixed selectors:
/// the rows of a table body, their cells, and the danger and warning
/// indicators of each row's status cell.
pub open spec fn spec_page_rows(html: Seq<char>) -> Seq<RowView> {
    spec_doc_rows(html, "table tbody tr"@, "td"@, ".text-danger"@, ".text-warning"@)
}

/// The hyperlink targets of a page body: the `href` values of its anchors.
pub open spec fn spec_page_hrefs(html: Seq<char>) -> Seq<Seq<char>> {
    spec_doc_hrefs(html, "a[href]"@, "href"@)
}

/// Reads the listing table's rows out of a page body. The selector texts —
/// the table layout and the recognized indicator classes — are fixed here,
/// in one place.
fn rows_of_page(html: &str) -> (rows: Vec<RowModel>)
    ensures
        row_views(rows@) == spec_page_rows(html@),
{
    doc_rows(html, "table tbody tr", "td", ".text-danger", ".text-warning")
}

/// Reads the hyperlink targets out of a page body.
fn hrefs_of_page(html: &str) -> (hrefs: Vec<String>)
    ensures
        href_views(hrefs@) == spec_page_hrefs(html@),
{
    doc_hrefs(html, "a[href]", "href")
}

/// Parses one fetched page body and returns the hits of its rows: the rows
/// of the body, classified exactly as `spec_rows_hits` says. A pure function
/// of the page number and the body. Every hit carries the page number and
/// the page's URL, and one of the two recognized colors.
pub fn extract_page_hits(page: u32, html: &str) -> (hits: Vec<ValidatorHit>)
    requires
        1 <= page,
    ensures
        hit_views(hits@) == spec_rows_hits(page, spec_page_url(page), spec_page_rows(html@)),
        forall|k: int| 0 <= k < hits@.len() ==> {
            let h = #[trigger] hit_views(hits@)[k];
            h.page == page && h.url == spec_page_url(page) && (h.color == IconColor::Red
                || h.color == IconColor::Yellow)
        },
{
    let url = page_url(page);
    let rows = rows_of_page(html);
    let hits = hits_of_rows(page, &url, &rows);
    proof {
        lemma_rows_hits_wellformed(page, spec_page_url(page), spec_page_rows(html@));
    }
    hits
}

/// Parses the first page's body and returns the largest page number its
/// pagination links reference: the hyperlink targets of the body, folded
/// exactly as `spec_last_page` says. A pure function of the body, and at
/// least one.
pub fn last_page_in_document(html: &str) -> (r: u32)
    ensures
        r == spec_last_page(spec_page_hrefs(html@)),
        r >= 1,
{
    let hrefs = hrefs_of_page(html);
    last_page_from_hrefs(&hrefs)
}

} // verus!
