//! Scans paginated validator listing pages of a blockchain explorer: builds
//! page URLs, discovers the last page from pagination links, extracts rows
//! from the listing table, classifies rows by status text and color
//! indicators, and merges and deduplicates the hits of a whole scan.

use vstd::prelude::*;

pub mod dedup;
pub mod dom;
pub mod pagination;
pub mod row;
pub mod scan;
pub mod text;
pub mod url;

verus! {

/// Classification tag attached to a hit, derived from the color indicator
/// found in the row's status cell.
#[derive(Debug, Clone, Copy, PartialEq, Eq, Structural)]
pub enum IconColor {
    Red,
    Yellow,
    Green,
}

/// One flagged validator row: where it was found, the index and public key
/// read from their fixed columns, and the color of the indicator that
/// matched.
#[derive(Debug, Clone)]
pub struct ValidatorHit {
    /// Page the row was read from.
    pub page: u32,
    /// Exact URL the page was fetched from.
    pub url: String,
    /// Validator index as displayed, or a sentinel if the column is absent.
    pub index: String,
    /// Validator public key as displayed, or a sentinel if the column is
    /// absent.
    pub public_key: String,
    /// Color of the matched indicator.
    pub color: IconColor,
}

/// Mathematical value of a `ValidatorHit`: the same fields with the strings
/// as character sequences.
pub struct HitView {
    pub page: u32,
    pub url: Seq<char>,
    pub index: Seq<char>,
    pub public_key: Seq<char>,
    pub color: IconColor,
}

impl View for ValidatorHit {
    type V = HitView;

    open spec fn view(&self) -> HitView {
        HitView {
            page: self.page,
            url: self.url@,
            index: self.index@,
            public_key: self.public_key@,
            color: self.color,
        }
    }
}

/// The views of a sequence of hits.
pub open spec fn hit_views(hits: Seq<ValidatorHit>) -> Seq<HitView> {
    hits.map_values(|h: ValidatorHit| h@)
}

/// A field-for-field copy of a hit.
pub fn clone_hit(h: &ValidatorHit) -> (r: ValidatorHit)
    ensures
        r@ == h@,
{
    ValidatorHit {
        page: h.page,
        url: h.url.clone(),
        index: h.index.clone(),
        public_key: h.public_key.clone(),
        color: h.color,
    }
}

/// Errors of a single page's fetch-and-extract step. A page's failure never
/// aborts a whole scan: the scan records the error and goes on.
#[derive(Debug, Clone, Copy, PartialEq, Eq, Structural)]
pub enum ScanError {
    /// The page could not be retrieved: network failure, timeout, or a
    /// non-success HTTP status.
    Fetch { page: u32 },
    /// The page body could not be parsed as HTML.
    Parse { page: u32 },
}

} // verus!
