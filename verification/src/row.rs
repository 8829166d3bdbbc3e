//! Row classification: turns one table row, given as the text of its cells
//! and the indicator flags of its status cell, into the hits it yields.
//!
//! A row yields a hit only if the text of its status cell (the last cell)
//! contains the marker `"active"` up to ASCII case, and the status cell
//! carries a recognized color indicator. A row carrying both a danger and a
//! warning indicator yields two hits, one `Red` and one `Yellow`, sharing the
//! same index and public key. The index and public key are read from their
//! fixed columns and fall back to sentinel strings when the column is absent:
//! a data-quality gap, not an error.

use vstd::prelude::*;
use crate::HitView;
use crate::IconColor;
use crate::ValidatorHit;
use crate::hit_views;
use crate::text::contains_ci;
use crate::text::contains_substr_ci;
use crate::text::trim_spec;
use crate::text::trim_text;

verus! {

/// Column of the validator index, 0-based, in the fixed 10-column layout.
pub const INDEX_COL: usize = 2;

/// Column of the validator public key, 0-based, in the fixed 10-column
/// layout.
pub const PUBKEY_COL: usize = 4;

/// One table row as plain data: the text of its cells in document order, and
/// whether its status cell (the last cell) carries a danger or a warning
/// indicator.
pub struct RowModel {
    /// Full text of each cell, in document order.
    pub cells: Vec<String>,
    /// The status cell has a descendant matching the danger indicator.
    pub danger: bool,
    /// The status cell has a descendant matching the warning indicator.
    pub warning: bool,
}

/// Mathematical value of a `RowModel`.
pub struct RowView {
    pub cells: Seq<Seq<char>>,
    pub danger: bool,
    pub warning: bool,
}

impl View for RowModel {
    type V = RowView;

    open spec fn view(&self) -> RowView {
        RowView {
            cells: self.cells@.map_values(|c: String| c@),
            danger: self.danger,
            warning: self.warning,
        }
    }
}

/// The views of a sequence of rows.
pub open spec fn row_views(rows: Seq<RowModel>) -> Seq<RowView> {
    rows.map_values(|r: RowModel| r@)
}

/// The marker that must occur, up to ASCII case, in a status cell's text for
/// the row to be a candidate.
pub open spec fn active_marker() -> Seq<char> {
    "active"@
}

/// Sentinel used when the index column is absent.
pub open spec fn unknown_index() -> Seq<char> {
    "UNKNOWN_INDEX"@
}

/// Sentinel used when the public-key column is absent.
pub open spec fn unknown_public_key() -> Seq<char> {
    "UNKNOWN_PUBLIC_KEY"@
}

/// The row is a candidate: it has at least one cell, and its status cell's
/// text contains the marker `"active"` up to ASCII case.
pub open spec fn row_is_candidate(row: RowView) -> bool {
    row.cells.len() > 0 && contains_ci(row.cells.last(), active_marker())
}

/// Index field of every hit of the row: the trimmed text of the index
/// column, or the sentinel if the column is absent.
pub open spec fn spec_row_index(row: RowView) -> Seq<char> {
    if row.cells.len() > INDEX_COL {
        trim_spec(row.cells[INDEX_COL as int])
    } else {
        unknown_index()
    }
}

/// Public-key field of every hit of the row: the trimmed text of the
/// public-key column, or the sentinel if the column is absent.
pub open spec fn spec_row_public_key(row: RowView) -> Seq<char> {
    if row.cells.len() > PUBKEY_COL {
        trim_spec(row.cells[PUBKEY_COL as int])
    } else {
        unknown_public_key()
    }
}

/// The hit a candidate row yields for one matched color.
pub open spec fn spec_hit(page: u32, url: Seq<char>, row: RowView, color: IconColor) -> HitView {
    HitView {
        page: page,
        url: url,
        index: spec_row_index(row),
        public_key: spec_row_public_key(row),
        color: color,
    }
}

/// All hits of one row: none unless the row is a candidate; one `Red` hit if
/// the danger indicator is present, then one `Yellow` hit if the warning
/// indicator is present.
pub open spec fn spec_row_hits(page: u32, url: Seq<char>, row: RowView) -> Seq<HitView> {
    if !row_is_candidate(row) {
        Seq::empty()
    } else {
        (if row.danger {
            seq![spec_hit(page, url, row, IconColor::Red)]
        } else {
            Seq::empty()
        }) + (if row.warning {
            seq![spec_hit(page, url, row, IconColor::Yellow)]
        } else {
            Seq::empty()
        })
    }
}

/// All hits of a sequence of rows, in row order.
pub open spec fn spec_rows_hits(page: u32, url: Seq<char>, rows: Seq<RowView>) -> Seq<HitView>
    decreases rows.len(),
{
    if rows.len() == 0 {
        Seq::empty()
    } else {
        spec_rows_hits(page, url, rows.drop_last()) + spec_row_hits(page, url, rows.last())
    }
}

/// Classifies one row and returns its hits.
pub fn row_hits(page: u32, url: &String, row: &RowModel) -> (hits: Vec<ValidatorHit>)
    ensures
        hit_views(hits@) == spec_row_hits(page, url@, row@),
{
    let mut hits: Vec<ValidatorHit> = Vec::new();
    proof {
        assert(hit_views(hits@) =~= Seq::<HitView>::empty());
    }
    let n = row.cells.len();
    if n == 0 {
        return hits;
    }
    let status = &row.cells[n - 1];
    proof {
        assert(row@.cells.last() == status@);
    }
    if !contains_substr_ci(status.as_str(), "active") {
        return hits;
    }
    if !row.danger && !row.warning {
        proof {
            assert(spec_row_hits(page, url@, row@) =~= Seq::<HitView>::empty());
        }
        return hits;
    }
    let index = if n > INDEX_COL {
        trim_text(row.cells[INDEX_COL].as_str())
    } else {
        String::from_str("UNKNOWN_INDEX")
    };
    let public_key = if n > PUBKEY_COL {
        trim_text(row.cells[PUBKEY_COL].as_str())
    } else {
        String::from_str("UNKNOWN_PUBLIC_KEY")
    };
    if row.danger {
        hits.push(
            ValidatorHit {
                page: page,
                url: url.clone(),
                index: index.clone(),
                public_key: public_key.clone(),
                color: IconColor::Red,
            },
        );
    }
    if row.warning {
        hits.push(
            ValidatorHit {
                page: page,
                url: url.clone(),
                index: index.clone(),
                public_key: public_key.clone(),
                color: IconColor::Yellow,
            },
        );
    }
    proof {
        assert(hit_views(hits@) =~= spec_row_hits(page, url@, row@));
    }
    hits
}

/// Classifies every row of a page and returns all hits, in row order.
pub fn hits_of_rows(page: u32, url: &String, rows: &Vec<RowModel>) -> (hits: Vec<ValidatorHit>)
    ensures
        hit_views(hits@) == spec_rows_hits(page, url@, row_views(rows@)),
{
    let mut hits: Vec<ValidatorHit> = Vec::new();
    proof {
        assert(hit_views(hits@) =~= Seq::<HitView>::empty());
        assert(row_views(rows@).take(0) =~= Seq::<RowView>::empty());
    }
    let n = rows.len();
    let mut i: usize = 0;
    while i < n
        invariant
            n == rows@.len(),
            0 <= i <= n,
            hit_views(hits@) == spec_rows_hits(page, url@, row_views(rows@).take(i as int)),
        decreases n - i,
    {
        let mut row_out = row_hits(page, url, &rows[i]);
        let ghost old_hits = hits@;
        let ghost page_part = row_out@;
        hits.append(&mut row_out);
        proof {
            let rv = row_views(rows@);
            assert(rv.take(i + 1).drop_last() =~= rv.take(i as int));
            assert(rv.take(i + 1).last() == rv[i as int]);
            assert(hit_views(hits@) =~= hit_views(old_hits) + hit_views(page_part));
        }
        i = i + 1;
    }
    proof {
        assert(row_views(rows@).take(n as int) =~= row_views(rows@));
    }
    hits
}

/// Every hit of a scanned page carries the page and URL it was read from,
/// and one of the two recognized colors.
pub proof fn lemma_rows_hits_wellformed(page: u32, url: Seq<char>, rows: Seq<RowView>)
    ensures
        forall|k: int| 0 <= k < spec_rows_hits(page, url, rows).len() ==> {
            let h = #[trigger] spec_rows_hits(page, url, rows)[k];
            h.page == page && h.url == url && (h.color == IconColor::Red || h.color
                == IconColor::Yellow)
        },
    decreases rows.len(),
{
    if rows.len() > 0 {
        lemma_rows_hits_wellformed(page, url, rows.drop_last());
    }
}

/// A row yields a hit only if it is a candidate (its status cell contains
/// the marker `"active"` up to ASCII case) and a recognized indicator is
/// present.
pub proof fn lemma_hits_only_from_candidates(page: u32, url: Seq<char>, row: RowView)
    ensures
        spec_row_hits(page, url, row).len() > 0 ==> row_is_candidate(row) && (row.danger
            || row.warning),
{
}

/// A row whose status cell lacks the marker `"active"` (up to ASCII case)
/// yields no hit, whatever indicators are present.
pub proof fn lemma_inactive_row_no_hits(page: u32, url: Seq<char>, row: RowView)
    requires
        row.cells.len() == 0 || !contains_ci(row.cells.last(), active_marker()),
    ensures
        spec_row_hits(page, url, row) == Seq::<HitView>::empty(),
{
}

/// A row with the marker `"active"` present but no recognized color indicator
/// yields no hit.
pub proof fn lemma_no_indicator_no_hits(page: u32, url: Seq<char>, row: RowView)
    requires
        row.cells.len() > 0,
        contains_ci(row.cells.last(), active_marker()),
        !row.danger,
        !row.warning,
    ensures
        spec_row_hits(page, url, row) == Seq::<HitView>::empty(),
{
    assert(spec_row_hits(page, url, row) =~= Seq::<HitView>::empty());
}

/// A row with the marker `"active"` present and both a danger and a warning
/// indicator yields exactly two hits: one `Red`, then one `Yellow`, sharing
/// the same index and public key.
pub proof fn lemma_both_indicators_two_hits(page: u32, url: Seq<char>, row: RowView)
    requires
        row.cells.len() > 0,
        contains_ci(row.cells.last(), active_marker()),
        row.danger,
        row.warning,
    ensures
        spec_row_hits(page, url, row).len() == 2,
        spec_row_hits(page, url, row)[0].color == IconColor::Red,
        spec_row_hits(page, url, row)[1].color == IconColor::Yellow,
        spec_row_hits(page, url, row)[0].index == spec_row_hits(page, url, row)[1].index,
        spec_row_hits(page, url, row)[0].public_key == spec_row_hits(
            page,
            url,
            row,
        )[1].public_key,
{
}

} // verus!
