//! Last-page discovery: reads the page numbers referenced by the pagination
//! links of the first page and takes the largest.
//!
//! A link counts only if its target names the listing table's path and its
//! query carries a page parameter. The digits immediately after the page
//! parameter's key are read as the page number; a malformed fragment (an
//! empty digit run, or one whose value does not fit) is silently skipped,
//! since pagination markup may contain decorative or partial links. With no
//! pagination link at all the dataset is a single page.

use vstd::prelude::*;
use crate::text::contains_seq;
use crate::text::contains_substr;
use crate::text::digit_run_len;
use crate::text::digits_val;
use crate::text::find_substr;
use crate::text::match_at;
use crate::text::parse_digit_run;

verus! {

/// Path that a pagination link must reference to count.
pub open spec fn table_path() -> Seq<char> {
    "validators/included_deposits"@
}

/// Key of the page-number query parameter.
pub open spec fn page_key() -> Seq<char> {
    "p="@
}

/// `pat` occurs at `i` and nowhere earlier in `s`.
pub open spec fn first_match_at(s: Seq<char>, pat: Seq<char>, i: int) -> bool {
    match_at(s, pat, i) && forall|j: int| 0 <= j < i ==> !match_at(s, pat, j)
}

/// Value of the digit run of `s` starting at `from`: the digits immediately
/// from that position read as a decimal number, if the run is non-empty and
/// the value fits.
pub open spec fn spec_run_value(s: Seq<char>, from: int) -> Option<u32> {
    let l = digit_run_len(s, from);
    if l > 0 && digits_val(s.subrange(from, from + l)) <= u32::MAX {
        Some(digits_val(s.subrange(from, from + l)) as u32)
    } else {
        None
    }
}

/// The page number a hyperlink target refers to: for a link naming the
/// table's path and carrying a page parameter, the value of the digit run
/// right after the first occurrence of the parameter's key; `None` for any
/// other link or a malformed fragment.
pub open spec fn spec_page_param(href: Seq<char>) -> Option<u32> {
    if contains_seq(href, table_path()) && contains_seq(href, page_key()) {
        let i = choose|i: int| first_match_at(href, page_key(), i);
        spec_run_value(href, i + 2)
    } else {
        None
    }
}

/// A first occurrence is unique.
proof fn lemma_first_match_unique(s: Seq<char>, pat: Seq<char>, i: int, j: int)
    requires
        first_match_at(s, pat, i),
        first_match_at(s, pat, j),
    ensures
        i == j,
{
}

/// Reads the page number referenced by one hyperlink target, if any.
pub fn page_param_of(href: &str) -> (r: Option<u32>)
    ensures
        r == spec_page_param(href@),
{
    if !contains_substr(href, "validators/included_deposits") {
        return None;
    }
    match find_substr(href, "p=") {
        None => None,
        Some(i) => {
            proof {
                reveal_strlit("p=");
                assert(first_match_at(href@, page_key(), i as int));
                assert(contains_seq(href@, page_key()));
                let w = choose|w: int| first_match_at(href@, page_key(), w);
                lemma_first_match_unique(href@, page_key(), i as int, w);
            }
            parse_digit_run(href, i + 2)
        },
    }
}

/// The largest page number referenced by a list of hyperlink targets, and at
/// least one: with no pagination link the dataset is a single page.
pub open spec fn spec_last_page(hrefs: Seq<Seq<char>>) -> u32
    decreases hrefs.len(),
{
    if hrefs.len() == 0 {
        1u32
    } else {
        let rest = spec_last_page(hrefs.drop_last());
        match spec_page_param(hrefs.last()) {
            Some(v) => if v > rest {
                v
            } else {
                rest
            },
            None => rest,
        }
    }
}

/// The views of a list of hyperlink targets.
pub open spec fn href_views(hrefs: Seq<String>) -> Seq<Seq<char>> {
    hrefs.map_values(|h: String| h@)
}

/// Scans a list of hyperlink targets and returns the largest page number
/// they reference, or one if none does.
pub fn last_page_from_hrefs(hrefs: &Vec<String>) -> (r: u32)
    ensures
        r == spec_last_page(href_views(hrefs@)),
        r >= 1,
{
    let mut last: u32 = 1;
    proof {
        assert(href_views(hrefs@).take(0) =~= Seq::<Seq<char>>::empty());
    }
    let n = hrefs.len();
    let mut i: usize = 0;
    while i < n
        invariant
            n == hrefs@.len(),
            0 <= i <= n,
            last == spec_last_page(href_views(hrefs@).take(i as int)),
            last >= 1,
        decreases n - i,
    {
        match page_param_of(hrefs[i].as_str()) {
            Some(p) => {
                if p > last {
                    last = p;
                }
            },
            None => {},
        }
        proof {
            let hv = href_views(hrefs@);
            assert(hv.take(i + 1).drop_last() =~= hv.take(i as int));
            assert(hv.take(i + 1).last() == hv[i as int]);
        }
        i = i + 1;
    }
    proof {
        assert(href_views(hrefs@).take(n as int) =~= href_views(hrefs@));
    }
    last
}

} // verus!
