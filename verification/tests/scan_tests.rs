use validator_scan::IconColor;
use validator_scan::ScanError;
use validator_scan::ValidatorHit;
use validator_scan::dedup::dedup_hits;
use validator_scan::scan::SeqScan;
use validator_scan::scan::finalize_hits;
use validator_scan::scan::merge_page_results;
use validator_scan::scan::plan_batches;

fn hit(page: u32, public_key: &str, color: IconColor) -> ValidatorHit {
    ValidatorHit {
        page,
        url: format!("page-{page}"),
        index: "1".to_string(),
        public_key: public_key.to_string(),
        color,
    }
}

fn keys(hits: &[ValidatorHit]) -> Vec<(String, IconColor)> {
    hits.iter().map(|h| (h.public_key.clone(), h.color)).collect()
}

#[test]
fn batches_cover_range_in_order() {
    let batches = plan_batches(1, 7, 3);
    let views: Vec<Vec<u32>> = batches;
    assert_eq!(views, vec![vec![1, 2, 3], vec![4, 5, 6], vec![7]]);
}

#[test]
fn single_page_range_is_one_batch() {
    assert_eq!(plan_batches(2, 2, 5), vec![vec![2]]);
}

#[test]
fn exact_multiple_range_fills_batches() {
    assert_eq!(plan_batches(3, 6, 2), vec![vec![3, 4], vec![5, 6]]);
}

#[test]
fn inverted_range_plans_no_request() {
    let batches = plan_batches(5, 3, 2);
    assert_eq!(batches.len(), 0);
}

#[test]
fn merge_keeps_successes_and_drops_failures() {
    let results = vec![
        Ok(vec![hit(1, "0xaaa", IconColor::Red)]),
        Err(ScanError::Fetch { page: 2 }),
        Ok(vec![hit(3, "0xbbb", IconColor::Yellow)]),
        Err(ScanError::Parse { page: 4 }),
        Ok(vec![]),
    ];
    let all = merge_page_results(&results);
    assert_eq!(keys(&all), vec![
        ("0xaaa".to_string(), IconColor::Red),
        ("0xbbb".to_string(), IconColor::Yellow),
    ]);
}

#[test]
fn dedup_keeps_first_hit_per_key() {
    let hits = vec![
        hit(1, "0xaaa", IconColor::Red),
        hit(1, "0xaaa", IconColor::Yellow),
        hit(2, "0xaaa", IconColor::Red),
        hit(2, "0xbbb", IconColor::Red),
        hit(3, "0xbbb", IconColor::Red),
    ];
    let deduped = dedup_hits(hits);
    assert_eq!(keys(&deduped), vec![
        ("0xaaa".to_string(), IconColor::Red),
        ("0xaaa".to_string(), IconColor::Yellow),
        ("0xbbb".to_string(), IconColor::Red),
    ]);
    assert_eq!(deduped[0].page, 1);
    assert_eq!(deduped[2].page, 2);
}

#[test]
fn dedup_twice_equals_dedup_once() {
    let hits = vec![
        hit(1, "0xaaa", IconColor::Red),
        hit(2, "0xaaa", IconColor::Red),
        hit(2, "0xbbb", IconColor::Yellow),
    ];
    let once = dedup_hits(hits.clone());
    let twice = dedup_hits(once.clone());
    assert_eq!(keys(&once), keys(&twice));
    assert_eq!(once.len(), twice.len());
    for (a, b) in once.iter().zip(twice.iter()) {
        assert_eq!(a.page, b.page);
        assert_eq!(a.url, b.url);
        assert_eq!(a.index, b.index);
    }
}

#[test]
fn dedup_output_keys_are_distinct() {
    let hits = vec![
        hit(1, "0xaaa", IconColor::Red),
        hit(1, "0xaaa", IconColor::Red),
        hit(1, "0xbbb", IconColor::Red),
        hit(1, "0xbbb", IconColor::Yellow),
        hit(2, "0xbbb", IconColor::Yellow),
    ];
    let deduped = dedup_hits(hits);
    let ks = keys(&deduped);
    for i in 0..ks.len() {
        for j in (i + 1)..ks.len() {
            assert_ne!(ks[i], ks[j]);
        }
    }
}

#[test]
fn finalize_merges_then_dedups() {
    let results = vec![
        Ok(vec![hit(1, "0xaaa", IconColor::Red), hit(1, "0xbbb", IconColor::Red)]),
        Err(ScanError::Fetch { page: 2 }),
        Ok(vec![hit(3, "0xaaa", IconColor::Red), hit(3, "0xccc", IconColor::Yellow)]),
    ];
    let hits = finalize_hits(&results);
    assert_eq!(keys(&hits), vec![
        ("0xaaa".to_string(), IconColor::Red),
        ("0xbbb".to_string(), IconColor::Red),
        ("0xccc".to_string(), IconColor::Yellow),
    ]);
    assert_eq!(hits[0].page, 1);
}

#[test]
fn sequential_scan_stops_at_first_empty_page() {
    // Data-row counts of pages 1..: two non-empty pages, then the dataset end.
    let rows_per_page = [3u32, 2, 0, 5, 5];
    let mut scan = SeqScan::new(1, 10);
    let mut processed: Vec<u32> = Vec::new();
    while let Some(page) = scan.current_request() {
        processed.push(page);
        scan.record_page(rows_per_page[(page - 1) as usize]);
    }
    assert_eq!(processed, vec![1, 2, 3]);
}

#[test]
fn sequential_scan_honors_range_end() {
    let mut scan = SeqScan::new(1, 2);
    let mut processed: Vec<u32> = Vec::new();
    while let Some(page) = scan.current_request() {
        processed.push(page);
        scan.record_page(4);
    }
    assert_eq!(processed, vec![1, 2]);
}

#[test]
fn sequential_scan_continues_past_a_failure() {
    let mut scan = SeqScan::new(1, 3);
    let mut processed: Vec<u32> = Vec::new();
    while let Some(page) = scan.current_request() {
        processed.push(page);
        if page == 2 {
            scan.record_failure();
        } else {
            scan.record_page(1);
        }
    }
    assert_eq!(processed, vec![1, 2, 3]);
}

#[test]
fn inverted_sequential_range_requests_nothing() {
    let scan = SeqScan::new(4, 3);
    assert_eq!(scan.current_request(), None);
}
