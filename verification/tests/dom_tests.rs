use validator_scan::IconColor;
use validator_scan::dom::extract_page_hits;
use validator_scan::dom::last_page_in_document;
use validator_scan::pagination::last_page_from_hrefs;
use validator_scan::pagination::page_param_of;
use validator_scan::url::page_url;

const PATH: &str = "/validators/included_deposits";

fn data_row(index: &str, public_key: &str, status_html: &str) -> String {
    let mut row = String::from("<tr>");
    for col in 0..10 {
        let cell = match col {
            2 => index.to_string(),
            4 => public_key.to_string(),
            9 => status_html.to_string(),
            _ => format!("c{col}"),
        };
        row.push_str(&format!("<td>{cell}</td>"));
    }
    row.push_str("</tr>");
    row
}

fn page_with_rows(rows: &[String]) -> String {
    format!(
        "<html><body><table><thead><tr><th>h</th></tr></thead><tbody>{}</tbody></table></body></html>",
        rows.concat()
    )
}

#[test]
fn page_one_url_has_no_page_parameter() {
    assert_eq!(
        page_url(1),
        "https://dora.explorer.mainnet.lukso.network/validators/included_deposits?f=&f.valid=1&f.orphaned=1&c=100"
    );
}

#[test]
fn later_page_url_appends_page_parameter() {
    assert_eq!(
        page_url(7),
        "https://dora.explorer.mainnet.lukso.network/validators/included_deposits?f=&f.valid=1&f.orphaned=1&c=100&p=7"
    );
}

#[test]
fn page_parameter_parsing_takes_leading_digits() {
    assert_eq!(page_param_of(&format!("{PATH}?p=3")), Some(3));
    assert_eq!(page_param_of(&format!("{PATH}?p=12abc")), Some(12));
    assert_eq!(page_param_of(&format!("{PATH}?p=")), None);
    assert_eq!(page_param_of(&format!("{PATH}?c=100")), None);
    assert_eq!(page_param_of("/other/path?p=9"), None);
}

#[test]
fn discovery_takes_maximum_referenced_page() {
    let hrefs = vec![
        format!("{PATH}?p=3"),
        format!("{PATH}?p=12abc"),
        format!("{PATH}?p=7"),
    ];
    assert_eq!(last_page_from_hrefs(&hrefs), 12);
}

#[test]
fn discovery_without_links_is_single_page() {
    assert_eq!(last_page_from_hrefs(&Vec::new()), 1);
    let hrefs = vec!["/elsewhere?p=4".to_string(), format!("{PATH}?c=100")];
    assert_eq!(last_page_from_hrefs(&hrefs), 1);
}

#[test]
fn discovery_in_document_scans_anchors() {
    let html = format!(
        "<html><body>\
         <a href=\"{PATH}?p=3\">3</a>\
         <a href=\"{PATH}?p=12abc\">?</a>\
         <a href=\"{PATH}?p=7\">7</a>\
         <a href=\"/other?p=99\">x</a>\
         </body></html>"
    );
    assert_eq!(last_page_in_document(&html), 12);
}

#[test]
fn discovery_in_plain_document_is_single_page() {
    assert_eq!(last_page_in_document("<html><body><p>nothing</p></body></html>"), 1);
}

#[test]
fn extraction_classifies_rows_by_text_and_indicator() {
    let rows = vec![
        data_row("101", "0xaaa", "Active <i class=\"text-danger\"></i>"),
        data_row("102", "0xbbb", "Exited <i class=\"text-danger\"></i>"),
        data_row("103", "0xccc", "Active <i class=\"text-warning\"></i>"),
    ];
    let html = page_with_rows(&rows);
    let hits = extract_page_hits(1, &html);
    assert_eq!(hits.len(), 2);
    assert_eq!(hits[0].index, "101");
    assert_eq!(hits[0].public_key, "0xaaa");
    assert_eq!(hits[0].color, IconColor::Red);
    assert_eq!(hits[0].page, 1);
    assert_eq!(hits[0].url, page_url(1));
    assert_eq!(hits[1].index, "103");
    assert_eq!(hits[1].public_key, "0xccc");
    assert_eq!(hits[1].color, IconColor::Yellow);
}

#[test]
fn extraction_emits_two_hits_for_double_indicator() {
    let rows = vec![data_row(
        "104",
        "0xddd",
        "Active <i class=\"text-danger\"></i><i class=\"text-warning\"></i>",
    )];
    let hits = extract_page_hits(2, &page_with_rows(&rows));
    assert_eq!(hits.len(), 2);
    assert_eq!(hits[0].color, IconColor::Red);
    assert_eq!(hits[1].color, IconColor::Yellow);
    assert_eq!(hits[0].public_key, hits[1].public_key);
    assert_eq!(hits[0].url, page_url(2));
}

#[test]
fn extraction_ignores_indicator_outside_status_cell() {
    // The danger marker sits in a non-status column; the status cell is clean.
    let mut row = String::from("<tr>");
    for col in 0..10 {
        let cell = if col == 0 {
            "<i class=\"text-danger\"></i>".to_string()
        } else if col == 9 {
            "Active".to_string()
        } else {
            format!("c{col}")
        };
        row.push_str(&format!("<td>{cell}</td>"));
    }
    row.push_str("</tr>");
    let hits = extract_page_hits(1, &page_with_rows(&[row]));
    assert_eq!(hits.len(), 0);
}

#[test]
fn extraction_is_deterministic_in_the_body() {
    let rows = vec![data_row(" 101\u{a0}", "\u{a0}0xaaa ", "Active <i class=\"text-danger\"></i>")];
    let html = page_with_rows(&rows);
    let first = extract_page_hits(1, &html);
    let second = extract_page_hits(1, &html);
    assert_eq!(first.len(), 1);
    assert_eq!(first.len(), second.len());
    assert_eq!(first[0].index, second[0].index);
    assert_eq!(first[0].public_key, second[0].public_key);
    assert_eq!(first[0].index, "101");
    assert_eq!(first[0].public_key, "0xaaa");
}

#[test]
fn extraction_of_empty_document_yields_nothing() {
    assert_eq!(extract_page_hits(1, "<html><body></body></html>").len(), 0);
    assert_eq!(extract_page_hits(1, "not html at all >><<").len(), 0);
}
