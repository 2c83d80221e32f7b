use helloasso_calendar::feed::{assemble_feed, collect_entries, extract_events};

fn dated_fragment(title: &str, date_text: &str) -> String {
    format!(
        "<li class=\"Action\"><a class=\"ActionLink\" href=\"/e/{}\"><div class=\"ActionContent\"><div><h3>{}</h3><p>Corps</p><p class=\"Number-Date\">{}</p><p class=\"Number-BasePrice\">Gratuit</p></div></div></a></li>",
        title, title, date_text
    )
}

fn page(fragments: &[String]) -> String {
    format!(
        "<html><body><div id=\"event\"><ul class=\"ActionList\">{}</ul></div></body></html>",
        fragments.join("")
    )
}

#[test]
fn extract_events_reads_every_fragment_in_page_order() {
    let p = page(&[
        dated_fragment("un", "01/02/2024"),
        dated_fragment("deux", "02/02/2024"),
    ]);
    let records = extract_events(&p);
    assert_eq!(records.len(), 2);
    assert_eq!(records[0].title, "un");
    assert_eq!(records[1].title, "deux");
}

#[test]
fn merged_feed_keeps_source_order_then_page_order() {
    let page1 = page(&[
        dated_fragment("un", "01/02/2024"),
        dated_fragment("deux", "02/02/2024"),
    ]);
    let page2 = page(&[dated_fragment("trois", "03/02/2024")]);
    let entries = collect_entries(&vec![Some(page1), Some(page2)]);
    assert_eq!(entries.len(), 3);
    assert_eq!(entries[0].summary, "un");
    assert_eq!(entries[1].summary, "deux");
    assert_eq!(entries[2].summary, "trois");
}

#[test]
fn failed_source_contributes_nothing_and_spares_the_others() {
    let page2 = page(&[dated_fragment("trois", "03/02/2024")]);
    let entries = collect_entries(&vec![None, Some(page2)]);
    assert_eq!(entries.len(), 1);
    assert_eq!(entries[0].summary, "trois");
}

#[test]
fn fragment_without_date_leaves_the_feed_unchanged() {
    let undated = "<li class=\"Action\"><a class=\"ActionLink\" href=\"/e/x\"><div class=\"ActionContent\"><div><h3>Sans date</h3><p>Corps</p><p class=\"Number-BasePrice\">Gratuit</p></div></div></a></li>".to_string();
    let with = page(&[dated_fragment("un", "01/02/2024"), undated.clone()]);
    let without = page(&[dated_fragment("un", "01/02/2024")]);
    let with_entries = collect_entries(&vec![Some(with)]);
    let without_entries = collect_entries(&vec![Some(without)]);
    assert_eq!(with_entries.len(), without_entries.len());
    assert_eq!(with_entries.len(), 1);
    assert_eq!(with_entries[0].summary, "un");
}

#[test]
fn invalid_date_token_drops_only_its_fragment() {
    let p = page(&[
        dated_fragment("un", "01/02/2024"),
        dated_fragment("mauvais", "32/13/2024"),
        dated_fragment("deux", "02/02/2024"),
    ]);
    let entries = collect_entries(&vec![Some(p)]);
    assert_eq!(entries.len(), 2);
    assert_eq!(entries[0].summary, "un");
    assert_eq!(entries[1].summary, "deux");
}

#[test]
fn empty_sources_yield_an_empty_calendar_document() {
    let ics = assemble_feed(&vec![None], "helloasso");
    assert!(ics.starts_with("BEGIN:VCALENDAR\r\n"));
    assert!(ics.ends_with("END:VCALENDAR\r\n"));
    assert!(!ics.contains("BEGIN:VEVENT"));
}

#[test]
fn feed_document_holds_one_event_per_entry() {
    let p = page(&[
        dated_fragment("un", "01/02/2024"),
        dated_fragment("deux", "02/02/2024"),
    ]);
    let ics = assemble_feed(&vec![Some(p)], "helloasso");
    assert!(ics.starts_with("BEGIN:VCALENDAR\r\n"));
    assert!(ics.ends_with("END:VCALENDAR\r\n"));
    assert_eq!(ics.matches("\nBEGIN:VEVENT\r").count(), 2);
    assert!(ics.contains("SUMMARY:un"));
    assert!(ics.contains("SUMMARY:deux"));
    assert!(ics.contains("DTSTART;VALUE=DATE:20240201"));
}

#[test]
fn newlines_in_entry_texts_are_escaped_and_fabricate_no_event_block() {
    let p = page(&[dated_fragment("un", "01/02/2024")]);
    let ics = assemble_feed(&vec![Some(p)], "helloasso");
    assert_eq!(ics.matches("\nBEGIN:VEVENT\r").count(), 1);
    assert!(ics.contains("DESCRIPTION:Corps\\nPrix : Gratuit\\n/e/un"));
}
