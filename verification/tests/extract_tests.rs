use helloasso_calendar::date::Date;
use helloasso_calendar::project::project;
use helloasso_calendar::record::extract_event;

fn fragment(
    title: Option<&str>,
    desc: &str,
    href: Option<&str>,
    price: Option<&str>,
    date_text: Option<&str>,
    name: Option<&str>,
    line: Option<&str>,
    city: Option<&str>,
) -> String {
    let mut content = String::new();
    if let Some(t) = title {
        content.push_str(&format!("<h3>{}</h3>", t));
    }
    content.push_str(&format!("<p>{}</p>", desc));
    if let Some(d) = date_text {
        content.push_str(&format!("<p class=\"Number-Date\">{}</p>", d));
    }
    if let Some(p) = price {
        content.push_str(&format!("<p class=\"Number-BasePrice\">{}</p>", p));
    }
    let href_attr = match href {
        Some(h) => format!(" href=\"{}\"", h),
        None => String::new(),
    };
    let mut details = String::new();
    if let Some(n) = name {
        details.push_str(&format!("<p class=\"Data-AddressName\">{}</p>", n));
    }
    if let Some(l) = line {
        details.push_str(&format!("<p class=\"Data-Address\">{}</p>", l));
    }
    if let Some(c) = city {
        details.push_str(&format!("<p class=\"Data-City\">{}</p>", c));
    }
    format!(
        "<li class=\"Action\"><a class=\"ActionLink\"{}><div class=\"ActionContent\"><div>{}</div></div><div class=\"ActionDetails\"><div class=\"ActionDetails--Data\">{}</div></div></a></li>",
        href_attr, content, details
    )
}

fn full_fragment(date_text: Option<&str>) -> String {
    fragment(
        Some("Concert"),
        "Grande salle",
        Some("/e/concert"),
        Some("5 €"),
        date_text,
        Some("A"),
        Some("B"),
        Some("C"),
    )
}

#[test]
fn single_date_token_gives_same_start_and_end() {
    let frag = full_fragment(Some("Le 05/06/2024"));
    let rec = extract_event(&frag).expect("record");
    let d = Date { year: 2024, month: 6, day: 5 };
    assert_eq!(rec.start_date, Some(d));
    assert_eq!(rec.end_date, Some(d));
    assert_eq!(rec.title, "Concert");
    assert_eq!(rec.description, "Grande salle");
    assert_eq!(rec.url, "/e/concert");
    assert_eq!(rec.base_price, "5 €");
    let entry = project(&rec).expect("entry");
    assert_eq!(entry.start, d);
    assert_eq!(entry.end, d);
}

#[test]
fn two_date_tokens_keep_text_order() {
    let frag = full_fragment(Some("Du 31/12/2099 au 01/01/2020"));
    let rec = extract_event(&frag).expect("record");
    assert_eq!(rec.start_date, Some(Date { year: 2099, month: 12, day: 31 }));
    assert_eq!(rec.end_date, Some(Date { year: 2020, month: 1, day: 1 }));
}

#[test]
fn absent_date_block_gives_record_without_entry() {
    let frag = full_fragment(None);
    let rec = extract_event(&frag).expect("record");
    assert_eq!(rec.start_date, None);
    assert_eq!(rec.end_date, None);
    assert!(project(&rec).is_none());
}

#[test]
fn date_block_without_token_gives_record_without_entry() {
    let frag = full_fragment(Some("tous les mardis"));
    let rec = extract_event(&frag).expect("record");
    assert_eq!(rec.start_date, None);
    assert_eq!(rec.end_date, None);
    assert!(project(&rec).is_none());
}

#[test]
fn invalid_date_token_drops_the_fragment() {
    let frag = full_fragment(Some("32/13/2024"));
    assert!(extract_event(&frag).is_none());
}

#[test]
fn missing_title_drops_the_fragment() {
    let frag = fragment(
        None,
        "Sans titre",
        Some("/e/x"),
        Some("Gratuit"),
        Some("01/02/2024"),
        None,
        None,
        None,
    );
    assert!(extract_event(&frag).is_none());
}

#[test]
fn missing_href_drops_the_fragment() {
    let frag = fragment(
        Some("T"),
        "D",
        None,
        Some("Gratuit"),
        Some("01/02/2024"),
        None,
        None,
        None,
    );
    assert!(extract_event(&frag).is_none());
}

#[test]
fn missing_price_drops_the_fragment() {
    let frag = fragment(
        Some("T"),
        "D",
        Some("/e/x"),
        None,
        Some("01/02/2024"),
        None,
        None,
        None,
    );
    assert!(extract_event(&frag).is_none());
}

#[test]
fn absent_address_fields_are_absent_in_the_record() {
    let frag = fragment(
        Some("T"),
        "D",
        Some("/e/x"),
        Some("Gratuit"),
        Some("01/02/2024"),
        Some("A"),
        None,
        Some("C"),
    );
    let rec = extract_event(&frag).expect("record");
    assert_eq!(rec.address_name.as_deref(), Some("A"));
    assert_eq!(rec.address_line, None);
    assert_eq!(rec.address_city.as_deref(), Some("C"));
}

#[test]
fn location_joins_the_three_address_fields() {
    let frag = full_fragment(Some("01/02/2024"));
    let rec = extract_event(&frag).expect("record");
    let entry = project(&rec).expect("entry");
    assert_eq!(entry.location, "A, B, C");
}

#[test]
fn location_with_absent_middle_field_keeps_the_join_residue() {
    let frag = fragment(
        Some("T"),
        "D",
        Some("/e/x"),
        Some("Gratuit"),
        Some("01/02/2024"),
        Some("A"),
        None,
        Some("C"),
    );
    let rec = extract_event(&frag).expect("record");
    let entry = project(&rec).expect("entry");
    assert_eq!(entry.location, "A, , C");
}

#[test]
fn location_with_two_adjacent_absent_fields() {
    let frag = fragment(
        Some("T"),
        "D",
        Some("/e/x"),
        Some("Gratuit"),
        Some("01/02/2024"),
        None,
        None,
        Some("C"),
    );
    let rec = extract_event(&frag).expect("record");
    let entry = project(&rec).expect("entry");
    assert_eq!(entry.location, ", , C");
}

#[test]
fn location_collapses_inner_space_runs_in_two_passes() {
    let frag = fragment(
        Some("T"),
        "D",
        Some("/e/x"),
        Some("Gratuit"),
        Some("01/02/2024"),
        Some("Salle  des   fêtes"),
        Some("B"),
        Some("C"),
    );
    let rec = extract_event(&frag).expect("record");
    let entry = project(&rec).expect("entry");
    assert_eq!(entry.location, "Salle des fêtes, B, C");
}

#[test]
fn description_holds_three_newline_joined_segments() {
    let frag = full_fragment(Some("01/02/2024"));
    let rec = extract_event(&frag).expect("record");
    let entry = project(&rec).expect("entry");
    assert_eq!(entry.description, "Grande salle\nPrix : 5 €\n/e/concert");
    let segments: Vec<&str> = entry.description.split('\n').collect();
    assert_eq!(segments, vec!["Grande salle", "Prix : 5 €", "/e/concert"]);
    assert_eq!(entry.summary, "Concert");
    assert_eq!(entry.url, "/e/concert");
}
