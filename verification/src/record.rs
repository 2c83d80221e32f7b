use vstd::prelude::*;

use crate::date::DateRange;
use crate::date::date_tokens;
use crate::date::parse_date_range;
use crate::date::range_spec;
use crate::date::token_date;
use crate::date::valid_date;
use crate::date::Date;
use crate::markup::address_city_sel;
use crate::markup::address_city_sel_str;
use crate::markup::address_line_sel;
use crate::markup::address_line_sel_str;
use crate::markup::address_name_sel;
use crate::markup::address_name_sel_str;
use crate::markup::date_sel;
use crate::markup::date_sel_str;
use crate::markup::description_sel;
use crate::markup::description_sel_str;
use crate::markup::link_sel;
use crate::markup::link_sel_str;
use crate::markup::price_sel;
use crate::markup::price_sel_str;
use crate::markup::select_first_attr;
use crate::markup::select_first_text;
use crate::markup::selected_attr;
use crate::markup::selected_text;
use crate::markup::title_sel;
use crate::markup::title_sel_str;

verus! {

/// One scraped event: the required display fields, the optional address
/// parts, and the date range read from the fragment's date-bearing text.
#[derive(Debug)]
pub struct EventRecord {
    pub title: String,
    pub description: String,
    pub url: String,
    pub base_price: String,
    pub address_name: Option<String>,
    pub address_line: Option<String>,
    pub address_city: Option<String>,
    pub start_date: Option<Date>,
    pub end_date: Option<Date>,
}

/// The mathematical shape of an `EventRecord`.
pub ghost struct RecordView {
    pub title: Seq<char>,
    pub description: Seq<char>,
    pub url: Seq<char>,
    pub base_price: Seq<char>,
    pub address_name: Option<Seq<char>>,
    pub address_line: Option<Seq<char>>,
    pub address_city: Option<Seq<char>>,
    pub start_date: Option<Date>,
    pub end_date: Option<Date>,
}

/// The view of an optional string.
pub open spec fn opt_view(o: Option<String>) -> Option<Seq<char>> {
    match o {
        Some(s) => Some(s@),
        None => None,
    }
}

impl View for EventRecord {
    type V = RecordView;

    open spec fn view(&self) -> RecordView {
        RecordView {
            title: self.title@,
            description: self.description@,
            url: self.url@,
            base_price: self.base_price@,
            address_name: opt_view(self.address_name),
            address_line: opt_view(self.address_line),
            address_city: opt_view(self.address_city),
            start_date: self.start_date,
            end_date: self.end_date,
        }
    }
}

impl RecordView {
    /// A record holds either both dates or neither, and each date it
    /// holds names a real day of the calendar.
    pub open spec fn wf(self) -> bool {
        &&& self.start_date is Some <==> self.end_date is Some
        &&& (self.start_date matches Some(d) ==> valid_date(d))
        &&& (self.end_date matches Some(d) ==> valid_date(d))
    }
}

/// The date range a fragment denotes: when the date-bearing element is
/// absent the range is known to be `NoDates`; when it is present its
/// text decides, and an invalid token makes the whole fragment fail.
pub open spec fn frag_range(frag: Seq<char>) -> Option<DateRange> {
    match selected_text(frag, date_sel()) {
        Some(t) => range_spec(t),
        None => Some(DateRange::NoDates),
    }
}

/// Whether a fragment yields a record: all four required fields are
/// present and its date-bearing text holds no invalid token.
pub open spec fn extract_ok(frag: Seq<char>) -> bool {
    &&& selected_text(frag, title_sel()) is Some
    &&& selected_text(frag, description_sel()) is Some
    &&& selected_attr(frag, link_sel(), "href"@) is Some
    &&& selected_text(frag, price_sel()) is Some
    &&& frag_range(frag) is Some
}

/// The start date a range gives a record.
pub open spec fn range_start(r: DateRange) -> Option<Date> {
    match r {
        DateRange::NoDates => None,
        DateRange::Range(s, _) => Some(s),
    }
}

/// The end date a range gives a record.
pub open spec fn range_end(r: DateRange) -> Option<Date> {
    match r {
        DateRange::NoDates => None,
        DateRange::Range(_, e) => Some(e),
    }
}

/// The record a fragment yields, or nothing when a required field is
/// absent or a date token is invalid; the fragment is then dropped and
/// its siblings are unaffected.
pub open spec fn extract_model(frag: Seq<char>) -> Option<RecordView> {
    if extract_ok(frag) {
        Some(
            RecordView {
                title: selected_text(frag, title_sel())->Some_0,
                description: selected_text(frag, description_sel())->Some_0,
                url: selected_attr(frag, link_sel(), "href"@)->Some_0,
                base_price: selected_text(frag, price_sel())->Some_0,
                address_name: selected_text(frag, address_name_sel()),
                address_line: selected_text(frag, address_line_sel()),
                address_city: selected_text(frag, address_city_sel()),
                start_date: range_start(frag_range(frag)->Some_0),
                end_date: range_end(frag_range(frag)->Some_0),
            },
        )
    } else {
        None
    }
}

/// A range read from a text gives only valid dates.
pub proof fn lemma_range_dates_valid(t: Seq<char>)
    ensures
        range_spec(t) matches Some(DateRange::Range(a, b)) ==> valid_date(a) && valid_date(b),
{
    if range_spec(t) matches Some(DateRange::Range(a, b)) {
        let toks = date_tokens(t);
        assert(valid_date(token_date(toks[0])));
        assert(valid_date(token_date(toks[toks.len() - 1])));
    }
}

/// Builds the record of one event fragment, or nothing when a required
/// field is absent or a date token of the fragment is invalid.
pub fn extract_event(frag: &str) -> (r: Option<EventRecord>)
    ensures
        r is Some <==> extract_model(frag@) is Some,
        r matches Some(rec) ==> Some(rec@) == extract_model(frag@) && rec@.wf(),
{
    let title = select_first_text(frag, title_sel_str());
    let description = select_first_text(frag, description_sel_str());
    let url = select_first_attr(frag, link_sel_str(), "href");
    let base_price = select_first_text(frag, price_sel_str());
    let (title, description, url, base_price) = match (title, description, url, base_price) {
        (Some(t), Some(d), Some(u), Some(p)) => (t, d, u, p),
        _ => {
            return None;
        },
    };
    let range = match select_first_text(frag, date_sel_str()) {
        Some(t) => {
            match parse_date_range(t.as_str()) {
                Some(rg) => rg,
                None => {
                    return None;
                },
            }
        },
        None => DateRange::NoDates,
    };
    let (start_date, end_date) = match range {
        DateRange::NoDates => (None, None),
        DateRange::Range(s, e) => (Some(s), Some(e)),
    };
    proof {
        match selected_text(frag@, date_sel()) {
            Some(t) => lemma_range_dates_valid(t),
            None => (),
        }
    }
    Some(
        EventRecord {
            title,
            description,
            url,
            base_price,
            address_name: select_first_text(frag, address_name_sel_str()),
            address_line: select_first_text(frag, address_line_sel_str()),
            address_city: select_first_text(frag, address_city_sel_str()),
            start_date,
            end_date,
        },
    )
}

} // verus!
