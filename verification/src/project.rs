use vstd::prelude::*;
use vstd::string::StringExecFns;

use crate::date::valid_date;
use crate::date::Date;
use crate::record::EventRecord;
use crate::record::RecordView;
use crate::textops::replace_pat;
use crate::textops::replace_seq;

verus! {

/// One entry of the output calendar: a summary, a three-line
/// description, a joined single-line location, the event's address, and
/// whole-day start and end instants.
#[derive(Debug)]
pub struct CalendarEntry {
    pub summary: String,
    pub description: String,
    pub location: String,
    pub url: String,
    pub start: Date,
    pub end: Date,
}

/// The mathematical shape of a `CalendarEntry`.
pub ghost struct EntryView {
    pub summary: Seq<char>,
    pub description: Seq<char>,
    pub location: Seq<char>,
    pub url: Seq<char>,
    pub start: Date,
    pub end: Date,
}

impl View for CalendarEntry {
    type V = EntryView;

    open spec fn view(&self) -> EntryView {
        EntryView {
            summary: self.summary@,
            description: self.description@,
            location: self.location@,
            url: self.url@,
            start: self.start,
            end: self.end,
        }
    }
}

impl EntryView {
    /// Both instants of an entry name real days of the calendar.
    pub open spec fn wf(self) -> bool {
        valid_date(self.start) && valid_date(self.end)
    }
}

/// An absent field joins as the empty text.
pub open spec fn opt_or_empty(o: Option<Seq<char>>) -> Seq<char> {
    match o {
        Some(s) => s,
        None => Seq::<char>::empty(),
    }
}

/// The location line: the three address fields joined with ", ", with
/// runs of three spaces and then runs of two spaces collapsed to one.
/// The two fixed passes are deliberate: longer runs, or the residue of
/// two adjacent absent fields, are not collapsed further.
pub open spec fn location_join(
    name: Option<Seq<char>>,
    line: Option<Seq<char>>,
    city: Option<Seq<char>>,
) -> Seq<char> {
    let joined = opt_or_empty(name) + ", "@ + opt_or_empty(line) + ", "@ + opt_or_empty(city);
    replace_seq(replace_seq(joined, "   "@, " "@), "  "@, " "@)
}

/// The description body: the event's text, a price line, and the
/// event's address, joined with newlines.
pub open spec fn description_join(desc: Seq<char>, price: Seq<char>, url: Seq<char>) -> Seq<char> {
    desc + "\n"@ + "Prix : "@ + price + "\n"@ + url
}

/// The entry a record yields: nothing when the record carries no date
/// range — such a record is silently left out of the feed — and
/// otherwise the formatted entry bounded by the record's two dates.
pub open spec fn project_model(r: RecordView) -> Option<EntryView> {
    if r.start_date is Some && r.end_date is Some {
        Some(
            EntryView {
                summary: r.title,
                description: description_join(r.description, r.base_price, r.url),
                location: location_join(r.address_name, r.address_line, r.address_city),
                url: r.url,
                start: r.start_date->Some_0,
                end: r.end_date->Some_0,
            },
        )
    } else {
        None
    }
}

/// Projects one record into a calendar entry, or nothing when the
/// record carries no date range.
pub fn project(rec: &EventRecord) -> (r: Option<CalendarEntry>)
    ensures
        r is Some <==> project_model(rec@) is Some,
        r matches Some(e) ==> Some(e@) == project_model(rec@),
        rec@.wf() ==> (r matches Some(e) ==> e@.wf()),
{
    let (start, end) = match (&rec.start_date, &rec.end_date) {
        (Some(s), Some(e)) => (*s, *e),
        _ => {
            return None;
        },
    };
    let mut joined = String::new();
    match &rec.address_name {
        Some(s) => joined.append(s.as_str()),
        None => (),
    }
    joined.append(", ");
    match &rec.address_line {
        Some(s) => joined.append(s.as_str()),
        None => (),
    }
    joined.append(", ");
    match &rec.address_city {
        Some(s) => joined.append(s.as_str()),
        None => (),
    }
    proof {
        reveal_strlit("   ");
        reveal_strlit("  ");
        reveal_strlit(" ");
        assert(joined@ =~= opt_or_empty(rec@.address_name) + ", "@ + opt_or_empty(
            rec@.address_line,
        ) + ", "@ + opt_or_empty(rec@.address_city));
    }
    let pass1 = replace_pat(joined.as_str(), "   ", " ");
    let location = replace_pat(pass1.as_str(), "  ", " ");
    let mut description = String::new();
    description.append(rec.description.as_str());
    description.append("\n");
    description.append("Prix : ");
    description.append(rec.base_price.as_str());
    description.append("\n");
    description.append(rec.url.as_str());
    proof {
        assert(description@ =~= description_join(rec@.description, rec@.base_price, rec@.url));
    }
    Some(
        CalendarEntry {
            summary: rec.title.clone(),
            description,
            location,
            url: rec.url.clone(),
            start,
            end,
        },
    )
}

} // verus!
