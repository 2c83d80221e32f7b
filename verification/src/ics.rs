use vstd::prelude::*;

use icalendar::Component;
use icalendar::EventLike;

use crate::date::valid_date;
use crate::project::CalendarEntry;
use crate::textops::count_char;
use crate::textops::count_occurrences;

verus! {

#[verifier::external_type_specification]
#[verifier::external_body]
pub struct ExEvent(icalendar::Event);

/// The line every calendar document opens with.
pub open spec fn calendar_head() -> Seq<char> {
    "BEGIN:VCALENDAR\r\n"@
}

/// The line every calendar document closes with.
pub open spec fn calendar_foot() -> Seq<char> {
    "END:VCALENDAR\r\n"@
}

/// One event-block header line as it stands in a document: the line
/// break that ends the previous line, the header, and the break that
/// ends it. Escaped property values cannot produce the leading line
/// break, and folded lines continue after a space, so each serialized
/// event shows this text exactly once.
pub open spec fn vevent_marker() -> Seq<char> {
    "\nBEGIN:VEVENT\r"@
}

/// What a built event holds, as far as the document contracts need it:
/// whether serializing the event emits exactly one event-block header
/// line, and no other text that reads as one.
pub uninterp spec fn event_single_header(ev: icalendar::Event) -> bool;

/// Relies on icalendar's `Event` builder — `summary`, `description`,
/// `starts`, `ends`, `url`, `location` and `done` only record the given
/// values on a fresh event — and on chrono's `NaiveDate::from_ymd_opt`,
/// which returns a date for every valid calendar date of the years the
/// date type can hold, so the unwraps cannot fail for a well-formed
/// entry. For the header clause it relies on icalendar's serializer:
/// summary, description and location values are text-escaped (a newline
/// becomes a two-character escape), the date lines and the stamps the
/// serializer adds hold no line break, folded lines continue after a
/// space, and only the address value is written as given — so an event
/// built from an entry whose address holds no newline serializes with
/// exactly one event-block header line.
#[verifier::external_body]
fn event_of_entry(e: &CalendarEntry) -> (r: icalendar::Event)
    requires
        valid_date(e.start),
        valid_date(e.end),
    ensures
        count_char(e.url@, '\n') == 0 ==> event_single_header(r),
{
    let start = chrono::NaiveDate::from_ymd_opt(
        e.start.year as i32,
        e.start.month as u32,
        e.start.day as u32,
    ).unwrap();
    let end = chrono::NaiveDate::from_ymd_opt(
        e.end.year as i32,
        e.end.month as u32,
        e.end.day as u32,
    ).unwrap();
    icalendar::Event::new().summary(&e.summary).description(&e.description).starts(start).ends(
        end,
    ).url(&e.url).location(&e.location).done()
}

/// Relies on icalendar's `Calendar`: collected from an iterator of
/// events, given a name, and rendered by its `Display` implementation
/// as one block — the opening line, the calendar's properties, each
/// event's block in order, the closing line. The calendar's own
/// property values are text-escaped constants, except the given name,
/// which is written as given; so when the name holds no newline and
/// each event serializes with a single header line, the document holds
/// exactly one event-block header line per event.
#[verifier::external_body]
fn calendar_ics(events: Vec<icalendar::Event>, name: &str) -> (r: String)
    ensures
        r@.len() >= calendar_head().len() + calendar_foot().len(),
        r@.take(calendar_head().len() as int) == calendar_head(),
        r@.skip(r@.len() as int - calendar_foot().len() as int) == calendar_foot(),
        (count_char(name@, '\n') == 0 && (forall|i: int|
            0 <= i < events@.len() ==> event_single_header(#[trigger] events@[i])))
            ==> count_occurrences(r@, vevent_marker()) == events@.len(),
{
    let mut cal: icalendar::Calendar = events.into_iter().collect();
    cal.name(name);
    cal.done().to_string()
}

/// Serializes the entries as one named calendar document: one block
/// opened and closed by the calendar lines, holding — for a name and
/// entry addresses without newlines — exactly one event per entry, in
/// order.
pub fn render_feed(entries: &Vec<CalendarEntry>, name: &str) -> (r: String)
    requires
        forall|i: int| 0 <= i < entries@.len() ==> (#[trigger] entries@[i])@.wf(),
    ensures
        r@.len() >= calendar_head().len() + calendar_foot().len(),
        r@.take(calendar_head().len() as int) == calendar_head(),
        r@.skip(r@.len() as int - calendar_foot().len() as int) == calendar_foot(),
        (count_char(name@, '\n') == 0 && (forall|i: int|
            0 <= i < entries@.len() ==> count_char((#[trigger] entries@[i])@.url, '\n') == 0))
            ==> count_occurrences(r@, vevent_marker()) == entries@.len(),
{
    let mut events: Vec<icalendar::Event> = Vec::new();
    let n = entries.len();
    let mut i: usize = 0;
    while i < n
        invariant
            i <= n,
            n == entries@.len(),
            events@.len() == i,
            forall|j: int| 0 <= j < entries@.len() ==> (#[trigger] entries@[j])@.wf(),
            forall|j: int|
                0 <= j < i ==> (count_char((#[trigger] entries@[j])@.url, '\n') == 0
                    ==> event_single_header(events@[j])),
        decreases n - i,
    {
        let ev = event_of_entry(&entries[i]);
        events.push(ev);
        i = i + 1;
    }
    let out = calendar_ics(events, name);
    proof {
        if count_char(name@, '\n') == 0 && (forall|j: int|
            0 <= j < entries@.len() ==> count_char((#[trigger] entries@[j])@.url, '\n') == 0) {
            assert forall|j: int| 0 <= j < events@.len() implies event_single_header(
                #[trigger] events@[j],
            ) by {
                assert(count_char(entries@[j]@.url, '\n') == 0);
            }
        }
    }
    out
}

} // verus!
