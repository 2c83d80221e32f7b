use vstd::prelude::*;

use crate::ics::calendar_foot;
use crate::ics::calendar_head;
use crate::ics::render_feed;
use crate::ics::vevent_marker;
use crate::textops::count_char;
use crate::textops::count_occurrences;
use crate::markup::fragment_sel;
use crate::markup::fragment_sel_str;
use crate::markup::select_fragments;
use crate::markup::selected_fragments;
use crate::project::project;
use crate::project::project_model;
use crate::project::CalendarEntry;
use crate::project::EntryView;
use crate::record::extract_event;
use crate::record::extract_model;
use crate::record::opt_view;
use crate::record::EventRecord;
use crate::record::RecordView;

verus! {

/// The records a fragment contributes: one when it yields a record,
/// none when it is dropped.
pub open spec fn frag_records(frag: Seq<char>) -> Seq<RecordView> {
    match extract_model(frag) {
        Some(r) => seq![r],
        None => seq![],
    }
}

/// The records of a sequence of fragments, in order.
pub open spec fn records_of_frags(frags: Seq<Seq<char>>) -> Seq<RecordView>
    decreases frags.len(),
{
    if frags.len() == 0 {
        seq![]
    } else {
        records_of_frags(frags.drop_last()) + frag_records(frags.last())
    }
}

/// The records of a page, in page order.
pub open spec fn page_records(page: Seq<char>) -> Seq<RecordView> {
    records_of_frags(selected_fragments(page, fragment_sel()))
}

/// The calendar entries a fragment contributes: one when it yields a
/// record and the record carries a date range, none otherwise.
pub open spec fn frag_entries(frag: Seq<char>) -> Seq<EntryView> {
    match extract_model(frag) {
        Some(r) => match project_model(r) {
            Some(e) => seq![e],
            None => seq![],
        },
        None => seq![],
    }
}

/// The entries of a sequence of fragments, in order.
pub open spec fn entries_of_frags(frags: Seq<Seq<char>>) -> Seq<EntryView>
    decreases frags.len(),
{
    if frags.len() == 0 {
        seq![]
    } else {
        entries_of_frags(frags.drop_last()) + frag_entries(frags.last())
    }
}

/// The entries of a page, in page order.
pub open spec fn page_entries(page: Seq<char>) -> Seq<EntryView> {
    entries_of_frags(selected_fragments(page, fragment_sel()))
}

/// What one source contributes to the feed: nothing when its fetch
/// failed, its page's entries otherwise.
pub open spec fn source_entries(p: Option<Seq<char>>) -> Seq<EntryView> {
    match p {
        Some(page) => page_entries(page),
        None => seq![],
    }
}

/// The merged feed: the concatenation, in source order then in page
/// order, of every entry the sources contribute.
pub open spec fn feed_entries(pages: Seq<Option<Seq<char>>>) -> Seq<EntryView>
    decreases pages.len(),
{
    if pages.len() == 0 {
        seq![]
    } else {
        feed_entries(pages.drop_last()) + source_entries(pages.last())
    }
}

/// The pages as the feed specs see them: each fetched page its text,
/// each failed fetch nothing.
pub open spec fn pages_view(pages: Seq<Option<String>>) -> Seq<Option<Seq<char>>> {
    pages.map_values(|p: Option<String>| opt_view(p))
}

/// Extracts every event record of one page, in page order, dropping the
/// fragments that yield none.
pub fn extract_events(page: &str) -> (r: Vec<EventRecord>)
    ensures
        r@.map_values(|rec: EventRecord| rec@) == page_records(page@),
        forall|i: int| 0 <= i < r@.len() ==> (#[trigger] r@[i])@.wf(),
{
    let frags = select_fragments(page, fragment_sel_str());
    let ghost sel = selected_fragments(page@, fragment_sel());
    let mut out: Vec<EventRecord> = Vec::new();
    let n = frags.len();
    let mut i: usize = 0;
    proof {
        assert(sel.take(0) =~= Seq::<Seq<char>>::empty());
        assert(out@.map_values(|rec: EventRecord| rec@) =~= records_of_frags(sel.take(0)));
    }
    while i < n
        invariant
            i <= n,
            n == frags@.len(),
            n == sel.len(),
            forall|j: int| 0 <= j < n ==> (#[trigger] frags@[j])@ == sel[j],
            out@.map_values(|rec: EventRecord| rec@) == records_of_frags(sel.take(i as int)),
            forall|j: int| 0 <= j < out@.len() ==> (#[trigger] out@[j])@.wf(),
        decreases n - i,
    {
        let ghost prefix = sel.take(i as int + 1);
        proof {
            assert(prefix.drop_last() =~= sel.take(i as int));
            assert(prefix.last() == sel[i as int]);
        }
        match extract_event(&frags[i]) {
            Some(rec) => {
                proof {
                    let f = |r: EventRecord| r@;
                    assert((out@ + seq![rec]).map_values(f) =~= out@.map_values(f)
                        + seq![rec@]);
                    assert(records_of_frags(prefix) == records_of_frags(sel.take(i as int))
                        + frag_records(sel[i as int]));
                    assert(frag_records(sel[i as int]) =~= seq![rec@]);
                }
                out.push(rec);
            },
            None => {
                proof {
                    assert(records_of_frags(prefix) == records_of_frags(sel.take(i as int))
                        + frag_records(sel[i as int]));
                    assert(frag_records(sel[i as int]) =~= Seq::<RecordView>::empty());
                    assert(records_of_frags(sel.take(i as int)) + Seq::<RecordView>::empty()
                        =~= records_of_frags(sel.take(i as int)));
                }
            },
        }
        i = i + 1;
    }
    proof {
        assert(sel.take(n as int) =~= sel);
    }
    out
}

/// Projects the records of one page into its calendar entries, in page
/// order; a record without a date range is silently left out.
fn project_page(page: &str, out: &mut Vec<CalendarEntry>)
    requires
        forall|i: int| 0 <= i < old(out)@.len() ==> (#[trigger] old(out)@[i])@.wf(),
    ensures
        final(out)@.map_values(|e: CalendarEntry| e@) == old(out)@.map_values(
            |e: CalendarEntry| e@,
        ) + page_entries(page@),
        forall|i: int| 0 <= i < final(out)@.len() ==> (#[trigger] final(out)@[i])@.wf(),
{
    let frags = select_fragments(page, fragment_sel_str());
    let ghost sel = selected_fragments(page@, fragment_sel());
    let ghost base = old(out)@.map_values(|e: CalendarEntry| e@);
    let n = frags.len();
    let mut i: usize = 0;
    proof {
        assert(sel.take(0) =~= Seq::<Seq<char>>::empty());
        assert(base + entries_of_frags(sel.take(0)) =~= base);
    }
    while i < n
        invariant
            i <= n,
            n == frags@.len(),
            n == sel.len(),
            forall|j: int| 0 <= j < n ==> (#[trigger] frags@[j])@ == sel[j],
            out@.map_values(|e: CalendarEntry| e@) == base + entries_of_frags(sel.take(i as int)),
            forall|j: int| 0 <= j < out@.len() ==> (#[trigger] out@[j])@.wf(),
        decreases n - i,
    {
        let ghost prefix = sel.take(i as int + 1);
        proof {
            assert(prefix.drop_last() =~= sel.take(i as int));
            assert(prefix.last() == sel[i as int]);
            assert(entries_of_frags(prefix) == entries_of_frags(sel.take(i as int))
                + frag_entries(sel[i as int]));
        }
        match extract_event(&frags[i]) {
            Some(rec) => {
                match project(&rec) {
                    Some(entry) => {
                        proof {
                            let f = |e: CalendarEntry| e@;
                            assert((out@ + seq![entry]).map_values(f) =~= out@.map_values(f)
                                + seq![entry@]);
                            assert(frag_entries(sel[i as int]) =~= seq![entry@]);
                            assert(base + entries_of_frags(sel.take(i as int)) + seq![entry@]
                                =~= base + entries_of_frags(prefix));
                        }
                        out.push(entry);
                    },
                    None => {
                        proof {
                            assert(frag_entries(sel[i as int]) =~= Seq::<EntryView>::empty());
                            assert(base + entries_of_frags(sel.take(i as int))
                                + Seq::<EntryView>::empty() =~= base + entries_of_frags(
                                sel.take(i as int),
                            ));
                        }
                    },
                }
            },
            None => {
                proof {
                    assert(frag_entries(sel[i as int]) =~= Seq::<EntryView>::empty());
                    assert(base + entries_of_frags(sel.take(i as int))
                        + Seq::<EntryView>::empty() =~= base + entries_of_frags(
                        sel.take(i as int),
                    ));
                }
            },
        }
        i = i + 1;
    }
    proof {
        assert(sel.take(n as int) =~= sel);
    }
}

/// Collects the merged feed of several sources: each fetched page
/// contributes its entries in page order, a failed fetch contributes
/// none, and the sources' contributions stand in source order.
pub fn collect_entries(pages: &Vec<Option<String>>) -> (r: Vec<CalendarEntry>)
    ensures
        r@.map_values(|e: CalendarEntry| e@) == feed_entries(pages_view(pages@)),
        forall|i: int| 0 <= i < r@.len() ==> (#[trigger] r@[i])@.wf(),
{
    let ghost pv = pages_view(pages@);
    let mut out: Vec<CalendarEntry> = Vec::new();
    let n = pages.len();
    let mut i: usize = 0;
    proof {
        assert(pv.take(0) =~= Seq::<Option<Seq<char>>>::empty());
        assert(out@.map_values(|e: CalendarEntry| e@) =~= feed_entries(pv.take(0)));
    }
    while i < n
        invariant
            i <= n,
            n == pages@.len(),
            n == pv.len(),
            forall|j: int| 0 <= j < n ==> pv[j] == opt_view(#[trigger] pages@[j]),
            out@.map_values(|e: CalendarEntry| e@) == feed_entries(pv.take(i as int)),
            forall|j: int| 0 <= j < out@.len() ==> (#[trigger] out@[j])@.wf(),
        decreases n - i,
    {
        let ghost prefix = pv.take(i as int + 1);
        proof {
            assert(prefix.drop_last() =~= pv.take(i as int));
            assert(prefix.last() == pv[i as int]);
            assert(feed_entries(prefix) == feed_entries(pv.take(i as int)) + source_entries(
                pv[i as int],
            ));
        }
        match &pages[i] {
            Some(page) => {
                project_page(page.as_str(), &mut out);
            },
            None => {
                proof {
                    assert(source_entries(pv[i as int]) =~= Seq::<EntryView>::empty());
                    assert(feed_entries(pv.take(i as int)) + Seq::<EntryView>::empty()
                        =~= feed_entries(pv.take(i as int)));
                }
            },
        }
        i = i + 1;
    }
    proof {
        assert(pv.take(n as int) =~= pv);
    }
    out
}

/// Builds the whole feed of several fetched pages: the merged entries,
/// serialized as one calendar document under the given name — one block
/// opened and closed by the calendar lines, always returned whatever
/// the sources yielded, holding (for a name and entry addresses without
/// newlines) exactly one event per merged entry, in order.
pub fn assemble_feed(pages: &Vec<Option<String>>, name: &str) -> (r: String)
    ensures
        r@.len() >= calendar_head().len() + calendar_foot().len(),
        r@.take(calendar_head().len() as int) == calendar_head(),
        r@.skip(r@.len() as int - calendar_foot().len() as int) == calendar_foot(),
        (count_char(name@, '\n') == 0 && (forall|i: int|
            0 <= i < feed_entries(pages_view(pages@)).len() ==> count_char(
                #[trigger] feed_entries(pages_view(pages@))[i].url,
                '\n',
            ) == 0)) ==> count_occurrences(r@, vevent_marker()) == feed_entries(
            pages_view(pages@),
        ).len(),
{
    let entries = collect_entries(pages);
    let out = render_feed(&entries, name);
    proof {
        let fe = feed_entries(pages_view(pages@));
        assert(entries@.map_values(|e: CalendarEntry| e@) == fe);
        assert(entries@.len() == fe.len());
        if count_char(name@, '\n') == 0 && (forall|i: int|
            0 <= i < fe.len() ==> count_char(#[trigger] fe[i].url, '\n') == 0) {
            assert forall|i: int| 0 <= i < entries@.len() implies count_char(
                (#[trigger] entries@[i])@.url,
                '\n',
            ) == 0 by {
                assert(entries@.map_values(|e: CalendarEntry| e@)[i] == entries@[i]@);
                assert(fe[i] == entries@[i]@);
            }
        }
    }
    out
}

} // verus!
