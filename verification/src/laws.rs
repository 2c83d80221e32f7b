use vstd::prelude::*;

use crate::date::date_tokens;
use crate::date::range_spec;
use crate::date::token_date;
use crate::date::valid_date;
use crate::date::DateRange;
use crate::feed::entries_of_frags;
use crate::feed::frag_entries;
use crate::feed::frag_records;
use crate::markup::date_sel;
use crate::markup::description_sel;
use crate::markup::link_sel;
use crate::markup::price_sel;
use crate::markup::selected_attr;
use crate::markup::selected_text;
use crate::markup::title_sel;
use crate::project::description_join;
use crate::project::project_model;
use crate::project::EntryView;
use crate::record::extract_model;
use crate::record::extract_ok;
use crate::record::frag_range;
use crate::textops::count_char;
use crate::textops::lemma_count_concat;
use crate::textops::lemma_count_zero;

verus! {

/// The entries of two runs of fragments, one after the other, are the
/// entries of the first followed by the entries of the second: each
/// fragment's contribution stands on its own.
pub proof fn lemma_entries_of_frags_concat(x: Seq<Seq<char>>, y: Seq<Seq<char>>)
    ensures
        entries_of_frags(x + y) == entries_of_frags(x) + entries_of_frags(y),
    decreases y.len(),
{
    if y.len() == 0 {
        assert(x + y =~= x);
        assert(entries_of_frags(x) + entries_of_frags(y) =~= entries_of_frags(x));
    } else {
        assert((x + y).drop_last() =~= x + y.drop_last());
        assert((x + y).last() == y.last());
        lemma_entries_of_frags_concat(x, y.drop_last());
        assert(entries_of_frags(x) + (entries_of_frags(y.drop_last()) + frag_entries(y.last()))
            =~= (entries_of_frags(x) + entries_of_frags(y.drop_last())) + frag_entries(y.last()));
    }
}

/// A fragment whose required fields are all present and whose
/// date-bearing text holds exactly one token, naming a valid date,
/// yields exactly one record, whose start and end both equal that date,
/// and exactly one calendar entry.
pub proof fn lemma_single_date_token(frag: Seq<char>, t: Seq<char>)
    requires
        selected_text(frag, title_sel()) is Some,
        selected_text(frag, description_sel()) is Some,
        selected_attr(frag, link_sel(), "href"@) is Some,
        selected_text(frag, price_sel()) is Some,
        selected_text(frag, date_sel()) == Some(t),
        date_tokens(t).len() == 1,
        valid_date(token_date(date_tokens(t)[0])),
    ensures
        frag_records(frag).len() == 1,
        extract_model(frag) is Some,
        extract_model(frag)->Some_0.start_date == Some(token_date(date_tokens(t)[0])),
        extract_model(frag)->Some_0.end_date == Some(token_date(date_tokens(t)[0])),
        project_model(extract_model(frag)->Some_0) is Some,
        frag_entries(frag).len() == 1,
{
    let toks = date_tokens(t);
    assert forall|i: int| 0 <= i < toks.len() implies valid_date(
        token_date(#[trigger] toks[i]),
    ) by {
        assert(i == 0);
    }
    assert(range_spec(t) == Some(DateRange::Range(token_date(toks[0]), token_date(toks[0]))));
    assert(extract_ok(frag));
}

/// A date-bearing text holding two valid tokens yields the range from
/// the first to the second in text order, whatever their chronological
/// order: the dates are not reordered.
pub proof fn lemma_two_tokens_text_order(t: Seq<char>)
    requires
        date_tokens(t).len() == 2,
        valid_date(token_date(date_tokens(t)[0])),
        valid_date(token_date(date_tokens(t)[1])),
    ensures
        range_spec(t) == Some(
            DateRange::Range(token_date(date_tokens(t)[0]), token_date(date_tokens(t)[1])),
        ),
{
    let toks = date_tokens(t);
    assert forall|i: int| 0 <= i < toks.len() implies valid_date(
        token_date(#[trigger] toks[i]),
    ) by {
        assert(i == 0 || i == 1);
    }
}

/// A fragment whose required fields are all present but whose
/// date-bearing element is absent yields a record without dates, and no
/// calendar entry: appended to any run of fragments, it leaves the feed
/// as it was.
pub proof fn lemma_absent_date_block(frag: Seq<char>, frags: Seq<Seq<char>>)
    requires
        selected_text(frag, title_sel()) is Some,
        selected_text(frag, description_sel()) is Some,
        selected_attr(frag, link_sel(), "href"@) is Some,
        selected_text(frag, price_sel()) is Some,
        selected_text(frag, date_sel()) is None,
    ensures
        extract_model(frag) is Some,
        extract_model(frag)->Some_0.start_date is None,
        extract_model(frag)->Some_0.end_date is None,
        project_model(extract_model(frag)->Some_0) is None,
        frag_entries(frag) == Seq::<EntryView>::empty(),
        entries_of_frags(frags.push(frag)) == entries_of_frags(frags),
{
    assert(frag_range(frag) == Some(DateRange::NoDates));
    assert(extract_ok(frag));
    assert(frag_entries(frag) =~= Seq::<EntryView>::empty());
    assert(frags.push(frag).drop_last() =~= frags);
    assert(entries_of_frags(frags) + Seq::<EntryView>::empty() =~= entries_of_frags(frags));
}

/// The description of an entry is its record's description text, a
/// price line, and the record's address, joined with newlines: when
/// none of the three brings a newline of its own, the description holds
/// exactly two newlines, separating exactly three segments.
pub proof fn lemma_description_three_segments(desc: Seq<char>, price: Seq<char>, url: Seq<char>)
    requires
        count_char(desc, '\n') == 0,
        count_char(price, '\n') == 0,
        count_char(url, '\n') == 0,
    ensures
        description_join(desc, price, url) == desc + "\n"@ + ("Prix : "@ + price) + "\n"@ + url,
        count_char("Prix : "@ + price, '\n') == 0,
        count_char(description_join(desc, price, url), '\n') == 2,
{
    assert(desc + "\n"@ + ("Prix : "@ + price) + "\n"@ + url =~= description_join(
        desc,
        price,
        url,
    ));
    reveal_strlit("\n");
    reveal_strlit("Prix : ");
    assert(count_char("\n"@, '\n') == 1) by {
        assert(count_char(Seq::<char>::empty(), '\n') == 0);
        assert(("\n"@).drop_last() =~= Seq::<char>::empty());
        assert(("\n"@).last() == '\n');
    }
    assert(count_char("Prix : "@, '\n') == 0) by {
        lemma_count_zero("Prix : "@, '\n');
        assert(forall|i: int| 0 <= i < 7 ==> ("Prix : "@)[i] != '\n');
    }
    lemma_count_concat("Prix : "@, price, '\n');
    lemma_count_concat(desc, "\n"@, '\n');
    lemma_count_concat(desc + "\n"@, "Prix : "@, '\n');
    lemma_count_concat(desc + "\n"@ + "Prix : "@, price, '\n');
    lemma_count_concat(desc + "\n"@ + "Prix : "@ + price, "\n"@, '\n');
    lemma_count_concat(desc + "\n"@ + "Prix : "@ + price + "\n"@, url, '\n');
}

/// A fragment whose date-bearing text holds an invalid token anywhere
/// yields no record and no entry: standing among other fragments, it
/// leaves their contributions untouched.
pub proof fn lemma_invalid_token_drops_fragment(
    frag: Seq<char>,
    t: Seq<char>,
    k: int,
    before: Seq<Seq<char>>,
    after: Seq<Seq<char>>,
)
    requires
        selected_text(frag, date_sel()) == Some(t),
        0 <= k < date_tokens(t).len(),
        !valid_date(token_date(date_tokens(t)[k])),
    ensures
        extract_model(frag) is None,
        frag_entries(frag) == Seq::<EntryView>::empty(),
        entries_of_frags(before + seq![frag] + after) == entries_of_frags(before + after),
{
    assert(range_spec(t) is None);
    assert(!extract_ok(frag));
    assert(frag_entries(frag) =~= Seq::<EntryView>::empty());
    lemma_entries_of_frags_concat(before + seq![frag], after);
    lemma_entries_of_frags_concat(before, seq![frag]);
    lemma_entries_of_frags_concat(before, after);
    assert(entries_of_frags(seq![frag]) =~= Seq::<EntryView>::empty()) by {
        assert(seq![frag].drop_last() =~= Seq::<Seq<char>>::empty());
        assert(entries_of_frags(Seq::<Seq<char>>::empty()) + frag_entries(frag)
            =~= Seq::<EntryView>::empty());
    }
    assert(entries_of_frags(before) + Seq::<EntryView>::empty() =~= entries_of_frags(before));
}

} // verus!
