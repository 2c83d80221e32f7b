use vstd::prelude::*;

verus! {

// The structural positions read out of the source site's markup, kept in
// one table so a layout change touches only this file.

/// Selector of the event fragments on an organization page.
pub open spec fn fragment_sel() -> Seq<char> {
    "#event>ul.ActionList>li.Action"@
}

pub fn fragment_sel_str() -> (r: &'static str)
    ensures
        r@ == fragment_sel(),
{
    "#event>ul.ActionList>li.Action"
}

/// Selector of an event's title within its fragment.
pub open spec fn title_sel() -> Seq<char> {
    "a.ActionLink>div.ActionContent>div>h3"@
}

pub fn title_sel_str() -> (r: &'static str)
    ensures
        r@ == title_sel(),
{
    "a.ActionLink>div.ActionContent>div>h3"
}

/// Selector of an event's description within its fragment.
pub open spec fn description_sel() -> Seq<char> {
    "a.ActionLink>div.ActionContent>div>p"@
}

pub fn description_sel_str() -> (r: &'static str)
    ensures
        r@ == description_sel(),
{
    "a.ActionLink>div.ActionContent>div>p"
}

/// Selector of the link element carrying the event's page address.
pub open spec fn link_sel() -> Seq<char> {
    "a.ActionLink"@
}

pub fn link_sel_str() -> (r: &'static str)
    ensures
        r@ == link_sel(),
{
    "a.ActionLink"
}

/// Selector of the date-bearing element within a fragment.
pub open spec fn date_sel() -> Seq<char> {
    "a.ActionLink>div.ActionContent>div>p.Number-Date"@
}

pub fn date_sel_str() -> (r: &'static str)
    ensures
        r@ == date_sel(),
{
    "a.ActionLink>div.ActionContent>div>p.Number-Date"
}

/// Selector of an event's displayed base price.
pub open spec fn price_sel() -> Seq<char> {
    "a.ActionLink>div.ActionContent>div>p.Number-BasePrice"@
}

pub fn price_sel_str() -> (r: &'static str)
    ensures
        r@ == price_sel(),
{
    "a.ActionLink>div.ActionContent>div>p.Number-BasePrice"
}

/// Selector of the venue name within a fragment.
pub open spec fn address_name_sel() -> Seq<char> {
    "a.ActionLink>div.ActionDetails>div.ActionDetails--Data>p.Data-AddressName"@
}

pub fn address_name_sel_str() -> (r: &'static str)
    ensures
        r@ == address_name_sel(),
{
    "a.ActionLink>div.ActionDetails>div.ActionDetails--Data>p.Data-AddressName"
}

/// Selector of the street address within a fragment.
pub open spec fn address_line_sel() -> Seq<char> {
    "a.ActionLink>div.ActionDetails>div.ActionDetails--Data>p.Data-Address"@
}

pub fn address_line_sel_str() -> (r: &'static str)
    ensures
        r@ == address_line_sel(),
{
    "a.ActionLink>div.ActionDetails>div.ActionDetails--Data>p.Data-Address"
}

/// Selector of the city within a fragment.
pub open spec fn address_city_sel() -> Seq<char> {
    "a.ActionLink>div.ActionDetails>div.ActionDetails--Data>p.Data-City"@
}

pub fn address_city_sel_str() -> (r: &'static str)
    ensures
        r@ == address_city_sel(),
{
    "a.ActionLink>div.ActionDetails>div.ActionDetails--Data>p.Data-City"
}

/// The markup of each element of a page that matches a selector, in
/// document order; empty when the selector does not parse.
pub uninterp spec fn selected_fragments(page: Seq<char>, sel: Seq<char>) -> Seq<Seq<char>>;

/// The trimmed text of the first element of a markup fragment that
/// matches a selector, or nothing when no element matches or the
/// selector does not parse.
pub uninterp spec fn selected_text(frag: Seq<char>, sel: Seq<char>) -> Option<Seq<char>>;

/// The value of an attribute on the first element of a markup fragment
/// that matches a selector, or nothing when no element matches, the
/// attribute is absent, or the selector does not parse.
pub uninterp spec fn selected_attr(frag: Seq<char>, sel: Seq<char>, attr: Seq<char>) -> Option<
    Seq<char>,
>;

/// Relies on scraper's `Html::parse_document`, `Selector::parse` and
/// `ElementRef::html`: parsing a page and serializing the elements
/// matched by a selector depend on the page text and the selector alone.
#[verifier::external_body]
pub(crate) fn select_fragments(page: &str, sel: &str) -> (r: Vec<String>)
    ensures
        r@.len() == selected_fragments(page@, sel@).len(),
        forall|i: int|
            0 <= i < r@.len() ==> (#[trigger] r@[i])@ == selected_fragments(page@, sel@)[i],
{
    let doc = scraper::Html::parse_document(page);
    match scraper::Selector::parse(sel) {
        Ok(s) => doc.select(&s).map(|el| el.html()).collect(),
        Err(_) => Vec::new(),
    }
}

/// Relies on scraper's `Html::parse_fragment`, `Selector::parse` and
/// `ElementRef::text`, with `str::trim`: the trimmed text under the
/// first matched element depends on the fragment and the selector alone.
#[verifier::external_body]
pub(crate) fn select_first_text(frag: &str, sel: &str) -> (r: Option<String>)
    ensures
        r is Some <==> selected_text(frag@, sel@) is Some,
        r matches Some(t) ==> t@ == selected_text(frag@, sel@)->Some_0,
{
    let doc = scraper::Html::parse_fragment(frag);
    match scraper::Selector::parse(sel) {
        Ok(s) => doc.select(&s).next().map(
            |el| el.text().collect::<String>().trim().to_string(),
        ),
        Err(_) => None,
    }
}

/// Relies on scraper's `Html::parse_fragment`, `Selector::parse` and
/// `ElementRef::attr`: the value of an attribute on the first matched
/// element depends on the fragment, the selector and the attribute name
/// alone.
#[verifier::external_body]
pub(crate) fn select_first_attr(frag: &str, sel: &str, attr: &str) -> (r: Option<String>)
    ensures
        r is Some <==> selected_attr(frag@, sel@, attr@) is Some,
        r matches Some(t) ==> t@ == selected_attr(frag@, sel@, attr@)->Some_0,
{
    let doc = scraper::Html::parse_fragment(frag);
    match scraper::Selector::parse(sel) {
        Ok(s) => doc.select(&s).next().and_then(|el| el.attr(attr).map(|a| a.to_string())),
        Err(_) => None,
    }
}

} // verus!
