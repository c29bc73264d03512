//! The catalogue search: which titles a result page lists, and the answer
//! that the search gives.

use crate::dom::{attr, count, find, load, loaded, node_at, node_count, nth, selected, text, attribute, text_content};
use crate::text::opt_view;
use visdom::types::Elements;
use vstd::prelude::*;

verus! {

/// A title as the result page shows it: its id, its name and the URL of
/// its cover picture.
pub struct SearchItem {
    pub id: String,
    pub title: String,
    pub cover: String,
}

/// A title as plain text: (id, title, cover).
pub type ItemView = (Seq<char>, Seq<char>, Seq<char>);

impl View for SearchItem {
    type V = ItemView;

    open spec fn view(&self) -> ItemView {
        (self.id@, self.title@, self.cover@)
    }
}

/// The views of a list of titles.
pub open spec fn item_views(v: Seq<SearchItem>) -> Seq<ItemView> {
    v.map_values(|x: SearchItem| x@)
}

/// A card is listed when its id, its title and its cover are all non-empty.
pub open spec fn is_listed(t: ItemView) -> bool {
    t.0.len() > 0 && t.1.len() > 0 && t.2.len() > 0
}

/// The listed cards, in page order.
pub open spec fn listed(cards: Seq<ItemView>) -> Seq<ItemView> {
    cards.filter(|t: ItemView| is_listed(t))
}

/// A present attribute, or the empty text.
pub open spec fn or_empty(o: Option<Seq<char>>) -> Seq<char> {
    match o {
        Some(s) => s,
        None => Seq::empty(),
    }
}

/// What the page shows of the `i`-th card of the set `cards`: the
/// `data-id` of its poster link, the text of its title link and the
/// `data-src` of its poster picture.
pub open spec fn card_at(cards: Elements<'static>, i: int) -> ItemView {
    let node = node_at(cards, i);
    let poster = selected(node, ".film-poster"@);
    let cover = attribute(selected(poster, "img"@), "data-src"@);
    let id = attribute(selected(poster, "a"@), "data-id"@);
    let title = text_content(
        selected(selected(selected(node, ".film-detail"@), ".film-name"@), "a"@),
    );
    (or_empty(id), title, or_empty(cover))
}

/// The cards of a result page, in page order.
pub open spec fn page_cards(doc: Elements<'static>) -> Seq<ItemView> {
    let cards = selected(doc, ".flw-item"@);
    Seq::new(node_count(cards), |i: int| card_at(cards, i))
}

/// The titles that a result page lists; none when the page cannot be
/// parsed.
pub open spec fn search_page(html: Seq<char>) -> Option<Seq<ItemView>> {
    match loaded(html) {
        Some(doc) => Some(listed(page_cards(doc))),
        None => None,
    }
}

fn text_or_empty(o: Option<String>) -> (r: String)
    ensures
        r@ == or_empty(opt_view(o)),
{
    match o {
        Some(s) => s,
        None => String::new(),
    }
}

/// What the page shows of the `i`-th card of `cards`.
pub fn read_card(cards: &Elements<'static>, i: usize) -> (r: SearchItem)
    ensures
        r@ == card_at(*cards, i as int),
{
    let node = nth(cards, i);
    let cover = text_or_empty(attr(&find(&find(&node, ".film-poster"), "img"), "data-src"));
    let id = text_or_empty(attr(&find(&find(&node, ".film-poster"), "a"), "data-id"));
    let title = text(&find(&find(&find(&node, ".film-detail"), ".film-name"), "a"));
    SearchItem { id, title, cover }
}

/// Every card of a result page, listed or not, in page order.
pub fn read_cards(doc: &Elements<'static>) -> (r: Vec<SearchItem>)
    ensures
        item_views(r@) == page_cards(*doc),
{
    let cards = find(doc, ".flw-item");
    let n = count(&cards);
    let mut r: Vec<SearchItem> = Vec::new();
    let mut i: usize = 0;
    while i < n
        invariant
            i <= n,
            n == node_count(cards),
            cards == selected(*doc, ".flw-item"@),
            r@.len() == i,
            item_views(r@) =~= Seq::new(i as nat, |k: int| card_at(cards, k)),
        decreases n - i,
    {
        let item = read_card(&cards, i);
        let ghost before = r@;
        r.push(item);
        proof {
            assert forall|k: int| 0 <= k < i + 1 implies #[trigger] item_views(r@)[k] == card_at(
                cards,
                k,
            ) by {
                if k < i {
                    assert(r@[k] == before[k]);
                    assert(item_views(before)[k] == card_at(cards, k));
                }
            }
        }
        i += 1;
    }
    r
}

/// The listed cards among `cards`: those whose id, title and cover are all
/// non-empty, in their order.
pub fn listed_items(cards: &Vec<SearchItem>) -> (r: Vec<SearchItem>)
    ensures
        item_views(r@) == listed(item_views(cards@)),
{
    let ghost all = item_views(cards@);
    let mut r: Vec<SearchItem> = Vec::new();
    let mut i: usize = 0;
    while i < cards.len()
        invariant
            i <= cards.len(),
            all == item_views(cards@),
            item_views(r@) =~= listed(all.take(i as int)),
        decreases cards.len() - i,
    {
        proof {
            reveal(Seq::filter);
            assert(all.take(i + 1).drop_last() =~= all.take(i as int));
            assert(all.take(i + 1).last() == cards@[i as int]@);
        }
        let c = &cards[i];
        if !c.id.as_str().is_empty() && !c.title.as_str().is_empty() && !c.cover.as_str().is_empty() {
            r.push(SearchItem { id: c.id.clone(), title: c.title.clone(), cover: c.cover.clone() });
        }
        i += 1;
    }
    assert(all.take(cards.len() as int) =~= all);
    r
}

/// The titles that the result page `html` lists, in page order; `None`
/// when `visdom` cannot parse the page.
pub fn parse_search_page(html: &str) -> (r: Option<Vec<SearchItem>>)
    ensures
        match r {
            Some(v) => search_page(html@) == Some(item_views(v@)),
            None => search_page(html@) is None,
        },
{
    match load(html) {
        Some(doc) => {
            let cards = read_cards(&doc);
            Some(listed_items(&cards))
        },
        None => None,
    }
}

/// Every listed card has a non-empty id, title and cover.
pub proof fn lemma_listed_are_complete(cards: Seq<ItemView>)
    ensures
        forall|i: int| 0 <= i < listed(cards).len() ==> is_listed(#[trigger] listed(cards)[i]),
{
    broadcast use vstd::seq_lib::group_filter_ensures;
}

/// A complete card is listed, and nothing else is: listing keeps exactly
/// the complete cards, and keeps every card of a list of complete ones.
pub proof fn lemma_complete_cards_kept(cards: Seq<ItemView>)
    requires
        forall|i: int| 0 <= i < cards.len() ==> is_listed(#[trigger] cards[i]),
    ensures
        listed(cards) == cards,
    decreases cards.len(),
{
    reveal(Seq::filter);
    if cards.len() > 0 {
        lemma_complete_cards_kept(cards.drop_last());
        assert(is_listed(cards[cards.len() - 1]));
        assert(cards.drop_last().push(cards.last()) =~= cards);
    }
}

/// A result page is read card by card: one entry for each `.flw-item`
/// node, in page order, carrying the `data-id` of the node's poster link,
/// the text of its title link and the `data-src` of its poster picture.
pub proof fn lemma_every_card_read(doc: Elements<'static>)
    ensures
        page_cards(doc).len() == node_count(selected(doc, ".flw-item"@)),
        forall|i: int|
            0 <= i < page_cards(doc).len() ==> {
                let node = node_at(selected(doc, ".flw-item"@), i);
                let poster = selected(node, ".film-poster"@);
                &&& (#[trigger] page_cards(doc)[i]).0 == or_empty(
                    attribute(selected(poster, "a"@), "data-id"@),
                )
                &&& page_cards(doc)[i].1 == text_content(
                    selected(selected(selected(node, ".film-detail"@), ".film-name"@), "a"@),
                )
                &&& page_cards(doc)[i].2 == or_empty(
                    attribute(selected(poster, "img"@), "data-src"@),
                )
            },
{
}

/// Every card of a page whose id, title and cover are all non-empty is
/// among the titles listed, and every title listed is such a card.
pub proof fn lemma_complete_cards_listed(cards: Seq<ItemView>)
    ensures
        forall|i: int|
            0 <= i < cards.len() && cards[i].0.len() > 0 && cards[i].1.len() > 0
                && cards[i].2.len() > 0 ==> #[trigger] listed(cards).contains(cards[i]),
        forall|t: ItemView|
            #[trigger] listed(cards).contains(t) ==> cards.contains(t) && t.0.len() > 0
                && t.1.len() > 0 && t.2.len() > 0,
{
    broadcast use vstd::seq_lib::group_filter_ensures;
    assert forall|t: ItemView| #[trigger] listed(cards).contains(t) implies cards.contains(t)
        && t.0.len() > 0 && t.1.len() > 0 && t.2.len() > 0 by {
        cards.lemma_filter_contains_rev(|t: ItemView| is_listed(t), t);
        let k = choose|k: int| 0 <= k < listed(cards).len() && listed(cards)[k] == t;
        cards.lemma_filter_pred(|t: ItemView| is_listed(t), k);
    }
}

/// The answer of a search: whether the catalogue answered, a message, and
/// the titles found.
pub struct SearchResult {
    pub status: bool,
    pub message: String,
    pub data: Vec<SearchItem>,
}

impl SearchResult {
    /// A search that was not made, for the reason `message`.
    pub fn rejected(message: String) -> (r: SearchResult)
        ensures
            !r.status,
            r.message@ == message@,
            r.data@.len() == 0,
    {
        SearchResult { status: false, message, data: Vec::new() }
    }
}

/// The message for arguments that could not be read, with `detail` saying
/// why.
pub fn invalid_arguments_message(detail: &str) -> (r: String)
    ensures
        r@ == "Invalid arguments: "@ + detail@,
{
    let mut m = String::new();
    crate::text::push_str(&mut m, "Invalid arguments: ");
    crate::text::push_str(&mut m, detail);
    m
}

/// The answer of a search once the catalogue replied: a failed status gives
/// an empty answer; a page gives the titles it lists; `None` when `visdom`
/// cannot parse the page.
pub fn search_outcome(success: bool, html: &str) -> (r: Option<SearchResult>)
    ensures
        !success ==> (r matches Some(a) && !a.status && a.message@.len() == 0 && a.data@.len() == 0),
        success ==> match r {
            Some(a) => a.status && a.message@.len() == 0 && search_page(html@) == Some(
                item_views(a.data@),
            ),
            None => search_page(html@) is None,
        },
{
    if !success {
        return Some(SearchResult { status: false, message: String::new(), data: Vec::new() });
    }
    match parse_search_page(html) {
        Some(items) => Some(SearchResult { status: true, message: String::new(), data: items }),
        None => None,
    }
}

} // verus!
