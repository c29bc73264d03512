//! The episode list of a title: the pages of episodes that the list shows,
//! and the answer that the episode-list call gives.

use crate::dom::{attr, attribute, count, find, load, loaded, node_at, node_count, nth, selected};
use crate::number::{parse_usize, usize_from_text};
use crate::search::or_empty;
use crate::text::{chars_of, opt_view};
use visdom::types::Elements;
use vstd::prelude::*;

verus! {

/// One episode: its number, its id and its title.
pub struct Episode {
    pub index: usize,
    pub id: String,
    pub title: String,
}

/// An episode as plain values: (number, id, title).
pub type EpisodeView = (usize, Seq<char>, Seq<char>);

impl View for Episode {
    type V = EpisodeView;

    open spec fn view(&self) -> EpisodeView {
        (self.index, self.id@, self.title@)
    }
}

/// The views of a list of episodes.
pub open spec fn episode_views(v: Seq<Episode>) -> Seq<EpisodeView> {
    v.map_values(|e: Episode| e@)
}

/// The views of a list of pages of episodes.
pub open spec fn page_views(v: Seq<Vec<Episode>>) -> Seq<Seq<EpisodeView>> {
    v.map_values(|p: Vec<Episode>| episode_views(p@))
}

/// The number of an episode: 0 when its `data-number` attribute is absent,
/// else the number that the attribute spells; none when it spells no
/// `usize`.
pub open spec fn episode_number(number: Option<Seq<char>>) -> Option<usize> {
    match number {
        None => Some(0),
        Some(t) => usize_from_text(t),
    }
}

/// The `j`-th episode of the set `items`: its number, its `data-id` and its
/// `title` attribute; none when its number cannot be read.
pub open spec fn episode_at(items: Elements<'static>, j: int) -> Option<EpisodeView> {
    let node = node_at(items, j);
    match episode_number(attribute(node, "data-number"@)) {
        Some(k) => Some(
            (k, or_empty(attribute(node, "data-id"@)), or_empty(attribute(node, "title"@))),
        ),
        None => None,
    }
}

/// The episodes of one page block, in page order; none when one of them has
/// a number that cannot be read.
pub open spec fn page_episodes(page: Elements<'static>) -> Option<Seq<EpisodeView>> {
    let items = selected(page, ".ssl-item "@);
    if forall|j: int| 0 <= j < node_count(items) ==> #[trigger] episode_at(items, j) is Some {
        Some(Seq::new(node_count(items), |j: int| episode_at(items, j)->0))
    } else {
        None
    }
}

/// The pages of episodes of a document, in page order; none when an
/// episode number cannot be read.
pub open spec fn document_pages(doc: Elements<'static>) -> Option<Seq<Seq<EpisodeView>>> {
    let pages = selected(doc, ".ss-list"@);
    if forall|i: int|
        0 <= i < node_count(pages) ==> #[trigger] page_episodes(node_at(pages, i)) is Some {
        Some(Seq::new(node_count(pages), |i: int| page_episodes(node_at(pages, i))->0))
    } else {
        None
    }
}

/// The pages of episodes that the list `html` shows; none when `visdom`
/// cannot parse it or an episode number cannot be read.
pub open spec fn episode_list_page(html: Seq<char>) -> Option<Seq<Seq<EpisodeView>>> {
    match loaded(html) {
        Some(doc) => document_pages(doc),
        None => None,
    }
}

/// A readable page block gives one episode for each of its `.ssl-item `
/// nodes, in order: the number its `data-number` spells (0 when it has
/// none), its `data-id` and its `title`.  A block gives nothing exactly
/// when one of its nodes has a `data-number` that spells no `usize`.
pub proof fn lemma_page_lists_every_item(page: Elements<'static>)
    ensures
        ({
            let items = selected(page, ".ssl-item "@);
            match page_episodes(page) {
                Some(v) => {
                    &&& v.len() == node_count(items)
                    &&& forall|j: int|
                        0 <= j < v.len() ==> {
                            let node = node_at(items, j);
                            &&& (#[trigger] v[j]).1 == or_empty(attribute(node, "data-id"@))
                            &&& v[j].2 == or_empty(attribute(node, "title"@))
                            &&& match attribute(node, "data-number"@) {
                                None => v[j].0 == 0,
                                Some(t) => usize_from_text(t) == Some(v[j].0),
                            }
                        }
                },
                None => exists|j: int|
                    0 <= j < node_count(items) && match #[trigger] attribute(
                        node_at(items, j),
                        "data-number"@,
                    ) {
                        Some(t) => usize_from_text(t) is None,
                        None => false,
                    },
            }
        }),
{
    let items = selected(page, ".ssl-item "@);
    if !(forall|j: int| 0 <= j < node_count(items) ==> #[trigger] episode_at(items, j) is Some) {
        let j = choose|j: int| 0 <= j < node_count(items) && !(#[trigger] episode_at(items, j) is Some);
        assert(match attribute(node_at(items, j), "data-number"@) {
            Some(t) => usize_from_text(t) is None,
            None => false,
        });
    } else {
        let v = page_episodes(page)->0;
        assert forall|j: int| 0 <= j < v.len() implies {
            let node = node_at(items, j);
            &&& (#[trigger] v[j]).1 == or_empty(attribute(node, "data-id"@))
            &&& v[j].2 == or_empty(attribute(node, "title"@))
            &&& match attribute(node, "data-number"@) {
                None => v[j].0 == 0,
                Some(t) => usize_from_text(t) == Some(v[j].0),
            }
        } by {
            assert(episode_at(items, j) is Some);
        }
    }
}

/// A readable list gives one page for each of its `.ss-list` blocks, in
/// order.
pub proof fn lemma_list_gives_every_block(doc: Elements<'static>)
    ensures
        document_pages(doc) matches Some(v) ==> v.len() == node_count(selected(doc, ".ss-list"@))
            && forall|i: int|
            0 <= i < v.len() ==> Some(#[trigger] v[i]) == page_episodes(
                node_at(selected(doc, ".ss-list"@), i),
            ),
{
    let pages = selected(doc, ".ss-list"@);
    if document_pages(doc) is Some {
        let v = document_pages(doc)->0;
        assert forall|i: int| 0 <= i < v.len() implies Some(#[trigger] v[i]) == page_episodes(
            node_at(pages, i),
        ) by {
            assert(page_episodes(node_at(pages, i)) is Some);
        }
    }
}

fn text_or_empty(o: Option<String>) -> (r: String)
    ensures
        r@ == or_empty(opt_view(o)),
{
    match o {
        Some(s) => s,
        None => String::new(),
    }
}

/// The `j`-th episode of `items`.
pub fn read_episode(items: &Elements<'static>, j: usize) -> (r: Option<Episode>)
    ensures
        match r {
            Some(e) => episode_at(*items, j as int) == Some(e@),
            None => episode_at(*items, j as int) is None,
        },
{
    let node = nth(items, j);
    let index = match attr(&node, "data-number") {
        None => 0,
        Some(t) => match parse_usize(&chars_of(t.as_str())) {
            Some(k) => k,
            None => return None,
        },
    };
    let id = text_or_empty(attr(&node, "data-id"));
    let title = text_or_empty(attr(&node, "title"));
    Some(Episode { index, id, title })
}

/// The episodes of one page block.
pub fn read_page(page: &Elements<'static>) -> (r: Option<Vec<Episode>>)
    ensures
        match r {
            Some(v) => page_episodes(*page) == Some(episode_views(v@)),
            None => page_episodes(*page) is None,
        },
{
    let items = find(page, ".ssl-item ");
    let n = count(&items);
    let mut r: Vec<Episode> = Vec::new();
    let mut j: usize = 0;
    while j < n
        invariant
            j <= n,
            n == node_count(items),
            items == selected(*page, ".ssl-item "@),
            r@.len() == j,
            forall|k: int| 0 <= k < j ==> #[trigger] episode_at(items, k) is Some,
            episode_views(r@) =~= Seq::new(j as nat, |k: int| episode_at(items, k)->0),
        decreases n - j,
    {
        match read_episode(&items, j) {
            Some(e) => {
                let ghost before = r@;
                r.push(e);
                proof {
                    assert forall|k: int| 0 <= k < j + 1 implies #[trigger] episode_views(r@)[k]
                        == episode_at(items, k)->0 by {
                        if k < j {
                            assert(r@[k] == before[k]);
                            assert(episode_views(before)[k] == episode_at(items, k)->0);
                        }
                    }
                }
            },
            None => {
                return None;
            },
        }
        j += 1;
    }
    Some(r)
}

/// The pages of episodes of a document.
pub fn read_pages(doc: &Elements<'static>) -> (r: Option<Vec<Vec<Episode>>>)
    ensures
        match r {
            Some(v) => document_pages(*doc) == Some(page_views(v@)),
            None => document_pages(*doc) is None,
        },
{
    let pages = find(doc, ".ss-list");
    let n = count(&pages);
    let mut r: Vec<Vec<Episode>> = Vec::new();
    let mut i: usize = 0;
    while i < n
        invariant
            i <= n,
            n == node_count(pages),
            pages == selected(*doc, ".ss-list"@),
            r@.len() == i,
            forall|k: int| 0 <= k < i ==> #[trigger] page_episodes(node_at(pages, k)) is Some,
            page_views(r@) =~= Seq::new(i as nat, |k: int| page_episodes(node_at(pages, k))->0),
        decreases n - i,
    {
        let page = nth(&pages, i);
        match read_page(&page) {
            Some(p) => {
                let ghost before = r@;
                r.push(p);
                proof {
                    assert forall|k: int| 0 <= k < i + 1 implies #[trigger] page_views(r@)[k]
                        == page_episodes(node_at(pages, k))->0 by {
                        if k < i {
                            assert(r@[k] == before[k]);
                            assert(page_views(before)[k] == page_episodes(node_at(pages, k))->0);
                        }
                    }
                }
            },
            None => {
                return None;
            },
        }
        i += 1;
    }
    Some(r)
}

/// The pages of episodes that the list `html` shows.
pub fn parse_episode_list(html: &str) -> (r: Option<Vec<Vec<Episode>>>)
    ensures
        match r {
            Some(v) => episode_list_page(html@) == Some(page_views(v@)),
            None => episode_list_page(html@) is None,
        },
{
    match load(html) {
        Some(doc) => read_pages(&doc),
        None => None,
    }
}

/// The answer of the episode-list call: whether the catalogue answered, a
/// message, and the pages of episodes.
pub struct EpisodeListResult {
    pub status: bool,
    pub message: String,
    pub data: Vec<Vec<Episode>>,
}

impl EpisodeListResult {
    /// A call that was not made, for the reason `message`.
    pub fn rejected(message: String) -> (r: EpisodeListResult)
        ensures
            !r.status,
            r.message@ == message@,
            r.data@.len() == 0,
    {
        EpisodeListResult { status: false, message, data: Vec::new() }
    }
}

/// The answer once the catalogue replied: a failed status gives an empty
/// answer; otherwise the `html` field of the reply (empty when there is
/// none) is read for its pages of episodes; `None` when `visdom` cannot
/// parse it or an episode number cannot be read.
pub fn episode_list_outcome(success: bool, html_field: Option<String>) -> (r: Option<
    EpisodeListResult,
>)
    ensures
        !success ==> (r matches Some(a) && !a.status && a.message@.len() == 0 && a.data@.len()
            == 0),
        success ==> match r {
            Some(a) => a.status && a.message@.len() == 0 && episode_list_page(
                or_empty(opt_view(html_field)),
            ) == Some(page_views(a.data@)),
            None => episode_list_page(or_empty(opt_view(html_field))) is None,
        },
{
    if !success {
        return Some(EpisodeListResult { status: false, message: String::new(), data: Vec::new() });
    }
    let html = text_or_empty(html_field);
    match parse_episode_list(html.as_str()) {
        Some(pages) => Some(EpisodeListResult { status: true, message: String::new(), data: pages }),
        None => None,
    }
}

} // verus!
