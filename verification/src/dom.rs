//! Read-only queries on an HTML document, made by the `visdom` crate.
//!
//! A document, and every set of nodes selected from it, is a
//! `visdom::types::Elements` value, which Verus sees as opaque.  Each query
//! is a function of the node set and of its other arguments alone, so each
//! one gets a name below; the wrappers state that the call returns the named
//! value, plus the few facts that `visdom`'s source shows for an empty node
//! set.

use visdom::types::Elements;
use visdom::Vis;
use crate::text::opt_view;
use vstd::prelude::*;

verus! {

#[verifier::external_type_specification]
#[verifier::external_body]
pub struct ExElements<'a>(Elements<'a>);

/// The document that `Vis::load` builds from `html`, when it accepts it.
pub uninterp spec fn loaded(html: Seq<char>) -> Option<Elements<'static>>;

/// How many nodes the set holds (`Elements::length`).
pub uninterp spec fn node_count(e: Elements<'static>) -> nat;

/// The descendants of the set that match `selector` (`Elements::find`).
pub uninterp spec fn selected(e: Elements<'static>, selector: Seq<char>) -> Elements<'static>;

/// The set made of the node at `index` alone, or an empty set
/// (`Elements::eq`).
pub uninterp spec fn node_at(e: Elements<'static>, index: int) -> Elements<'static>;

/// The value of attribute `name` of the first node of the set, as text
/// (`Elements::attr`, then `to_string`).
pub uninterp spec fn attribute(e: Elements<'static>, name: Seq<char>) -> Option<Seq<char>>;

/// The text content of the nodes of the set, one after the other
/// (`Elements::text`).
pub uninterp spec fn text_content(e: Elements<'static>) -> Seq<char>;

/// The selectors that this crate queries with.  `visdom` parses each of
/// them; on an empty node set, `Elements::find` panics on a selector that it
/// cannot parse, so only these are handed to it.
pub open spec fn known_selector(s: Seq<char>) -> bool {
    ||| s == ".flw-item"@
    ||| s == ".film-poster"@
    ||| s == "img"@
    ||| s == "a"@
    ||| s == ".film-detail"@
    ||| s == ".film-name"@
    ||| s == ".ss-list"@
    ||| s == ".ssl-item "@
    ||| s == ".ps_-block"@
    ||| s == ".ps__-title"@
    ||| s == ".ps__-list"@
    ||| s == ".server-item"@
    ||| s == "meta[name=\"_gg_fb\"]"@
    ||| s == "script[nonce]"@
    ||| s == "div[data-dpi]"@
    ||| s == "script"@
}

/// Parses `html` (`Vis::load`); `None` where `visdom` reports an error.
#[verifier::external_body]
pub fn load(html: &str) -> (r: Option<Elements<'static>>)
    ensures
        r == loaded(html@),
{
    Vis::load(html.to_string()).ok()
}

/// The number of nodes in the set (`Elements::length`).
#[verifier::external_body]
pub fn count(e: &Elements<'static>) -> (r: usize)
    ensures
        r == node_count(*e),
{
    e.length()
}

/// The descendants that match `selector` (`Elements::find`), for one of the
/// selectors above.  An empty set gives an empty set.
#[verifier::external_body]
pub fn find(e: &Elements<'static>, selector: &str) -> (r: Elements<'static>)
    requires
        known_selector(selector@),
    ensures
        r == selected(*e, selector@),
        node_count(*e) == 0 ==> node_count(r) == 0,
{
    e.find(selector)
}

/// The node at `index`, as a set of its own (`Elements::eq`): one node when
/// `index` is in range, none otherwise.
#[verifier::external_body]
pub fn nth(e: &Elements<'static>, index: usize) -> (r: Elements<'static>)
    ensures
        r == node_at(*e, index as int),
        node_count(r) == (if index < node_count(*e) { 1nat } else { 0nat }),
{
    e.eq(index)
}

/// The attribute `name` of the first node (`Elements::attr`), as text; none
/// for an empty set.
#[verifier::external_body]
pub fn attr(e: &Elements<'static>, name: &str) -> (r: Option<String>)
    ensures
        opt_view(r) == attribute(*e, name@),
        node_count(*e) == 0 ==> r is None,
{
    e.attr(name).map(|v| v.to_string())
}

/// The text content of the set (`Elements::text`); empty for an empty set.
#[verifier::external_body]
pub fn text(e: &Elements<'static>) -> (r: String)
    ensures
        r@ == text_content(*e),
        node_count(*e) == 0 ==> r@.len() == 0,
{
    e.text()
}

} // verus!
