//! The HTTP requests that the scraper makes: where each one goes and which
//! `Referer` and `Host` headers it carries.

use crate::encode::{url_encode, url_encoded, is_unreserved_char, lemma_unreserved_text_kept};
use crate::number::{format_isize, signed_decimal, lemma_decimal_spells, is_digit};
use crate::text::{chars_of, is_blank, is_blank_seq, push_str, push_chars};
use crate::{SERVER_HOST, SERVER_REFERER, SOURCE_HOST, SOURCE_REFERER};
use vstd::prelude::*;

verus! {

/// A GET request: its URL and the values of its `Referer` and `Host`
/// headers.
pub struct Request {
    pub url: String,
    pub referer: String,
    pub host: String,
}

/// The URL of the catalogue search for `search`, page `page`: a blank search
/// is written `+`, any other is percent-encoded, and so is the page number.
pub open spec fn search_url(search: Seq<char>, page: int) -> Seq<char> {
    "https://"@ + SOURCE_HOST@ + "/search?keyword="@ + (if is_blank_seq(search) {
        "+"@
    } else {
        url_encoded(search)
    }) + "&page="@ + url_encoded(signed_decimal(page))
}

/// The URL of the episode list of the title `id`.
pub open spec fn episode_list_url(id: Seq<char>) -> Seq<char> {
    "https://"@ + SOURCE_HOST@ + "/ajax/v2/episode/list/"@ + url_encoded(id)
}

/// The URL of the server list of the episode `id`.
pub open spec fn episode_servers_url(id: Seq<char>) -> Seq<char> {
    "https://"@ + SOURCE_HOST@ + "/ajax/v2/episode/servers?episodeId="@ + url_encoded(id)
}

/// The URL that tells where the server `id` forwards to (the id goes in
/// as it is).
pub open spec fn episode_sources_url(id: Seq<char>) -> Seq<char> {
    "https://"@ + SOURCE_HOST@ + "/ajax/v2/episode/sources?id="@ + id
}

/// The URL of the player page of the forwarded id.
pub open spec fn embed_url(forward_id: Seq<char>) -> Seq<char> {
    "https://"@ + SERVER_HOST@ + "/embed-2/v3/e-1/"@ + forward_id + "?k=1"@
}

/// The URL of the stream sources of the forwarded id, unlocked by `token`.
pub open spec fn stream_sources_url(forward_id: Seq<char>, token: Seq<char>) -> Seq<char> {
    "https://"@ + SERVER_HOST@ + "/embed-2/v3/e-1/getSources?id="@ + forward_id + "&_k="@ + token
}

/// A request to the catalogue site.
pub open spec fn is_catalogue_request(r: Request, url: Seq<char>) -> bool {
    &&& r.url@ == url
    &&& r.referer@ == SOURCE_REFERER@
    &&& r.host@ == SOURCE_HOST@
}

/// A request to the stream server.
pub open spec fn is_stream_request(r: Request, url: Seq<char>) -> bool {
    &&& r.url@ == url
    &&& r.referer@ == SERVER_REFERER@
    &&& r.host@ == SERVER_HOST@
}

fn catalogue_request(url: String) -> (r: Request)
    ensures
        is_catalogue_request(r, url@),
{
    Request { url, referer: SOURCE_REFERER.to_owned(), host: SOURCE_HOST.to_owned() }
}

fn stream_request(url: String) -> (r: Request)
    ensures
        is_stream_request(r, url@),
{
    Request { url, referer: SERVER_REFERER.to_owned(), host: SERVER_HOST.to_owned() }
}

/// The decimal text of a number is left as it is by the encoding.
pub proof fn lemma_number_text_kept(n: int)
    ensures
        url_encoded(signed_decimal(n)) == signed_decimal(n),
{
    let m: nat = if n < 0 {
        (-n) as nat
    } else {
        n as nat
    };
    lemma_decimal_spells(m);
    let s = signed_decimal(n);
    assert forall|i: int| 0 <= i < s.len() implies #[trigger] is_unreserved_char(s[i]) by {
        if n < 0 {
            if i > 0 {
                assert(s[i] == crate::number::decimal(m)[i - 1]);
                assert(is_digit(crate::number::decimal(m)[i - 1]));
            }
        } else {
            assert(is_digit(crate::number::decimal(m)[i]));
        }
    }
    lemma_unreserved_text_kept(s);
}

/// The catalogue search for `search`, page `page`.
pub fn search_request(search: &str, page: isize) -> (r: Request)
    ensures
        is_catalogue_request(r, search_url(search@, page as int)),
{
    let mut url = String::new();
    push_str(&mut url, "https://");
    push_str(&mut url, SOURCE_HOST);
    push_str(&mut url, "/search?keyword=");
    let chars = chars_of(search);
    if is_blank(&chars) {
        push_str(&mut url, "+");
    } else {
        let encoded = url_encode(search);
        push_str(&mut url, encoded.as_str());
    }
    push_str(&mut url, "&page=");
    let page_text = crate::text::string_of(&format_isize(page));
    let page_encoded = url_encode(page_text.as_str());
    push_str(&mut url, page_encoded.as_str());
    assert(url@ =~= search_url(search@, page as int));
    catalogue_request(url)
}

/// The episode list of the title `id`.
pub fn episode_list_request(id: &str) -> (r: Request)
    ensures
        is_catalogue_request(r, episode_list_url(id@)),
{
    let mut url = String::new();
    push_str(&mut url, "https://");
    push_str(&mut url, SOURCE_HOST);
    push_str(&mut url, "/ajax/v2/episode/list/");
    let encoded = url_encode(id);
    push_str(&mut url, encoded.as_str());
    assert(url@ =~= episode_list_url(id@));
    catalogue_request(url)
}

/// The server list of the episode `id`.
pub fn episode_servers_request(id: &str) -> (r: Request)
    ensures
        is_catalogue_request(r, episode_servers_url(id@)),
{
    let mut url = String::new();
    push_str(&mut url, "https://");
    push_str(&mut url, SOURCE_HOST);
    push_str(&mut url, "/ajax/v2/episode/servers?episodeId=");
    let encoded = url_encode(id);
    push_str(&mut url, encoded.as_str());
    assert(url@ =~= episode_servers_url(id@));
    catalogue_request(url)
}

/// Where the server `id` forwards to.
pub fn episode_sources_request(id: &str) -> (r: Request)
    ensures
        is_catalogue_request(r, episode_sources_url(id@)),
{
    let mut url = String::new();
    push_str(&mut url, "https://");
    push_str(&mut url, SOURCE_HOST);
    push_str(&mut url, "/ajax/v2/episode/sources?id=");
    push_str(&mut url, id);
    assert(url@ =~= episode_sources_url(id@));
    catalogue_request(url)
}

/// The player page of the forwarded id.
pub fn embed_request(forward_id: &Vec<char>) -> (r: Request)
    ensures
        is_stream_request(r, embed_url(forward_id@)),
{
    let mut url = String::new();
    push_str(&mut url, "https://");
    push_str(&mut url, SERVER_HOST);
    push_str(&mut url, "/embed-2/v3/e-1/");
    push_chars(&mut url, forward_id);
    push_str(&mut url, "?k=1");
    assert(url@ =~= embed_url(forward_id@));
    stream_request(url)
}

/// The stream sources of the forwarded id, unlocked by `token`.
pub fn stream_sources_request(forward_id: &Vec<char>, token: &Vec<char>) -> (r: Request)
    ensures
        is_stream_request(r, stream_sources_url(forward_id@, token@)),
{
    let mut url = String::new();
    push_str(&mut url, "https://");
    push_str(&mut url, SERVER_HOST);
    push_str(&mut url, "/embed-2/v3/e-1/getSources?id=");
    push_chars(&mut url, forward_id);
    push_str(&mut url, "&_k=");
    push_chars(&mut url, token);
    assert(url@ =~= stream_sources_url(forward_id@, token@));
    stream_request(url)
}

} // verus!
