//! Request planning and page scraping for the hianime.to catalogue and the
//! megacloud.blog stream host.

pub mod dom;
pub mod encode;
pub mod episode_list;
pub mod episode_server;
pub mod number;
pub mod request;
pub mod search;
pub mod stream;
pub mod text;
pub mod token;

use vstd::prelude::*;

verus! {

/// Host of the catalogue site.
pub const SOURCE_HOST: &'static str = "hianime.to";
/// Referer sent to the catalogue site.
pub const SOURCE_REFERER: &'static str = "https://hianime.to/";
/// Host of the stream server.
pub const SERVER_HOST: &'static str = "megacloud.blog";
/// Referer sent to the stream server.
pub const SERVER_REFERER: &'static str = "https://megacloud.blog/";
/// Origin that a player must present to the stream server.
pub const SERVER_ORIGIN: &'static str = "https://megacloud.blog";

/// The message for a call that was given no arguments.
pub fn missing_argument_message() -> (r: String)
    ensures
        r@ == "Expected 1 argument."@,
{
    "Expected 1 argument.".to_owned()
}

} // verus!
