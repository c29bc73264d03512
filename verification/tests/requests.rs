use hianime::request::{
    embed_request, episode_list_request, episode_servers_request, episode_sources_request,
    search_request, stream_sources_request,
};
use hianime::{missing_argument_message, SERVER_HOST, SERVER_ORIGIN, SERVER_REFERER, SOURCE_HOST, SOURCE_REFERER};

fn chars(s: &str) -> Vec<char> {
    s.chars().collect()
}

#[test]
fn constants_name_the_two_sites() {
    assert_eq!(SOURCE_HOST, "hianime.to");
    assert_eq!(SOURCE_REFERER, "https://hianime.to/");
    assert_eq!(SERVER_HOST, "megacloud.blog");
    assert_eq!(SERVER_REFERER, "https://megacloud.blog/");
    assert_eq!(SERVER_ORIGIN, "https://megacloud.blog");
}

#[test]
fn search_url_encodes_keyword_and_page() {
    let r = search_request("one piece", 2);
    assert_eq!(r.url, "https://hianime.to/search?keyword=one%20piece&page=2");
    assert_eq!(r.referer, "https://hianime.to/");
    assert_eq!(r.host, "hianime.to");
}

#[test]
fn search_url_blank_keyword_is_plus() {
    assert_eq!(search_request("", 1).url, "https://hianime.to/search?keyword=+&page=1");
    assert_eq!(search_request(" \t\n", 1).url, "https://hianime.to/search?keyword=+&page=1");
    assert_eq!(search_request("\u{3000}", 1).url, "https://hianime.to/search?keyword=+&page=1");
}

#[test]
fn search_url_keeps_spaces_inside_a_keyword() {
    assert_eq!(
        search_request(" a ", 1).url,
        "https://hianime.to/search?keyword=%20a%20&page=1"
    );
}

#[test]
fn search_url_encodes_utf8_bytes() {
    assert_eq!(
        search_request("über/ß", 10).url,
        "https://hianime.to/search?keyword=%C3%BCber%2F%C3%9F&page=10"
    );
    assert_eq!(
        search_request("a-b_c.d~e", 3).url,
        "https://hianime.to/search?keyword=a-b_c.d~e&page=3"
    );
}

#[test]
fn search_url_page_numbers() {
    assert_eq!(search_request("x", 0).url, "https://hianime.to/search?keyword=x&page=0");
    assert_eq!(search_request("x", -3).url, "https://hianime.to/search?keyword=x&page=-3");
    assert_eq!(
        search_request("x", isize::MIN).url,
        format!("https://hianime.to/search?keyword=x&page={}", isize::MIN)
    );
    assert_eq!(
        search_request("x", isize::MAX).url,
        format!("https://hianime.to/search?keyword=x&page={}", isize::MAX)
    );
}

#[test]
fn episode_list_url() {
    let r = episode_list_request("100");
    assert_eq!(r.url, "https://hianime.to/ajax/v2/episode/list/100");
    assert_eq!(r.referer, "https://hianime.to/");
    assert_eq!(r.host, "hianime.to");
    assert_eq!(
        episode_list_request("a b&c").url,
        "https://hianime.to/ajax/v2/episode/list/a%20b%26c"
    );
}

#[test]
fn episode_servers_url() {
    let r = episode_servers_request("141568");
    assert_eq!(r.url, "https://hianime.to/ajax/v2/episode/servers?episodeId=141568");
    assert_eq!(r.host, "hianime.to");
    assert_eq!(
        episode_servers_request("1?2").url,
        "https://hianime.to/ajax/v2/episode/servers?episodeId=1%3F2"
    );
}

#[test]
fn episode_sources_url_is_not_encoded() {
    let r = episode_sources_request("672865");
    assert_eq!(r.url, "https://hianime.to/ajax/v2/episode/sources?id=672865");
    assert_eq!(
        episode_sources_request("a b").url,
        "https://hianime.to/ajax/v2/episode/sources?id=a b"
    );
}

#[test]
fn stream_server_urls() {
    let e = embed_request(&chars("AbC123"));
    assert_eq!(e.url, "https://megacloud.blog/embed-2/v3/e-1/AbC123?k=1");
    assert_eq!(e.referer, "https://megacloud.blog/");
    assert_eq!(e.host, "megacloud.blog");
    let s = stream_sources_request(&chars("AbC123"), &chars("tok"));
    assert_eq!(s.url, "https://megacloud.blog/embed-2/v3/e-1/getSources?id=AbC123&_k=tok");
    assert_eq!(s.referer, "https://megacloud.blog/");
    assert_eq!(s.host, "megacloud.blog");
}

#[test]
fn missing_argument_text() {
    assert_eq!(missing_argument_message(), "Expected 1 argument.");
}
