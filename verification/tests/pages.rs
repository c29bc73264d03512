use hianime::episode_list::{episode_list_outcome, parse_episode_list, EpisodeListResult};
use hianime::episode_server::{episode_server_outcome, parse_episode_servers, ServerEntry, ServerGroups, EpisodeServerResult};
use hianime::search::{invalid_arguments_message, listed_items, parse_search_page, search_outcome, SearchItem, SearchResult};

const SEARCH_PAGE: &str = r#"
<div class="film_list-wrap">
  <div class="flw-item">
    <div class="film-poster">
      <img class="film-poster-img" data-src="https://img/one.jpg" />
      <a href="/one-piece-100" class="film-poster-ahref" data-id="100"></a>
    </div>
    <div class="film-detail">
      <h3 class="film-name"><a href="/one-piece-100">One Piece</a></h3>
    </div>
  </div>
  <div class="flw-item">
    <div class="film-poster">
      <img class="film-poster-img" data-src="" />
      <a href="/no-cover-7" data-id="7"></a>
    </div>
    <div class="film-detail"><h3 class="film-name"><a>No Cover</a></h3></div>
  </div>
  <div class="flw-item">
    <div class="film-poster">
      <img data-src="https://img/two.jpg" />
      <a href="/two"></a>
    </div>
    <div class="film-detail"><h3 class="film-name"><a>No Id</a></h3></div>
  </div>
  <div class="flw-item">
    <div class="film-poster">
      <img data-src="https://img/three.jpg" />
      <a data-id="3"></a>
    </div>
    <div class="film-detail"><h3 class="film-name"><a></a></h3></div>
  </div>
  <div class="flw-item">
    <div class="film-poster">
      <img data-src="https://img/four.jpg" />
      <a data-id="4"></a>
    </div>
    <div class="film-detail"><h3 class="film-name"><a>Four</a></h3></div>
  </div>
</div>
"#;

fn item(id: &str, title: &str, cover: &str) -> SearchItem {
    SearchItem { id: id.to_string(), title: title.to_string(), cover: cover.to_string() }
}

fn triples(v: &[SearchItem]) -> Vec<(String, String, String)> {
    v.iter().map(|i| (i.id.clone(), i.title.clone(), i.cover.clone())).collect()
}

#[test]
fn search_page_lists_complete_cards_in_order() {
    let items = parse_search_page(SEARCH_PAGE).expect("page parses");
    assert_eq!(
        triples(&items),
        vec![
            ("100".to_string(), "One Piece".to_string(), "https://img/one.jpg".to_string()),
            ("4".to_string(), "Four".to_string(), "https://img/four.jpg".to_string()),
        ]
    );
}

#[test]
fn search_page_without_cards_is_empty() {
    let items = parse_search_page("<html><body><p>nothing</p></body></html>").unwrap();
    assert!(items.is_empty());
    let items = parse_search_page("").unwrap();
    assert!(items.is_empty());
}

#[test]
fn listing_drops_incomplete_cards() {
    let cards = vec![
        item("1", "A", "c"),
        item("", "B", "c"),
        item("3", "", "c"),
        item("4", "D", ""),
        item("5", "E", "c"),
    ];
    assert_eq!(
        triples(&listed_items(&cards)),
        vec![
            ("1".to_string(), "A".to_string(), "c".to_string()),
            ("5".to_string(), "E".to_string(), "c".to_string())
        ]
    );
    let complete = vec![item("1", "A", "c"), item("2", "B", "d")];
    assert_eq!(triples(&listed_items(&complete)), triples(&complete));
}

#[test]
fn search_outcome_on_failed_status_is_empty() {
    let r: SearchResult = search_outcome(false, SEARCH_PAGE).unwrap();
    assert!(!r.status);
    assert_eq!(r.message, "");
    assert!(r.data.is_empty());
}

#[test]
fn search_outcome_on_success() {
    let r = search_outcome(true, SEARCH_PAGE).unwrap();
    assert!(r.status);
    assert_eq!(r.message, "");
    assert_eq!(r.data.len(), 2);
}

#[test]
fn search_rejections() {
    let r = SearchResult::rejected("Expected 1 argument.".to_string());
    assert!(!r.status);
    assert_eq!(r.message, "Expected 1 argument.");
    assert!(r.data.is_empty());
    assert_eq!(invalid_arguments_message("missing field `page`"), "Invalid arguments: missing field `page`");
}

const EPISODE_LIST: &str = r#"
<div class="seasons-block">
  <div class="ss-list" data-page="1">
    <a class="ssl-item ep-item" data-number="1" data-id="2142" title="Romance Dawn" href="/w"></a>
    <a class="ssl-item ep-item" data-number="2" data-id="2143" title="Enter the Great Swordsman" href="/w"></a>
  </div>
  <div class="ss-list" data-page="2">
    <a class="ssl-item ep-item" data-id="2144" href="/w"></a>
  </div>
  <div class="ss-list" data-page="3"></div>
</div>
"#;

#[test]
fn episode_list_reads_pages_in_order() {
    let pages = parse_episode_list(EPISODE_LIST).unwrap();
    assert_eq!(pages.len(), 3);
    assert_eq!(pages[0].len(), 2);
    assert_eq!(pages[0][0].index, 1);
    assert_eq!(pages[0][0].id, "2142");
    assert_eq!(pages[0][0].title, "Romance Dawn");
    assert_eq!(pages[0][1].index, 2);
    assert_eq!(pages[0][1].id, "2143");
    assert_eq!(pages[0][1].title, "Enter the Great Swordsman");
    // an episode without a number counts as number 0, without a title as ""
    assert_eq!(pages[1].len(), 1);
    assert_eq!(pages[1][0].index, 0);
    assert_eq!(pages[1][0].id, "2144");
    assert_eq!(pages[1][0].title, "");
    assert!(pages[2].is_empty());
}

#[test]
fn episode_list_with_unreadable_number_gives_nothing() {
    let html = r#"<div class="ss-list"><a class="ssl-item" data-number="x1" data-id="1"></a></div>"#;
    assert!(parse_episode_list(html).is_none());
    let html = r#"<div class="ss-list"><a class="ssl-item" data-number="-1" data-id="1"></a></div>"#;
    assert!(parse_episode_list(html).is_none());
    let html = r#"<div class="ss-list"><a class="ssl-item" data-number="+5" data-id="1"></a></div>"#;
    assert_eq!(parse_episode_list(html).unwrap()[0][0].index, 5);
}

#[test]
fn episode_list_outcomes() {
    let r: EpisodeListResult = episode_list_outcome(false, Some(EPISODE_LIST.to_string())).unwrap();
    assert!(!r.status);
    assert!(r.data.is_empty());
    let r = episode_list_outcome(true, Some(EPISODE_LIST.to_string())).unwrap();
    assert!(r.status);
    assert_eq!(r.message, "");
    assert_eq!(r.data.len(), 3);
    let r = episode_list_outcome(true, None).unwrap();
    assert!(r.status);
    assert!(r.data.is_empty());
    let r = EpisodeListResult::rejected("bad".to_string());
    assert!(!r.status);
    assert_eq!(r.message, "bad");
}

const SERVER_LIST: &str = r#"
<div class="ps_-block ps_-block-sub">
  <div class="ps__-title">SUB:</div>
  <div class="ps__-list">
    <div class="item server-item" data-id="672865"><a class="btn">HD-1</a></div>
    <div class="item server-item"><a class="btn">no id</a></div>
    <div class="item server-item" data-id="672866"><a class="btn">HD-2</a></div>
  </div>
</div>
<div class="ps_-block ps_-block-dub">
  <div class="ps__-title">DUB:</div>
  <div class="ps__-list">
    <div class="item server-item" data-id="1"><a class="btn">HD-1</a></div>
  </div>
</div>
<div class="ps_-block">
  <div class="ps__-title">S:U:B</div>
  <div class="ps__-list">
    <div class="item server-item" data-id="9"><a class="btn">Last</a></div>
  </div>
</div>
"#;

fn servers(g: &ServerGroups, title: &str) -> Option<Vec<(String, String)>> {
    g.groups()
        .iter()
        .find(|x| x.title == title)
        .map(|x| x.servers.iter().map(|s| (s.id.clone(), s.title.clone())).collect())
}

#[test]
fn server_groups_by_title_later_replaces_earlier() {
    let g = parse_episode_servers(SERVER_LIST).unwrap();
    assert_eq!(g.groups().len(), 2);
    // "S:U:B" loses its colons and replaces the first "SUB" group
    assert_eq!(servers(&g, "SUB"), Some(vec![("9".to_string(), "Last".to_string())]));
    assert_eq!(servers(&g, "DUB"), Some(vec![("1".to_string(), "HD-1".to_string())]));
    assert_eq!(servers(&g, "SUB:"), None);
}

#[test]
fn server_group_skips_servers_without_id() {
    let html = r#"<div class="ps_-block"><div class="ps__-title">RAW:</div><div class="ps__-list">
      <div class="server-item" data-id="1"><a>A</a></div>
      <div class="server-item"><a>B</a></div>
      <div class="server-item" data-id="3"><a>C</a></div></div></div>"#;
    let g = parse_episode_servers(html).unwrap();
    assert_eq!(
        servers(&g, "RAW"),
        Some(vec![("1".to_string(), "A".to_string()), ("3".to_string(), "C".to_string())])
    );
}

#[test]
fn server_groups_insert_replaces() {
    let mut g = ServerGroups::new();
    g.insert("SUB".to_string(), vec![ServerEntry { id: "1".to_string(), title: "a".to_string() }]);
    g.insert("DUB".to_string(), vec![]);
    g.insert("SUB".to_string(), vec![ServerEntry { id: "2".to_string(), title: "b".to_string() }]);
    assert_eq!(g.groups().len(), 2);
    assert_eq!(servers(&g, "SUB"), Some(vec![("2".to_string(), "b".to_string())]));
    assert_eq!(servers(&g, "DUB"), Some(vec![]));
}

#[test]
fn episode_server_outcomes() {
    let r: EpisodeServerResult = episode_server_outcome(false, Some(SERVER_LIST.to_string())).unwrap();
    assert!(!r.status);
    assert!(r.data.groups().is_empty());
    let r = episode_server_outcome(true, Some(SERVER_LIST.to_string())).unwrap();
    assert!(r.status);
    assert_eq!(r.data.groups().len(), 2);
    let r = episode_server_outcome(true, None).unwrap();
    assert!(r.status);
    assert!(r.data.groups().is_empty());
    let r = EpisodeServerResult::rejected("bad".to_string());
    assert!(!r.status);
    assert_eq!(r.message, "bad");
}
