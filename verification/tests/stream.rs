use hianime::stream::{
    apply_sources, forward_id, LinkReply, Phase, ServerAction, ServerEvent, ServerFlow,
    SourcesReply,
};

fn text(v: &[char]) -> String {
    v.iter().collect()
}

fn fetched(a: &ServerAction) -> (String, String, String) {
    match a {
        ServerAction::Fetch(r) => (r.url.clone(), r.referer.clone(), r.host.clone()),
        ServerAction::Finish => panic!("finished"),
        ServerAction::Abort => panic!("aborted"),
    }
}

const PLAYER: &str = r#"<html><head><meta name="_gg_fb" content="KEY"></head><body></body></html>"#;

fn to_sources(flow: ServerFlow) -> ServerFlow {
    let link = "\"https://megacloud.blog/embed-2/v3/e-1/AbC123?k=1\"".to_string();
    let (flow, action) = flow.step(ServerEvent::LookupAnswered { success: true, link: LinkReply::Link(link) });
    assert_eq!(
        fetched(&action),
        (
            "https://megacloud.blog/embed-2/v3/e-1/AbC123?k=1".to_string(),
            "https://megacloud.blog/".to_string(),
            "megacloud.blog".to_string()
        )
    );
    let (flow, action) = flow.step(ServerEvent::EmbedAnswered { success: true, body: Some(PLAYER.to_string()) });
    assert_eq!(
        fetched(&action).0,
        "https://megacloud.blog/embed-2/v3/e-1/getSources?id=AbC123&_k=KEY"
    );
    match &flow.phase {
        Phase::Sources { forward_id, token } => {
            assert_eq!(text(forward_id), "AbC123");
            assert_eq!(text(token), "KEY");
        }
        _ => panic!("not waiting for sources"),
    }
    flow
}

#[test]
fn start_asks_where_the_server_forwards() {
    let (flow, req) = ServerFlow::start("672865");
    assert_eq!(req.url, "https://hianime.to/ajax/v2/episode/sources?id=672865");
    assert_eq!(req.referer, "https://hianime.to/");
    assert_eq!(req.host, "hianime.to");
    assert!(matches!(flow.phase, Phase::Lookup));
    assert!(!flow.result.status);
    assert_eq!(flow.result.message, "");
    assert_eq!(flow.result.config.referer, "https://megacloud.blog/");
    assert_eq!(flow.result.config.origin, "https://megacloud.blog");
    assert_eq!(flow.result.config.host, "");
    assert!(!flow.result.carries_sources);
}

#[test]
fn full_lookup_succeeds() {
    let (flow, _) = ServerFlow::start("672865");
    let flow = to_sources(flow);
    let (flow, action) = flow.step(ServerEvent::SourcesAnswered {
        success: true,
        sources: Some(SourcesReply {
            server: Some(4),
            file: Some("https://cdn.example.net/hls/abc/master.m3u8".to_string()),
        }),
    });
    assert!(matches!(action, ServerAction::Finish));
    assert!(matches!(flow.phase, Phase::Done));
    let r = flow.result;
    assert!(r.status);
    assert_eq!(r.message, "success");
    assert_eq!(r.config.host, "cdn.example.net");
    assert_eq!(r.config.playlist_base_url, "https://cdn.example.net/hls/abc");
    assert_eq!(r.config.segment_base_url, "");
    assert!(r.carries_sources);
}

#[test]
fn server_one_sets_segments_and_server_six_keeps_playlist() {
    let (flow, _) = ServerFlow::start("1");
    let r = apply_sources(flow.result, 1, "https://h1.net/a/b.m3u8");
    assert_eq!(r.config.segment_base_url, "https://h1.net/a");
    assert_eq!(r.config.playlist_base_url, "https://h1.net/a");
    let (flow, _) = ServerFlow::start("1");
    let r = apply_sources(flow.result, 6, "https://h6.net/a/b.m3u8");
    assert_eq!(r.config.segment_base_url, "");
    assert_eq!(r.config.playlist_base_url, "");
    assert_eq!(r.config.host, "h6.net");
    assert!(r.status);
}

#[test]
fn file_without_host_or_unparsable() {
    let (flow, _) = ServerFlow::start("1");
    let r = apply_sources(flow.result, 1, "data:text/plain,x/y");
    assert!(!r.status);
    assert_eq!(r.message, "Failed to get host.");
    assert_eq!(r.config.segment_base_url, "data:text/plain,x");
    assert!(!r.carries_sources);
    let (flow, _) = ServerFlow::start("1");
    let r = apply_sources(flow.result, 2, "not a url");
    assert!(!r.status);
    assert_eq!(r.message, url::Url::parse("not a url").unwrap_err().to_string());
    assert_eq!(r.message, "relative URL without a base");
}

#[test]
fn lookup_failures() {
    let (flow, _) = ServerFlow::start("1");
    let (flow, a) = flow.step(ServerEvent::LookupAnswered { success: false, link: LinkReply::NoLink });
    assert!(matches!(a, ServerAction::Finish));
    assert!(matches!(flow.phase, Phase::Done));
    assert_eq!(flow.result.message, "");

    let (flow, _) = ServerFlow::start("1");
    let (flow, a) = flow.step(ServerEvent::LookupAnswered { success: true, link: LinkReply::NotJson });
    assert!(matches!(a, ServerAction::Finish));
    assert!(!flow.result.status);
    assert_eq!(flow.result.message, "Failed to get forward episode id.");

    let (flow, _) = ServerFlow::start("1");
    let (_, a) = flow.step(ServerEvent::LookupAnswered { success: true, link: LinkReply::NoLink });
    assert!(matches!(a, ServerAction::Abort));
}

#[test]
fn player_page_failures() {
    let (flow, _) = ServerFlow::start("1");
    let (flow, _) = flow.step(ServerEvent::LookupAnswered { success: true, link: LinkReply::Link("\"x/y/Z\"".to_string()) });
    let (flow2, a) = flow.step(ServerEvent::EmbedAnswered { success: true, body: Some("<html><body>no token</body></html>".to_string()) });
    assert!(matches!(a, ServerAction::Finish));
    assert!(!flow2.result.status);
    assert!(matches!(flow2.phase, Phase::Done));

    let (flow, _) = ServerFlow::start("1");
    let (flow, _) = flow.step(ServerEvent::LookupAnswered { success: true, link: LinkReply::Link("\"x/y/Z\"".to_string()) });
    let (_, a) = flow.step(ServerEvent::EmbedAnswered { success: true, body: None });
    assert!(matches!(a, ServerAction::Abort));
}

#[test]
fn sources_failures() {
    let (flow, _) = ServerFlow::start("1");
    let flow = to_sources(flow);
    let (f, a) = flow.step(ServerEvent::SourcesAnswered { success: true, sources: None });
    assert!(matches!(a, ServerAction::Finish));
    assert!(!f.result.status);

    let (flow, _) = ServerFlow::start("1");
    let flow = to_sources(flow);
    let (_, a) = flow.step(ServerEvent::SourcesAnswered {
        success: true,
        sources: Some(SourcesReply { server: None, file: Some("https://a/b".to_string()) }),
    });
    assert!(matches!(a, ServerAction::Abort));

    let (flow, _) = ServerFlow::start("1");
    let flow = to_sources(flow);
    let (f, a) = flow.step(ServerEvent::SourcesAnswered { success: false, sources: None });
    assert!(matches!(a, ServerAction::Finish));
    assert!(!f.result.status);
}

#[test]
fn reply_out_of_turn_gives_up() {
    let (flow, _) = ServerFlow::start("1");
    let (flow, a) = flow.step(ServerEvent::EmbedAnswered { success: true, body: Some(String::new()) });
    assert!(matches!(a, ServerAction::Abort));
    assert!(matches!(flow.phase, Phase::Lookup));
}

#[test]
fn forward_ids() {
    assert_eq!(text(&forward_id("\"https://megacloud.blog/embed-2/v3/e-1/AbC?k=1\"")), "AbC");
    assert_eq!(text(&forward_id("\"https://x/e-1/AbC\"")), "AbC\"");
    assert_eq!(text(&forward_id("plain")), "plain");
    assert_eq!(text(&forward_id("a/b?c/d")), "d");
}

#[test]
fn referer_and_origin_never_change() {
    let (flow, _) = ServerFlow::start("1");
    let flow = to_sources(flow);
    assert_eq!(flow.result.config.referer, "https://megacloud.blog/");
    assert_eq!(flow.result.config.origin, "https://megacloud.blog");
    assert!(!flow.result.status);
    let (flow, _) = flow.step(ServerEvent::SourcesAnswered {
        success: true,
        sources: Some(SourcesReply { server: Some(1), file: Some("https://h/x/y".to_string()) }),
    });
    assert_eq!(flow.result.config.referer, "https://megacloud.blog/");
    assert_eq!(flow.result.config.origin, "https://megacloud.blog");
    assert!(flow.result.status);
    assert!(flow.result.carries_sources);
}

#[test]
fn done_lookup_only_gives_up() {
    let (flow, _) = ServerFlow::start("1");
    let (flow, _) = flow.step(ServerEvent::LookupAnswered { success: false, link: LinkReply::NotJson });
    assert!(matches!(flow.phase, Phase::Done));
    let (flow, a) = flow.step(ServerEvent::LookupAnswered { success: true, link: LinkReply::Link("x".to_string()) });
    assert!(matches!(a, ServerAction::Abort));
    assert!(matches!(flow.phase, Phase::Done));
}

#[test]
fn rejected_lookup_keeps_player_headers() {
    let r = hianime::stream::ServerResult::rejected("Expected 1 argument.".to_string());
    assert!(!r.status);
    assert_eq!(r.message, "Expected 1 argument.");
    assert_eq!(r.config.referer, "https://megacloud.blog/");
    assert_eq!(r.config.origin, "https://megacloud.blog");
    assert!(!r.carries_sources);
}
