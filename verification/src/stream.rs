//! Finding the stream of an episode server, as a sequence of requests.
//!
//! Three requests lead to the stream: where the server forwards to, the
//! player page (which hides a key token), and the stream sources unlocked
//! by the token.  The decisions between them are a step function from the
//! current phase and the reply to a request to the next phase and what to
//! do next: make another request, finish with the answer, or give up with
//! no answer at all.

use crate::request::{
    embed_request, embed_url, episode_sources_request, is_catalogue_request, episode_sources_url,
    stream_sources_request, stream_sources_url, Request,
};
use crate::text::{after_last, before_first, before_last, chars_of, first_piece, head_before_last, last_piece, string_of};
use crate::token::{extract_key_token, page_token};
use crate::{SERVER_HOST, SERVER_ORIGIN, SERVER_REFERER};
use vstd::prelude::*;

verus! {

/// What `url::Url::parse` makes of `url`: the host, if the URL has one, or
/// the text of the parse error.
pub uninterp spec fn parsed_host(url: Seq<char>) -> Result<Option<Seq<char>>, Seq<char>>;

/// The text of a host lookup.
pub open spec fn host_view(r: Result<Option<String>, String>) -> Result<Option<Seq<char>>, Seq<char>> {
    match r {
        Ok(Some(h)) => Ok(Some(h@)),
        Ok(None) => Ok(None),
        Err(e) => Err(e@),
    }
}

/// Parses `url` (`url::Url::parse`) and gives its host (`Url::host_str`),
/// or the text of the parse error.
#[verifier::external_body]
pub fn url_host(url: &str) -> (r: Result<Option<String>, String>)
    ensures
        host_view(r) == parsed_host(url@),
{
    match url::Url::parse(url) {
        Ok(u) => Ok(u.host_str().map(|h| h.to_string())),
        Err(e) => Err(e.to_string()),
    }
}

/// Where and how a player fetches the stream.
pub struct StreamConfig {
    pub host: String,
    pub referer: String,
    pub origin: String,
    pub playlist_base_url: String,
    pub segment_base_url: String,
}

/// The answer of the stream lookup.  When `carries_sources` holds, the
/// answer's data is the stream-sources reply itself.
pub struct ServerResult {
    pub status: bool,
    pub message: String,
    pub config: StreamConfig,
    pub carries_sources: bool,
}

/// A stream configuration as plain text.
pub struct ConfigModel {
    pub host: Seq<char>,
    pub referer: Seq<char>,
    pub origin: Seq<char>,
    pub playlist_base_url: Seq<char>,
    pub segment_base_url: Seq<char>,
}

/// An answer as plain values.
pub struct ResultModel {
    pub status: bool,
    pub message: Seq<char>,
    pub config: ConfigModel,
    pub carries_sources: bool,
}

impl View for StreamConfig {
    type V = ConfigModel;

    open spec fn view(&self) -> ConfigModel {
        ConfigModel {
            host: self.host@,
            referer: self.referer@,
            origin: self.origin@,
            playlist_base_url: self.playlist_base_url@,
            segment_base_url: self.segment_base_url@,
        }
    }
}

impl View for ServerResult {
    type V = ResultModel;

    open spec fn view(&self) -> ResultModel {
        ResultModel {
            status: self.status,
            message: self.message@,
            config: self.config@,
            carries_sources: self.carries_sources,
        }
    }
}

/// Where the lookup stands.
pub enum Phase {
    /// Waiting for where the server forwards to.
    Lookup,
    /// Waiting for the player page of the forwarded id.
    Embed { forward_id: Vec<char> },
    /// Waiting for the stream sources.
    Sources { forward_id: Vec<char>, token: Vec<char> },
    /// Nothing more to ask.
    Done,
}

/// A phase as plain values.
pub enum PhaseModel {
    Lookup,
    Embed(Seq<char>),
    Sources(Seq<char>, Seq<char>),
    Done,
}

impl View for Phase {
    type V = PhaseModel;

    open spec fn view(&self) -> PhaseModel {
        match self {
            Phase::Lookup => PhaseModel::Lookup,
            Phase::Embed { forward_id } => PhaseModel::Embed(forward_id@),
            Phase::Sources { forward_id, token } => PhaseModel::Sources(forward_id@, token@),
            Phase::Done => PhaseModel::Done,
        }
    }
}

/// The `link` field of the forwarding reply.
pub enum LinkReply {
    /// The reply was not JSON.
    NotJson,
    /// The reply had no `link` field.
    NoLink,
    /// The `link` field, written as JSON text.
    Link(String),
}

/// What the stream-sources reply says: its `server` number, if it is one,
/// and the `file` of its first source, if it is a string.
pub struct SourcesReply {
    pub server: Option<u64>,
    pub file: Option<String>,
}

/// A reply to the request that the last step asked for.
pub enum ServerEvent {
    /// The forwarding reply: whether its status was a success, and its link.
    LookupAnswered { success: bool, link: LinkReply },
    /// The player page: whether its status was a success, and its text, if
    /// it could be read.
    EmbedAnswered { success: bool, body: Option<String> },
    /// The stream sources: whether the status was a success, and what the
    /// reply says, if it was JSON.
    SourcesAnswered { success: bool, sources: Option<SourcesReply> },
}

/// A link reply as plain values.
pub enum LinkModel {
    NotJson,
    NoLink,
    Link(Seq<char>),
}

/// A reply as plain values.
pub enum EventModel {
    LookupAnswered(bool, LinkModel),
    EmbedAnswered(bool, Option<Seq<char>>),
    SourcesAnswered(bool, Option<(Option<u64>, Option<Seq<char>>)>),
}

impl View for ServerEvent {
    type V = EventModel;

    open spec fn view(&self) -> EventModel {
        match self {
            ServerEvent::LookupAnswered { success, link } => EventModel::LookupAnswered(
                *success,
                match link {
                    LinkReply::NotJson => LinkModel::NotJson,
                    LinkReply::NoLink => LinkModel::NoLink,
                    LinkReply::Link(l) => LinkModel::Link(l@),
                },
            ),
            ServerEvent::EmbedAnswered { success, body } => EventModel::EmbedAnswered(
                *success,
                match body {
                    Some(b) => Some(b@),
                    None => None,
                },
            ),
            ServerEvent::SourcesAnswered { success, sources } => EventModel::SourcesAnswered(
                *success,
                match sources {
                    Some(s) => Some(
                        (
                            s.server,
                            match s.file {
                                Some(f) => Some(f@),
                                None => None,
                            },
                        ),
                    ),
                    None => None,
                },
            ),
        }
    }
}

/// What to do next.
pub enum ServerAction {
    /// Make this request and hand its reply to the next step.
    Fetch(Request),
    /// Stop: the answer is ready.
    Finish,
    /// Stop with no answer at all.
    Abort,
}

/// An action as plain values; a request is (URL, referer, host).
pub enum ActionModel {
    Fetch(Seq<char>, Seq<char>, Seq<char>),
    Finish,
    Abort,
}

impl View for ServerAction {
    type V = ActionModel;

    open spec fn view(&self) -> ActionModel {
        match self {
            ServerAction::Fetch(r) => ActionModel::Fetch(r.url@, r.referer@, r.host@),
            ServerAction::Finish => ActionModel::Finish,
            ServerAction::Abort => ActionModel::Abort,
        }
    }
}

/// The answer before any reply: no success, no message, the player's
/// referer and origin, nothing else.
pub open spec fn initial_result() -> ResultModel {
    ResultModel {
        status: false,
        message: Seq::empty(),
        config: ConfigModel {
            host: Seq::empty(),
            referer: SERVER_REFERER@,
            origin: SERVER_ORIGIN@,
            playlist_base_url: Seq::empty(),
            segment_base_url: Seq::empty(),
        },
        carries_sources: false,
    }
}

/// The forwarded id in a link: the last piece of its path, up to any `?`.
pub open spec fn forward_id_of(link: Seq<char>) -> Seq<char> {
    before_first(after_last(link, '/'), '?')
}

/// The answer with its status set to `status`.
pub open spec fn with_status(r: ResultModel, status: bool) -> ResultModel {
    ResultModel { status, message: r.message, config: r.config, carries_sources: r.carries_sources }
}

/// The answer with its message set to `m`.
pub open spec fn with_message(r: ResultModel, m: Seq<char>) -> ResultModel {
    ResultModel { status: r.status, message: m, config: r.config, carries_sources: r.carries_sources }
}

/// The answer once the stream sources say `server` and `file`: the base of
/// the file URL (everything before its last `/`) is where segments come
/// from for server 1, and where playlists come from for any server but 6
/// once the file URL has a host; the host then becomes the stream host and
/// the answer a success that carries the sources.
pub open spec fn sources_result(r: ResultModel, server: u64, file: Seq<char>) -> ResultModel {
    let base = before_last(file, '/');
    let c = r.config;
    let segment = if server == 1 {
        base
    } else {
        c.segment_base_url
    };
    match parsed_host(file) {
        Ok(Some(h)) => ResultModel {
            status: true,
            message: "success"@,
            config: ConfigModel {
                host: h,
                referer: c.referer,
                origin: c.origin,
                playlist_base_url: if server != 6 {
                    base
                } else {
                    c.playlist_base_url
                },
                segment_base_url: segment,
            },
            carries_sources: true,
        },
        Ok(None) => ResultModel {
            status: r.status,
            message: "Failed to get host."@,
            config: ConfigModel {
                host: c.host,
                referer: c.referer,
                origin: c.origin,
                playlist_base_url: c.playlist_base_url,
                segment_base_url: segment,
            },
            carries_sources: r.carries_sources,
        },
        Err(e) => ResultModel {
            status: r.status,
            message: e,
            config: ConfigModel {
                host: c.host,
                referer: c.referer,
                origin: c.origin,
                playlist_base_url: c.playlist_base_url,
                segment_base_url: segment,
            },
            carries_sources: r.carries_sources,
        },
    }
}

/// One step: from the phase, the answer so far and a reply, the next
/// phase, the next answer and what to do.  A reply that does not fit the
/// phase gives up.
pub open spec fn next_step(p: PhaseModel, r: ResultModel, e: EventModel) -> (
    PhaseModel,
    ResultModel,
    ActionModel,
) {
    match (p, e) {
        (PhaseModel::Lookup, EventModel::LookupAnswered(success, link)) => if !success {
            (PhaseModel::Done, r, ActionModel::Finish)
        } else {
            match link {
                LinkModel::NotJson => (
                    PhaseModel::Done,
                    with_message(with_status(r, false), "Failed to get forward episode id."@),
                    ActionModel::Finish,
                ),
                LinkModel::NoLink => (PhaseModel::Done, r, ActionModel::Abort),
                LinkModel::Link(l) => {
                    let f = forward_id_of(l);
                    (
                        PhaseModel::Embed(f),
                        r,
                        ActionModel::Fetch(embed_url(f), SERVER_REFERER@, SERVER_HOST@),
                    )
                },
            }
        },
        (PhaseModel::Embed(f), EventModel::EmbedAnswered(success, body)) => if !success {
            (PhaseModel::Done, r, ActionModel::Finish)
        } else {
            match body {
                None => (PhaseModel::Done, r, ActionModel::Abort),
                Some(b) => match page_token(b) {
                    Some(Some(t)) => (
                        PhaseModel::Sources(f, t),
                        r,
                        ActionModel::Fetch(stream_sources_url(f, t), SERVER_REFERER@, SERVER_HOST@),
                    ),
                    _ => (PhaseModel::Done, with_status(r, false), ActionModel::Finish),
                },
            }
        },
        (PhaseModel::Sources(f, t), EventModel::SourcesAnswered(success, sources)) => if !success {
            (PhaseModel::Done, r, ActionModel::Finish)
        } else {
            match sources {
                None => (PhaseModel::Done, with_status(r, false), ActionModel::Finish),
                Some((Some(server), Some(file))) => (
                    PhaseModel::Done,
                    sources_result(r, server, file),
                    ActionModel::Finish,
                ),
                Some(_) => (PhaseModel::Done, r, ActionModel::Abort),
            }
        },
        _ => (p, r, ActionModel::Abort),
    }
}

/// How far a phase stands along the lookup.
pub open spec fn phase_rank(p: PhaseModel) -> int {
    match p {
        PhaseModel::Lookup => 0,
        PhaseModel::Embed(_) => 1,
        PhaseModel::Sources(_, _) => 2,
        PhaseModel::Done => 3,
    }
}

/// What holds of every state that the lookup reaches: the player's referer
/// and origin stay as they are; the answer stays the initial one until the
/// lookup is done; a success carries the sources, says `success`, and only
/// comes at the end.
pub open spec fn flow_invariant(p: PhaseModel, r: ResultModel) -> bool {
    &&& r.config.referer == SERVER_REFERER@
    &&& r.config.origin == SERVER_ORIGIN@
    &&& r.status == r.carries_sources
    &&& r.status ==> r.message == "success"@ && p is Done
    &&& !(p is Done) ==> r == initial_result()
}

/// The lookup starts in a state where the invariant holds.
pub proof fn lemma_start_invariant()
    ensures
        flow_invariant(PhaseModel::Lookup, initial_result()),
{
}

/// Every step keeps the invariant.
pub proof fn lemma_step_keeps_invariant(p: PhaseModel, r: ResultModel, e: EventModel)
    requires
        flow_invariant(p, r),
    ensures
        flow_invariant(next_step(p, r, e).0, next_step(p, r, e).1),
{
}

/// Every step moves the lookup on or stops it: a request leads to the next
/// phase, which is never the end, and only the first two phases make one;
/// finishing ends the lookup; once it is done, nothing but giving up is
/// left.  So a lookup makes at most three requests.
pub proof fn lemma_step_progress(p: PhaseModel, r: ResultModel, e: EventModel)
    ensures
        next_step(p, r, e).2 is Fetch ==> phase_rank(next_step(p, r, e).0) == phase_rank(p) + 1
            && phase_rank(p) < 2,
        next_step(p, r, e).2 is Finish ==> next_step(p, r, e).0 is Done,
        p is Done ==> next_step(p, r, e).2 is Abort && next_step(p, r, e).0 == p
            && next_step(p, r, e).1 == r,
{
}

/// A step that turns the answer into a success is the stream-sources reply
/// whose file URL has a host; that host is the stream host.
pub proof fn lemma_success_needs_host(p: PhaseModel, r: ResultModel, e: EventModel)
    requires
        !r.status,
        next_step(p, r, e).1.status,
    ensures
        exists|server: u64, file: Seq<char>, h: Seq<char>|
            e == EventModel::SourcesAnswered(true, Some((Some(server), Some(file))))
                && parsed_host(file) == Ok::<Option<Seq<char>>, Seq<char>>(Some(h))
                && next_step(p, r, e).1.config.host == h,
{
    match (p, e) {
        (PhaseModel::Sources(f, t), EventModel::SourcesAnswered(success, sources)) => {
            match sources {
                Some((Some(server), Some(file))) => {
                    let h = parsed_host(file)->Ok_0->0;
                    assert(e == EventModel::SourcesAnswered(true, Some((Some(server), Some(file)))));
                    assert(parsed_host(file) == Ok::<Option<Seq<char>>, Seq<char>>(Some(h)));
                },
                _ => {},
            }
        },
        _ => {},
    }
}

/// When the player page of the forwarded id `f` yields the token `t`, the
/// next request asks the stream server for the sources of `f` with `t` as
/// the key, character for character, and the lookup keeps `f` and `t`.
pub proof fn lemma_token_goes_in_as_found(
    f: Seq<char>,
    r: ResultModel,
    body: Seq<char>,
    t: Seq<char>,
)
    requires
        page_token(body) == Some(Some(t)),
    ensures
        ({
            let (p2, r2, a) = next_step(
                PhaseModel::Embed(f),
                r,
                EventModel::EmbedAnswered(true, Some(body)),
            );
            &&& p2 == PhaseModel::Sources(f, t)
            &&& r2 == r
            &&& a == ActionModel::Fetch(
                "https://"@ + SERVER_HOST@ + "/embed-2/v3/e-1/getSources?id="@ + f + "&_k="@ + t,
                SERVER_REFERER@,
                SERVER_HOST@,
            )
        }),
{
}

/// A forwarded id holds no `/` and no `?`.
pub proof fn lemma_forward_id_plain(link: Seq<char>)
    ensures
        !forward_id_of(link).contains('/'),
        !forward_id_of(link).contains('?'),
{
    let k = crate::text::last_index(link, '/', link.len() as int);
    crate::text::lemma_last_index(link, '/', link.len() as int);
    let tail = after_last(link, '/');
    assert forall|i: int| 0 <= i < tail.len() implies tail[i] != '/' by {
        assert(tail[i] == link[k + 1 + i]);
    }
    crate::text::lemma_next_index(tail, '?', 0);
    let id = forward_id_of(link);
    assert forall|i: int| 0 <= i < id.len() implies id[i] != '/' && id[i] != '?' by {
        assert(id[i] == tail[i]);
    }
}

/// The base of a file URL, a `/` and the last piece of its path give the
/// URL back, when it holds a `/`.
pub proof fn lemma_base_and_last_piece(file: Seq<char>)
    requires
        file.contains('/'),
    ensures
        before_last(file, '/') + seq!['/'] + after_last(file, '/') == file,
{
    let k = crate::text::last_index(file, '/', file.len() as int);
    crate::text::lemma_last_index(file, '/', file.len() as int);
    let j = choose|j: int| 0 <= j < file.len() && file[j] == '/';
    assert(k >= 0);
    assert(before_last(file, '/') + seq!['/'] + after_last(file, '/') =~= file);
}

/// The state of a lookup: where it stands and the answer so far.
pub struct ServerFlow {
    pub phase: Phase,
    pub result: ServerResult,
}

/// The forwarded id in a link.
pub fn forward_id(link: &str) -> (r: Vec<char>)
    ensures
        r@ == forward_id_of(link@),
{
    let tail = last_piece(&chars_of(link), '/');
    first_piece(&tail, '?')
}

fn with_message_text(r: ServerResult, m: &str) -> (out: ServerResult)
    ensures
        out@ == with_message(r@, m@),
{
    ServerResult { status: r.status, message: m.to_owned(), config: r.config, carries_sources: r.carries_sources }
}

/// The answer once the stream sources say `server` and `file`.
pub fn apply_sources(r: ServerResult, server: u64, file: &str) -> (out: ServerResult)
    ensures
        out@ == sources_result(r@, server, file@),
{
    let base = string_of(&head_before_last(&chars_of(file), '/'));
    let mut config = r.config;
    if server == 1 {
        config.segment_base_url = base.clone();
    }
    match url_host(file) {
        Ok(Some(h)) => {
            if server != 6 {
                config.playlist_base_url = base;
            }
            config.host = h;
            ServerResult { status: true, message: "success".to_owned(), config, carries_sources: true }
        },
        Ok(None) => ServerResult {
            status: r.status,
            message: "Failed to get host.".to_owned(),
            config,
            carries_sources: r.carries_sources,
        },
        Err(e) => ServerResult { status: r.status, message: e, config, carries_sources: r.carries_sources },
    }
}

impl ServerResult {
    /// The answer of a lookup that was not made, for the reason `message`.
    pub fn rejected(message: String) -> (r: ServerResult)
        ensures
            r@ == with_message(initial_result(), message@),
    {
        let config = StreamConfig {
            host: String::new(),
            referer: SERVER_REFERER.to_owned(),
            origin: SERVER_ORIGIN.to_owned(),
            playlist_base_url: String::new(),
            segment_base_url: String::new(),
        };
        ServerResult { status: false, message, config, carries_sources: false }
    }
}

impl ServerFlow {
    /// A lookup of the server `server_id`, and the first request to make.
    pub fn start(server_id: &str) -> (r: (ServerFlow, Request))
        ensures
            r.0.phase@ == PhaseModel::Lookup,
            r.0.result@ == initial_result(),
            is_catalogue_request(r.1, episode_sources_url(server_id@)),
    {
        let config = StreamConfig {
            host: String::new(),
            referer: SERVER_REFERER.to_owned(),
            origin: SERVER_ORIGIN.to_owned(),
            playlist_base_url: String::new(),
            segment_base_url: String::new(),
        };
        let result = ServerResult { status: false, message: String::new(), config, carries_sources: false };
        (ServerFlow { phase: Phase::Lookup, result }, episode_sources_request(server_id))
    }

    /// One step of the lookup.
    pub fn step(self, event: ServerEvent) -> (r: (ServerFlow, ServerAction))
        ensures
            (r.0.phase@, r.0.result@, r.1@) == next_step(self.phase@, self.result@, event@),
    {
        let ghost e = event@;
        let ServerFlow { phase, result } = self;
        match (phase, event) {
            (Phase::Lookup, ServerEvent::LookupAnswered { success, link }) => {
                if !success {
                    return (ServerFlow { phase: Phase::Done, result }, ServerAction::Finish);
                }
                match link {
                    LinkReply::NotJson => {
                        let result = ServerResult { status: false, ..result };
                        let result = with_message_text(result, "Failed to get forward episode id.");
                        (ServerFlow { phase: Phase::Done, result }, ServerAction::Finish)
                    },
                    LinkReply::NoLink => (ServerFlow { phase: Phase::Done, result }, ServerAction::Abort),
                    LinkReply::Link(l) => {
                        let f = forward_id(l.as_str());
                        let req = embed_request(&f);
                        (ServerFlow { phase: Phase::Embed { forward_id: f }, result }, ServerAction::Fetch(req))
                    },
                }
            },
            (Phase::Embed { forward_id }, ServerEvent::EmbedAnswered { success, body }) => {
                if !success {
                    return (ServerFlow { phase: Phase::Done, result }, ServerAction::Finish);
                }
                match body {
                    None => (ServerFlow { phase: Phase::Done, result }, ServerAction::Abort),
                    Some(b) => match extract_key_token(b.as_str()) {
                        Ok(Some(t)) => {
                            let token = chars_of(t.as_str());
                            let req = stream_sources_request(&forward_id, &token);
                            (ServerFlow { phase: Phase::Sources { forward_id, token }, result }, ServerAction::Fetch(req))
                        },
                        _ => {
                            let result = ServerResult { status: false, ..result };
                            (ServerFlow { phase: Phase::Done, result }, ServerAction::Finish)
                        },
                    },
                }
            },
            (Phase::Sources { forward_id, token }, ServerEvent::SourcesAnswered { success, sources }) => {
                if !success {
                    return (ServerFlow { phase: Phase::Done, result }, ServerAction::Finish);
                }
                match sources {
                    None => {
                        let result = ServerResult { status: false, ..result };
                        (ServerFlow { phase: Phase::Done, result }, ServerAction::Finish)
                    },
                    Some(SourcesReply { server: Some(server), file: Some(file) }) => {
                        let result = apply_sources(result, server, file.as_str());
                        (ServerFlow { phase: Phase::Done, result }, ServerAction::Finish)
                    },
                    Some(_) => (ServerFlow { phase: Phase::Done, result }, ServerAction::Abort),
                }
            },
            (phase, _) => (ServerFlow { phase, result }, ServerAction::Abort),
        }
    }
}

} // verus!
