//! The servers of an episode: the groups of servers that the server list
//! shows (keyed by the group's title), and the answer that the
//! episode-server call gives.

use crate::dom::{attr, attribute, count, find, load, loaded, node_at, node_count, nth, selected, text, text_content};
use crate::text::{chars_of, remove_char, string_of, without_char};
use visdom::types::Elements;
use vstd::prelude::*;

verus! {

/// One server: its id and its name.
pub struct ServerEntry {
    pub id: String,
    pub title: String,
}

/// A server as plain text: (id, name).
pub type ServerView = (Seq<char>, Seq<char>);

impl View for ServerEntry {
    type V = ServerView;

    open spec fn view(&self) -> ServerView {
        (self.id@, self.title@)
    }
}

/// The views of a list of servers.
pub open spec fn server_views(v: Seq<ServerEntry>) -> Seq<ServerView> {
    v.map_values(|e: ServerEntry| e@)
}

/// A group of servers under one title.
pub struct ServerGroup {
    pub title: String,
    pub servers: Vec<ServerEntry>,
}

/// A group as plain values: (title, servers).
pub type GroupView = (Seq<char>, Seq<ServerView>);

impl View for ServerGroup {
    type V = GroupView;

    open spec fn view(&self) -> GroupView {
        (self.title@, server_views(self.servers@))
    }
}

/// The views of a list of groups.
pub open spec fn group_views(v: Seq<ServerGroup>) -> Seq<GroupView> {
    v.map_values(|g: ServerGroup| g@)
}

/// The map that inserting the groups one after the other gives: a later
/// group replaces an earlier one with the same title.
pub open spec fn insert_all(groups: Seq<GroupView>) -> Map<Seq<char>, Seq<ServerView>>
    decreases groups.len(),
{
    if groups.len() == 0 {
        Map::empty()
    } else {
        insert_all(groups.drop_last()).insert(groups.last().0, groups.last().1)
    }
}

/// No two groups have the same title.
pub open spec fn distinct_titles(groups: Seq<GroupView>) -> bool {
    forall|i: int, j: int|
        0 <= i < groups.len() && 0 <= j < groups.len() && i != j ==> #[trigger] groups[i].0
            != #[trigger] groups[j].0
}

/// Replacing the servers of the group titled `t` in a list with distinct
/// titles is inserting them under `t`.
proof fn lemma_insert_all_update(groups: Seq<GroupView>, k: int, v: Seq<ServerView>)
    requires
        distinct_titles(groups),
        0 <= k < groups.len(),
    ensures
        insert_all(groups.update(k, (groups[k].0, v))) == insert_all(groups).insert(
            groups[k].0,
            v,
        ),
    decreases groups.len(),
{
    let t = groups[k].0;
    let s2 = groups.update(k, (t, v));
    if k == groups.len() - 1 {
        assert(s2.drop_last() =~= groups.drop_last());
        assert(insert_all(s2) =~= insert_all(groups).insert(t, v));
    } else {
        let d = groups.drop_last();
        assert(distinct_titles(d)) by {
            assert forall|i: int, j: int|
                0 <= i < d.len() && 0 <= j < d.len() && i != j implies #[trigger] d[i].0
                != #[trigger] d[j].0 by {
                assert(d[i] == groups[i]);
                assert(d[j] == groups[j]);
            }
        }
        lemma_insert_all_update(d, k, v);
        assert(s2.drop_last() =~= d.update(k, (t, v)));
        let l = groups.last();
        assert(groups[groups.len() - 1].0 != groups[k].0);
        assert(insert_all(s2) =~= insert_all(groups).insert(t, v));
    }
}

/// The titles of the groups are the keys of the map.
proof fn lemma_insert_all_keys(groups: Seq<GroupView>, t: Seq<char>)
    ensures
        insert_all(groups).dom().contains(t) <==> exists|i: int|
            0 <= i < groups.len() && #[trigger] groups[i].0 == t,
    decreases groups.len(),
{
    if groups.len() > 0 {
        let d = groups.drop_last();
        lemma_insert_all_keys(d, t);
        if exists|i: int| 0 <= i < d.len() && #[trigger] d[i].0 == t {
            let i = choose|i: int| 0 <= i < d.len() && #[trigger] d[i].0 == t;
            assert(groups[i].0 == t);
        }
        if exists|i: int| 0 <= i < groups.len() && #[trigger] groups[i].0 == t {
            let i = choose|i: int| 0 <= i < groups.len() && #[trigger] groups[i].0 == t;
            if i < groups.len() - 1 {
                assert(d[i].0 == t);
            }
        }
    }
}

/// Where the group titled `title` stands, or the number of groups.
fn position_of(groups: &Vec<ServerGroup>, title: &String) -> (r: usize)
    ensures
        r <= groups.len(),
        r < groups.len() ==> groups@[r as int].title@ == title@,
        forall|i: int| 0 <= i < r ==> #[trigger] group_views(groups@)[i].0 != title@,
{
    let mut k: usize = 0;
    while k < groups.len()
        invariant
            k <= groups.len(),
            forall|i: int| 0 <= i < k ==> #[trigger] group_views(groups@)[i].0 != title@,
        decreases groups.len() - k,
    {
        if groups[k].title == *title {
            return k;
        }
        k += 1;
    }
    k
}

/// Groups of servers keyed by their titles, no title twice; inserting under
/// a title that is there replaces its servers.
pub struct ServerGroups {
    groups: Vec<ServerGroup>,
}

impl View for ServerGroups {
    type V = Map<Seq<char>, Seq<ServerView>>;

    closed spec fn view(&self) -> Map<Seq<char>, Seq<ServerView>> {
        insert_all(group_views(self.groups@))
    }
}

impl ServerGroups {
    #[verifier::type_invariant]
    spec fn titles_unique(self) -> bool {
        distinct_titles(group_views(self.groups@))
    }

    /// No groups.
    pub fn new() -> (r: ServerGroups)
        ensures
            r@ == Map::<Seq<char>, Seq<ServerView>>::empty(),
    {
        let r = ServerGroups { groups: Vec::new() };
        assert(group_views(r.groups@).len() == 0);
        r
    }

    /// The groups, in the order in which their titles first came; their
    /// titles are distinct and they make up the map.
    pub fn groups(&self) -> (r: &Vec<ServerGroup>)
        ensures
            distinct_titles(group_views(r@)),
            insert_all(group_views(r@)) == self@,
    {
        proof {
            use_type_invariant(self);
        }
        &self.groups
    }

    /// Puts `servers` under `title`, in place of what was there.
    pub fn insert(&mut self, title: String, servers: Vec<ServerEntry>)
        ensures
            final(self)@ == old(self)@.insert(title@, server_views(servers@)),
    {
        proof {
            use_type_invariant(&*self);
        }
        let ghost old_views = group_views(self.groups@);
        let ghost v = server_views(servers@);
        let n = self.groups.len();
        let k = position_of(&self.groups, &title);
        let group = ServerGroup { title, servers };
        if k < n {
            proof {
                assert(old_views[k as int].0 == group.title@);
                lemma_insert_all_update(old_views, k as int, v);
            }
            let mut groups = Vec::new();
            std::mem::swap(&mut groups, &mut self.groups);
            groups.set(k, group);
            assert(group_views(groups@) =~= old_views.update(k as int, (old_views[k as int].0, v)));
            self.groups = groups;
        } else {
            let mut groups = Vec::new();
            std::mem::swap(&mut groups, &mut self.groups);
            let ghost before = groups@;
            groups.push(group);
            proof {
                let nv = group_views(groups@);
                assert(nv.drop_last() =~= old_views);
                assert forall|i: int, j: int|
                    0 <= i < nv.len() && 0 <= j < nv.len() && i != j implies #[trigger] nv[i].0
                    != #[trigger] nv[j].0 by {
                    if i < n && j < n {
                        assert(nv[i] == old_views[i]);
                        assert(nv[j] == old_views[j]);
                    } else if i < n {
                        assert(nv[i] == old_views[i]);
                    } else {
                        assert(nv[j] == old_views[j]);
                    }
                }
            }
            self.groups = groups;
        }
    }
}

/// The `j`-th server of the set `items`: its `data-id` and the text of its
/// link; none when it has no `data-id`.
pub open spec fn server_at(items: Elements<'static>, j: int) -> Option<ServerView> {
    let node = node_at(items, j);
    match attribute(node, "data-id"@) {
        Some(id) => Some((id, text_content(selected(node, "a"@)))),
        None => None,
    }
}

/// The servers among the first `n` items that have an id, in order.
pub open spec fn servers_upto(items: Elements<'static>, n: nat) -> Seq<ServerView>
    decreases n,
{
    if n == 0 {
        Seq::empty()
    } else {
        let prev = servers_upto(items, (n - 1) as nat);
        match server_at(items, n - 1) {
            Some(s) => prev.push(s),
            None => prev,
        }
    }
}

/// The `i`-th block of `blocks`: its title, without any `:`, and its
/// servers.
pub open spec fn block_at(blocks: Elements<'static>, i: int) -> GroupView {
    let block = node_at(blocks, i);
    let title = without_char(text_content(selected(block, ".ps__-title"@)), ':');
    let items = selected(selected(block, ".ps__-list"@), ".server-item"@);
    (title, servers_upto(items, node_count(items)))
}

/// The servers of a block are its items that have a `data-id`, in order,
/// each with that `data-id` as its id and the text of its link as its name.
pub proof fn lemma_servers_are_items_with_id(items: Elements<'static>, n: nat)
    ensures
        servers_upto(items, n) == Seq::new(n, |j: int| node_at(items, j)).filter_map(
            |node: Elements<'static>|
                match attribute(node, "data-id"@) {
                    Some(id) => Some((id, text_content(selected(node, "a"@)))),
                    None => None,
                },
        ),
    decreases n,
{
    let f = |node: Elements<'static>|
        match attribute(node, "data-id"@) {
            Some(id) => Some((id, text_content(selected(node, "a"@)))),
            None => None,
        };
    let nodes = Seq::new(n, |j: int| node_at(items, j));
    if n > 0 {
        lemma_servers_are_items_with_id(items, (n - 1) as nat);
        assert(nodes.drop_last() =~= Seq::new((n - 1) as nat, |j: int| node_at(items, j)));
        assert(nodes.last() == node_at(items, n - 1));
        assert(servers_upto(items, n) =~= nodes.filter_map(f));
    } else {
        assert(nodes.filter_map(f) =~= Seq::<ServerView>::empty());
    }
}

/// The server groups of a document, keyed by title.
pub open spec fn document_groups(doc: Elements<'static>) -> Map<Seq<char>, Seq<ServerView>> {
    let blocks = selected(doc, ".ps_-block"@);
    insert_all(Seq::new(node_count(blocks), |i: int| block_at(blocks, i)))
}

/// The server groups that the list `html` shows; none when `visdom` cannot
/// parse it.
pub open spec fn episode_servers_page(html: Seq<char>) -> Option<Map<Seq<char>, Seq<ServerView>>> {
    match loaded(html) {
        Some(doc) => Some(document_groups(doc)),
        None => None,
    }
}

/// The servers of one block.
pub fn read_servers(items: &Elements<'static>) -> (r: Vec<ServerEntry>)
    ensures
        server_views(r@) == servers_upto(*items, node_count(*items)),
{
    let n = count(items);
    let mut r: Vec<ServerEntry> = Vec::new();
    let mut j: usize = 0;
    while j < n
        invariant
            j <= n,
            n == node_count(*items),
            server_views(r@) =~= servers_upto(*items, j as nat),
        decreases n - j,
    {
        let node = nth(items, j);
        let id = attr(&node, "data-id");
        match id {
            Some(id) => {
                let title = text(&find(&node, "a"));
                let ghost before = r@;
                r.push(ServerEntry { id, title });
                proof {
                    assert(server_views(r@) =~= server_views(before).push(r@[before.len() as int]@)) by {
                        assert forall|k: int| 0 <= k < before.len() implies #[trigger] r@[k]
                            == before[k] by {}
                    }
                }
            },
            None => {},
        }
        j += 1;
    }
    r
}

/// The title and the servers of one block.
pub fn read_block(blocks: &Elements<'static>, i: usize) -> (r: (String, Vec<ServerEntry>))
    ensures
        (r.0@, server_views(r.1@)) == block_at(*blocks, i as int),
{
    let block = nth(blocks, i);
    let raw = text(&find(&block, ".ps__-title"));
    let title = string_of(&remove_char(&chars_of(raw.as_str()), ':'));
    let items = find(&find(&block, ".ps__-list"), ".server-item");
    let servers = read_servers(&items);
    (title, servers)
}

/// No group title of a document holds a `:`.
pub proof fn lemma_titles_have_no_colon(doc: Elements<'static>, t: Seq<char>)
    requires
        document_groups(doc).dom().contains(t),
    ensures
        !t.contains(':'),
{
    let blocks = selected(doc, ".ps_-block"@);
    let all = Seq::new(node_count(blocks), |i: int| block_at(blocks, i));
    lemma_insert_all_keys(all, t);
    let i = choose|i: int| 0 <= i < all.len() && #[trigger] all[i].0 == t;
    let raw = text_content(selected(node_at(blocks, i), ".ps__-title"@));
    assert(t == without_char(raw, ':'));
    assert forall|k: int| 0 <= k < t.len() implies t[k] != ':' by {
        raw.lemma_filter_pred(crate::text::differs_from(':'), k);
    }
}

/// The server groups of a document.
pub fn read_groups(doc: &Elements<'static>) -> (r: ServerGroups)
    ensures
        r@ == document_groups(*doc),
{
    let blocks = find(doc, ".ps_-block");
    let n = count(&blocks);
    let ghost all = Seq::new(node_count(blocks), |k: int| block_at(blocks, k));
    let mut r = ServerGroups::new();
    let mut i: usize = 0;
    while i < n
        invariant
            i <= n,
            n == node_count(blocks),
            blocks == selected(*doc, ".ps_-block"@),
            all == Seq::new(node_count(blocks), |k: int| block_at(blocks, k)),
            r@ == insert_all(all.take(i as int)),
        decreases n - i,
    {
        let (title, servers) = read_block(&blocks, i);
        r.insert(title, servers);
        assert(all.take(i + 1).drop_last() =~= all.take(i as int));
        i += 1;
    }
    assert(all.take(n as int) =~= all);
    r
}

/// The server groups that the list `html` shows.
pub fn parse_episode_servers(html: &str) -> (r: Option<ServerGroups>)
    ensures
        match r {
            Some(g) => episode_servers_page(html@) == Some(g@),
            None => episode_servers_page(html@) is None,
        },
{
    match load(html) {
        Some(doc) => Some(read_groups(&doc)),
        None => None,
    }
}

/// The answer of the episode-server call: whether the catalogue answered,
/// a message, and the server groups.
pub struct EpisodeServerResult {
    pub status: bool,
    pub message: String,
    pub data: ServerGroups,
}

impl EpisodeServerResult {
    /// A call that was not made, for the reason `message`.
    pub fn rejected(message: String) -> (r: EpisodeServerResult)
        ensures
            !r.status,
            r.message@ == message@,
            r.data@ == Map::<Seq<char>, Seq<ServerView>>::empty(),
    {
        EpisodeServerResult { status: false, message, data: ServerGroups::new() }
    }
}

/// The answer once the catalogue replied: a failed status gives an empty
/// answer; otherwise the `html` field of the reply (empty when there is
/// none) is read for its server groups; `None` when `visdom` cannot parse
/// it.
pub fn episode_server_outcome(success: bool, html_field: Option<String>) -> (r: Option<
    EpisodeServerResult,
>)
    ensures
        !success ==> (r matches Some(a) && !a.status && a.message@.len() == 0 && a.data@
            == Map::<Seq<char>, Seq<ServerView>>::empty()),
        success ==> match r {
            Some(a) => a.status && a.message@.len() == 0 && episode_servers_page(
                crate::search::or_empty(crate::text::opt_view(html_field)),
            ) == Some(a.data@),
            None => episode_servers_page(
                crate::search::or_empty(crate::text::opt_view(html_field)),
            ) is None,
        },
{
    if !success {
        return Some(EpisodeServerResult { status: false, message: String::new(), data: ServerGroups::new() });
    }
    let html = match html_field {
        Some(h) => h,
        None => String::new(),
    };
    match parse_episode_servers(html.as_str()) {
        Some(groups) => Some(EpisodeServerResult { status: true, message: String::new(), data: groups }),
        None => None,
    }
}

} // verus!
