# hianime

A scraper plugin for the hianime.to catalogue and the megacloud.blog stream
host, exposed as four C functions (`search`, `get_episode_list`,
`get_episode_server`, `get_server`) that take and return JSON strings.

`src/` is the verified library, checked by Verus:

- `request` — the URL, `Referer` and `Host` of every request the plugin makes;
- `search`, `episode_list`, `episode_server` — what a result page, an episode
  list and a server list hold, and the answers built from them;
- `token` — where a player page hides its key token;
- `stream` — the steps from an episode server to its stream, as a state
  machine;
- `dom`, `encode` — the HTML queries (`visdom`) and the percent-encoding
  (`urlencoding`) that the library relies on, with their stated behaviour;
- `text`, `number` — the character and number handling underneath.

`app/` holds the C entry points: argument parsing, the HTTP requests
(`reqwest`) and the JSON answers (`serde_json`).
