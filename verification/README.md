# dghub

The link between the game Phira and a DGHub: every judgement of the game (Perfect, Good, Bad, Miss)
becomes a trigger message to the hub, as the mapping of the settings or of the hub's configuration
page says.

`src/` decides and computes, and is verified with Verus. `app/` is the running end: tasks, sockets
and requests, which carry out what `src/` decides.

| Module | What it holds |
|---|---|
| `grade` | the four grades |
| `text` | trimming, comparing, integers in decimal |
| `json`, `json::value` | JSON values, and the bridge to `serde_json` |
| `mapping`, `mapping::laws` | from grades to triggers, and how a configuration changes that |
| `hello`, `hello::laws` | the greeting, with the page of parameters that the hub shows |
| `token` | session tokens and addresses |
| `live` | a session: hits, spacing, configuration, ping and stop |
| `run` | an attempt at a session, from the token to its end |
| `supervisor` | the attempts of a connection task, and what a task that was replaced may still do |
| `hub` | status, events and session as the game sees them |
| `scan`, `lan` | the scan of the local network |
| `update` | what the game hands on every frame |

Durations are decimal text in `src/`. They become floats only where JSON is written.
