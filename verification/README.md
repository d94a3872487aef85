# ddnet_core

Verified core logic of a DDNet client and server, written in Verus.

`src/` is the verified library. Each module states its behaviour in
`requires`/`ensures` contracts over mathematical views, and the laws that
span several calls are public proof functions.

| module | what it holds |
| --- | --- |
| `text` | character helpers on `String`/`str` |
| `escape` | quoting and unquoting of console arguments |
| `network_string` | length-limited strings and reduced ASCII names |
| `parsing` | config value usage strings, alias entries, modifiers |
| `pool`, `mt_pool`, `mt_datatypes` | object pools that recycle items |
| `errors`, `event`, `plugins` | connection close codes, bans, kicks |
| `connection_limit` | total and per-ip connection limits |
| `ordered_channels` | in-order channels of reliable packets and their framing |
| `network_types` | channel kinds, certificate checks, send errors, the automatic send |
| `binds` | key binds: chains of keys bound to actions |
| `graphics`, `render_setup` | canvas viewports, quad containers, render setups |
| `scene_handle`, `sound_memory` | sound scene ids and shared sound memory |
| `game_flow`, `local_players`, `community`, `client` | decisions of the client's game flow (phases, network events, byte rates, which saved inputs and snapshots a tick uses), its local players, console and demo requests, and the community server |
| `ui_textures` | the ui renderer's texture ids and the bytes of uploaded images |
| `wasm_runtime_types` | memory limits of wasm modules |

`app/` is ordinary Rust around the library: serde and thiserror copies of
library types, and the library's state behind locks for use across threads.

`tests/` runs the library on concrete values.
