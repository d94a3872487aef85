//! The decisions of the client's game flow: what one update of the game does
//! in each phase, and what an event of the network does to the game. The
//! caller performs the work (connecting, loading, sending) and keeps the
//! phase; times are in nanoseconds since the client started.

use vstd::prelude::*;

use crate::errors::BanType;
use crate::network_string::{lossy_reduced, NetworkReducedAsciiString, NetworkString};
use crate::text::{chars_of, lowercase, push_char, push_chars, to_lowercase};

verus! {

/// The phase of the game.
#[derive(Debug, Clone, Copy, PartialEq, Eq, Structural)]
pub enum GamePhase {
    NoGame,
    Failed,
    PrepareConnect,
    Connecting,
    Loading,
    WaitingForFirstSnapshot,
    Active,
}

/// How long changed player info waits before it is sent, in nanoseconds.
pub const PLAYER_INFO_SEND_DELAY_NANOS: u128 = 5_000_000_000;

/// How long the error of a failed game is shown, in seconds.
pub const GAME_ERROR_NOTIFY_SECS: u64 = 10;

/// What the game saw of the outside world in one update.
#[derive(Debug, Clone, Copy)]
pub struct GameUpdateInput {
    pub now_nanos: u128,
    /// the local player's settings changed
    pub player_info_changed: bool,
    /// the local player's controls changed
    pub controls_changed: bool,
    /// the account, dictionary and certificate tasks are all done
    pub connect_tasks_finished: bool,
    pub server_cert_ok: bool,
    pub account_ok: bool,
    pub map_fully_loaded: bool,
    pub map_load_failed: bool,
}

/// What one update of the game does.
#[derive(Debug, Clone, Copy, PartialEq, Eq, Structural)]
pub enum GameUpdateAction {
    Nothing,
    /// an active game: whether the player info is sent now, and whether the
    /// binds of the local players are built again
    SyncActive { send_player_info: bool, rebind_controls: bool },
    /// start connecting to the server
    Connect,
    /// connecting cannot start: the certificate or account task failed
    /// (both, or only one)
    FailConnect { both_failed: bool },
    /// the map is loaded: tell the server and wait for the first snapshot
    FinishLoading,
    /// load on; whether the load error is shown
    ContinueLoading { report_error: bool },
    /// show the game's error for `notify_secs` seconds and leave the game
    ReportError { notify_secs: u64 },
}

/// The step of the changed-player-info timer: a change (re)starts the wait;
/// once more than the delay has passed since, the info is sent and the wait
/// ends. Gives the new pending time and whether to send.
pub open spec fn spec_player_info_sync(next_change: Option<u128>, changed: bool, now: u128) -> (
    Option<u128>,
    bool,
) {
    let pending = if changed {
        Some(now)
    } else {
        next_change
    };
    match pending {
        Some(t) => if now > t && now - t > PLAYER_INFO_SEND_DELAY_NANOS {
            (None, true)
        } else {
            (pending, false)
        },
        None => (None, false),
    }
}

pub fn player_info_sync(next_change: Option<u128>, changed: bool, now: u128) -> (r: (
    Option<u128>,
    bool,
))
    ensures
        r == spec_player_info_sync(next_change, changed, now),
{
    let pending = if changed {
        Some(now)
    } else {
        next_change
    };
    match pending {
        Some(t) => {
            if now > t && now - t > PLAYER_INFO_SEND_DELAY_NANOS {
                (None, true)
            } else {
                (pending, false)
            }
        },
        None => (None, false),
    }
}

/// What an update does in `phase`, and the new pending time of the player
/// info (kept in an active game, cleared elsewhere).
pub open spec fn spec_game_update(phase: GamePhase, next_change: Option<u128>, input: GameUpdateInput) -> (
    GameUpdateAction,
    Option<u128>,
) {
    match phase {
        GamePhase::Active => {
            let (pending, send) = spec_player_info_sync(
                next_change,
                input.player_info_changed,
                input.now_nanos,
            );
            (
                GameUpdateAction::SyncActive {
                    send_player_info: send,
                    rebind_controls: input.controls_changed,
                },
                pending,
            )
        },
        GamePhase::PrepareConnect => if !input.connect_tasks_finished {
            (GameUpdateAction::Nothing, None)
        } else if input.server_cert_ok && input.account_ok {
            (GameUpdateAction::Connect, None)
        } else {
            (
                GameUpdateAction::FailConnect {
                    both_failed: !input.server_cert_ok && !input.account_ok,
                },
                None,
            )
        },
        GamePhase::Loading => if input.map_fully_loaded {
            (GameUpdateAction::FinishLoading, None)
        } else {
            (GameUpdateAction::ContinueLoading { report_error: input.map_load_failed }, None)
        },
        GamePhase::Failed => (GameUpdateAction::ReportError { notify_secs: GAME_ERROR_NOTIFY_SECS }, None),
        _ => (GameUpdateAction::Nothing, None),
    }
}

/// One update of the game in `phase`.
pub fn game_update(phase: GamePhase, next_change: Option<u128>, input: GameUpdateInput) -> (r: (
    GameUpdateAction,
    Option<u128>,
))
    ensures
        r == spec_game_update(phase, next_change, input),
{
    match phase {
        GamePhase::Active => {
            let (pending, send) = player_info_sync(
                next_change,
                input.player_info_changed,
                input.now_nanos,
            );
            (
                GameUpdateAction::SyncActive {
                    send_player_info: send,
                    rebind_controls: input.controls_changed,
                },
                pending,
            )
        },
        GamePhase::PrepareConnect => {
            if !input.connect_tasks_finished {
                (GameUpdateAction::Nothing, None)
            } else if input.server_cert_ok && input.account_ok {
                (GameUpdateAction::Connect, None)
            } else {
                (
                    GameUpdateAction::FailConnect {
                        both_failed: !input.server_cert_ok && !input.account_ok,
                    },
                    None,
                )
            }
        },
        GamePhase::Loading => {
            if input.map_fully_loaded {
                (GameUpdateAction::FinishLoading, None)
            } else {
                (GameUpdateAction::ContinueLoading { report_error: input.map_load_failed }, None)
            }
        },
        GamePhase::Failed => (GameUpdateAction::ReportError { notify_secs: GAME_ERROR_NOTIFY_SECS }, None),
        _ => (GameUpdateAction::Nothing, None),
    }
}

/// The phase after an update of `phase` that did `action`; `connect_started`
/// tells whether the network could start connecting (it matters only after
/// `Connect`).
pub open spec fn spec_next_phase(phase: GamePhase, action: GameUpdateAction, connect_started: bool) -> GamePhase {
    match action {
        GameUpdateAction::Connect => if connect_started {
            GamePhase::Connecting
        } else {
            GamePhase::Failed
        },
        GameUpdateAction::FailConnect { .. } => GamePhase::Failed,
        GameUpdateAction::FinishLoading => GamePhase::WaitingForFirstSnapshot,
        GameUpdateAction::ReportError { .. } => GamePhase::NoGame,
        _ => phase,
    }
}

/// The phase that follows an update.
pub fn next_phase(phase: GamePhase, action: GameUpdateAction, connect_started: bool) -> (r: GamePhase)
    ensures
        r == spec_next_phase(phase, action, connect_started),
{
    match action {
        GameUpdateAction::Connect => if connect_started {
            GamePhase::Connecting
        } else {
            GamePhase::Failed
        },
        GameUpdateAction::FailConnect { .. } => GamePhase::Failed,
        GameUpdateAction::FinishLoading => GamePhase::WaitingForFirstSnapshot,
        GameUpdateAction::ReportError { .. } => GamePhase::NoGame,
        _ => phase,
    }
}

/// What phase follows what in an update: no game and a connecting, waiting
/// or active game stay as they are; a failed game ends; a game preparing to
/// connect waits for its tasks, then connects or fails; a loading game
/// waits for its map, then waits for the first snapshot. An update never
/// makes a game active that was not.
pub proof fn lemma_update_phases(
    phase: GamePhase,
    next_change: Option<u128>,
    input: GameUpdateInput,
    connect_started: bool,
)
    ensures
        ({
            let next = spec_next_phase(phase, spec_game_update(phase, next_change, input).0, connect_started);
            &&& (phase == GamePhase::NoGame || phase == GamePhase::Connecting || phase
                == GamePhase::WaitingForFirstSnapshot || phase == GamePhase::Active) ==> next == phase
            &&& phase == GamePhase::Failed ==> next == GamePhase::NoGame
            &&& phase == GamePhase::PrepareConnect ==> (if !input.connect_tasks_finished {
                next == GamePhase::PrepareConnect
            } else if input.server_cert_ok && input.account_ok {
                next == (if connect_started { GamePhase::Connecting } else { GamePhase::Failed })
            } else {
                next == GamePhase::Failed
            })
            &&& phase == GamePhase::Loading ==> next == (if input.map_fully_loaded {
                GamePhase::WaitingForFirstSnapshot
            } else {
                GamePhase::Loading
            })
            &&& phase != GamePhase::Active ==> next != GamePhase::Active
        }),
{
}

/// The error of two failed connect tasks: both messages, joined by ". ".
pub fn join_errors(err1: &str, err2: &str) -> (r: String)
    ensures
        r@ == err1@ + ". "@ + err2@,
{
    let mut r = String::new();
    push_chars(&mut r, &chars_of(err1));
    push_char(&mut r, '.');
    push_char(&mut r, ' ');
    push_chars(&mut r, &chars_of(err2));
    proof {
        reveal_strlit(". ");
        assert(". "@ =~= seq!['.', ' ']);
        assert(r@ =~= err1@ + ". "@ + err2@);
    }
    r
}

/// Whose settings describe a local player: a dummy takes the dummy profile
/// (with the main profile for copied assets) when both exist; otherwise the
/// main profile, if it exists; otherwise the default player.
#[derive(Debug, Clone, Copy, PartialEq, Eq, Structural)]
pub enum PlayerInfoSource {
    Dummy { dummy: usize, main: usize },
    Main(usize),
    Default,
}

pub fn player_info_source(is_dummy: bool, dummy_index: u64, main_index: u64, player_count: usize) -> (r:
    PlayerInfoSource)
    ensures
        r == if is_dummy && dummy_index < player_count && main_index < player_count {
            PlayerInfoSource::Dummy { dummy: dummy_index as usize, main: main_index as usize }
        } else if main_index < player_count {
            PlayerInfoSource::Main(main_index as usize)
        } else {
            PlayerInfoSource::Default
        },
{
    let count = player_count as u64;
    if is_dummy && dummy_index < count && main_index < count {
        PlayerInfoSource::Dummy { dummy: dummy_index as usize, main: main_index as usize }
    } else if main_index < count {
        PlayerInfoSource::Main(main_index as usize)
    } else {
        PlayerInfoSource::Default
    }
}

/// The characters with every `-` replaced by `_`.
pub open spec fn dashes_to_underscores(s: Seq<char>) -> Seq<char> {
    s.map_values(|c: char| if c == '-' { '_' } else { c })
}

/// The name of a flag as the network carries it: in lower case, with `_`
/// for `-`.
pub fn network_flag_name(flag: &str) -> (r: String)
    ensures
        r@ == dashes_to_underscores(lowercase(flag@)),
{
    let lower = chars_of(to_lowercase(flag).as_str());
    let mut r = String::new();
    let mut i: usize = 0;
    while i < lower.len()
        invariant
            i <= lower@.len(),
            r@ == dashes_to_underscores(lower@.take(i as int)),
        decreases lower.len() - i,
    {
        let c = lower[i];
        push_char(&mut r, if c == '-' { '_' } else { c });
        i = i + 1;
        assert(r@ =~= dashes_to_underscores(lower@.take(i as int)));
    }
    assert(lower@.take(lower@.len() as int) =~= lower@);
    r
}

/// The texts of a player profile of the config: name, clan, flag, skin and
/// the names of its assets (weapon, freeze, ninja, game, ctf, hud,
/// entities, emoticons, particles, hook, in that order).
pub struct PlayerTexts {
    pub name: String,
    pub clan: String,
    pub flag: String,
    pub skin: String,
    pub assets: Vec<String>,
}

/// The texts of a player's character as the network carries them.
pub struct CharacterInfoTexts<
    const NAME: usize,
    const CLAN: usize,
    const FLAG: usize,
    const LANG: usize,
    const KEY: usize,
> {
    pub name: NetworkString<NAME>,
    pub clan: NetworkString<CLAN>,
    pub flag: NetworkString<FLAG>,
    pub lang: NetworkString<LANG>,
    /// resource key of the skin
    pub skin: NetworkReducedAsciiString<KEY>,
    /// resource keys of the assets, in the order of [`PlayerTexts::assets`]
    pub assets: Vec<NetworkReducedAsciiString<KEY>>,
}

/// Whether `keys` are the resource keys of `texts`: each made lossily (see
/// [`lossy_reduced`]) with at most `max` characters.
pub open spec fn keys_of<const KEY: usize>(keys: Seq<NetworkReducedAsciiString<KEY>>, texts: Seq<String>) -> bool {
    &&& keys.len() == texts.len()
    &&& forall|i: int| 0 <= i < keys.len() ==> #[trigger] keys[i]@ == lossy_reduced(texts[i]@, KEY as nat)
}

/// Whether the character info of `player` fits the network's limits.
pub open spec fn char_info_fits(
    name_max: nat,
    clan_max: nat,
    flag_max: nat,
    lang_max: nat,
    language: Seq<char>,
    player: PlayerTexts,
) -> bool {
    &&& player.name@.len() <= name_max
    &&& player.clan@.len() <= clan_max
    &&& dashes_to_underscores(lowercase(player.flag@)).len() <= flag_max
    &&& language.len() <= lang_max
}

fn resource_keys<const KEY: usize>(v: &Vec<String>) -> (r: Vec<NetworkReducedAsciiString<KEY>>)
    ensures
        keys_of(r@, v@),
{
    let mut r: Vec<NetworkReducedAsciiString<KEY>> = Vec::new();
    let mut i: usize = 0;
    while i < v.len()
        invariant
            i <= v@.len(),
            r@.len() == i,
            forall|j: int| 0 <= j < i ==> #[trigger] r@[j]@ == lossy_reduced(v@[j]@, KEY as nat),
        decreases v.len() - i,
    {
        let k = NetworkReducedAsciiString::<KEY>::from_str_lossy(v[i].as_str());
        r.push(k);
        i = i + 1;
    }
    r
}

/// The character info of a local player: name, clan and (normalized) flag
/// from `player`, the language of the client, the skin's resource key from
/// `player`, and the assets' resource keys from `copy_player` when the dummy
/// copies the main player's assets, else from `player`.
pub fn char_info_for_dummy<
    const NAME: usize,
    const CLAN: usize,
    const FLAG: usize,
    const LANG: usize,
    const KEY: usize,
>(
    language: &str,
    player: &PlayerTexts,
    copy_player: &PlayerTexts,
    copy_assets_from_main: bool,
) -> (r: CharacterInfoTexts<NAME, CLAN, FLAG, LANG, KEY>)
    requires
        char_info_fits(NAME as nat, CLAN as nat, FLAG as nat, LANG as nat, language@, *player),
    ensures
        r.name@ == player.name@,
        r.clan@ == player.clan@,
        r.flag@ == dashes_to_underscores(lowercase(player.flag@)),
        r.lang@ == language@,
        r.skin@ == lossy_reduced(player.skin@, KEY as nat),
        keys_of(
            r.assets@,
            if copy_assets_from_main {
                copy_player.assets@
            } else {
                player.assets@
            },
        ),
{
    let name = NetworkString::<NAME>::new(player.name.clone()).unwrap();
    let clan = NetworkString::<CLAN>::new(player.clan.clone()).unwrap();
    let flag = NetworkString::<FLAG>::new(network_flag_name(player.flag.as_str())).unwrap();
    let lang = NetworkString::<LANG>::try_from_str(language).unwrap();
    let assets = if copy_assets_from_main {
        resource_keys(&copy_player.assets)
    } else {
        resource_keys(&player.assets)
    };
    let skin = NetworkReducedAsciiString::<KEY>::from_str_lossy(player.skin.as_str());
    CharacterInfoTexts { name, clan, flag, lang, skin, assets }
}

/// Like [`char_info_for_dummy`], but nothing where a text is too long for
/// the network.
pub fn try_char_info_for_dummy<
    const NAME: usize,
    const CLAN: usize,
    const FLAG: usize,
    const LANG: usize,
    const KEY: usize,
>(
    language: &str,
    player: &PlayerTexts,
    copy_player: &PlayerTexts,
    copy_assets_from_main: bool,
) -> (r: Option<CharacterInfoTexts<NAME, CLAN, FLAG, LANG, KEY>>)
    ensures
        r is Some <==> char_info_fits(NAME as nat, CLAN as nat, FLAG as nat, LANG as nat, language@, *player),
        r matches Some(c) ==> c.name@ == player.name@ && c.clan@ == player.clan@ && c.flag@
            == dashes_to_underscores(lowercase(player.flag@)) && c.lang@ == language@ && c.skin@
            == lossy_reduced(player.skin@, KEY as nat) && keys_of(
            c.assets@,
            if copy_assets_from_main {
                copy_player.assets@
            } else {
                player.assets@
            },
        ),
{
    let flag = network_flag_name(player.flag.as_str());
    if player.name.as_str().unicode_len() <= NAME && player.clan.as_str().unicode_len() <= CLAN
        && flag.as_str().unicode_len() <= FLAG && language.unicode_len() <= LANG {
        Some(char_info_for_dummy(language, player, copy_player, copy_assets_from_main))
    } else {
        None
    }
}

/// What a message of the server is to the game.
#[derive(Debug, Clone, Copy, PartialEq, Eq, Structural)]
pub enum ServerMsgKind {
    /// the server's info, sent once the connection is up
    ServerInfo,
    /// the place in the queue of a full server
    QueueInfo,
    /// the server changes the map
    Load,
    Snapshot,
    Other,
}

/// What the game does with a message of the server.
#[derive(Debug, Clone, Copy, PartialEq, Eq, Structural)]
pub enum GameMsgAction {
    Ignore,
    /// start loading the map of the server info, with one local player
    /// (id 0, no dummy) expected and active, and the next id 1
    StartLoading,
    /// show the place in the queue on the connect page
    ShowQueue,
    /// load the new map: the ui opens on the connect page and all expected
    /// local players are connecting again
    Reload,
    /// hand the message to the running game; the first snapshot also
    /// closes the ui and shows the game
    HandleInGame { first_snapshot: bool },
}

pub open spec fn spec_game_on_msg(phase: GamePhase, msg: ServerMsgKind) -> (GamePhase, GameMsgAction) {
    match phase {
        GamePhase::Connecting => match msg {
            ServerMsgKind::ServerInfo => (GamePhase::Loading, GameMsgAction::StartLoading),
            ServerMsgKind::QueueInfo => (GamePhase::Connecting, GameMsgAction::ShowQueue),
            _ => (GamePhase::Connecting, GameMsgAction::Ignore),
        },
        GamePhase::WaitingForFirstSnapshot | GamePhase::Active => match msg {
            ServerMsgKind::Load => (GamePhase::Loading, GameMsgAction::Reload),
            ServerMsgKind::Snapshot => if phase == GamePhase::WaitingForFirstSnapshot {
                (GamePhase::Active, GameMsgAction::HandleInGame { first_snapshot: true })
            } else {
                (phase, GameMsgAction::HandleInGame { first_snapshot: false })
            },
            _ => (phase, GameMsgAction::HandleInGame { first_snapshot: false }),
        },
        GamePhase::Failed => (GamePhase::NoGame, GameMsgAction::Ignore),
        _ => (phase, GameMsgAction::Ignore),
    }
}

/// A message of the server to the game in `phase`: the next phase and what
/// the game does.
pub fn game_on_msg(phase: GamePhase, msg: ServerMsgKind) -> (r: (GamePhase, GameMsgAction))
    ensures
        r == spec_game_on_msg(phase, msg),
{
    match phase {
        GamePhase::Connecting => match msg {
            ServerMsgKind::ServerInfo => (GamePhase::Loading, GameMsgAction::StartLoading),
            ServerMsgKind::QueueInfo => (GamePhase::Connecting, GameMsgAction::ShowQueue),
            _ => (GamePhase::Connecting, GameMsgAction::Ignore),
        },
        GamePhase::WaitingForFirstSnapshot | GamePhase::Active => match msg {
            ServerMsgKind::Load => (GamePhase::Loading, GameMsgAction::Reload),
            ServerMsgKind::Snapshot => {
                if let GamePhase::WaitingForFirstSnapshot = phase {
                    (GamePhase::Active, GameMsgAction::HandleInGame { first_snapshot: true })
                } else {
                    (phase, GameMsgAction::HandleInGame { first_snapshot: false })
                }
            },
            _ => (phase, GameMsgAction::HandleInGame { first_snapshot: false }),
        },
        GamePhase::Failed => (GamePhase::NoGame, GameMsgAction::Ignore),
        _ => (phase, GameMsgAction::Ignore),
    }
}

/// The page and ui after a message's action: `(ui open, route)`, each
/// `None` where it stays.
pub open spec fn spec_msg_ui(action: GameMsgAction) -> (Option<bool>, Option<ClientRoute>) {
    match action {
        GameMsgAction::ShowQueue => (None, Some(ClientRoute::Connect)),
        GameMsgAction::Reload => (Some(true), Some(ClientRoute::Connect)),
        GameMsgAction::HandleInGame { first_snapshot: true } => (Some(false), Some(ClientRoute::Ingame)),
        _ => (None, None),
    }
}

/// What a network event is to the game.
#[derive(Debug, Clone, Copy, PartialEq, Eq, Structural)]
pub enum GameNetworkEvent {
    Connected,
    /// the connection ended; `graceful` when the client left on purpose
    Disconnected { graceful: bool },
    ConnectingFailed,
    NetworkStats,
    Message { msg: ServerMsgKind },
}

/// What the game does with a network event.
#[derive(Debug, Clone, Copy, PartialEq, Eq, Structural)]
pub enum GameEventAction {
    Ignore,
    /// leave the game and open the ui: on the connect page with the error
    /// (shown if the game had a connection to report it on), or on the
    /// start page after a graceful disconnect
    Disconnect { to_connect_page: bool, report_error: bool },
    /// go to the connect page; the error is shown if the game was connecting
    ConnectingFailed { report_error: bool },
    /// count the network statistics
    UpdateStats,
    /// hand the message to the game
    HandleMessage,
}

/// Whether the game in `phase` has a network that hands out events.
pub open spec fn has_network(phase: GamePhase) -> bool {
    match phase {
        GamePhase::Connecting | GamePhase::Loading | GamePhase::WaitingForFirstSnapshot
        | GamePhase::Active => true,
        _ => false,
    }
}

pub fn game_has_network(phase: GamePhase) -> (r: bool)
    ensures
        r == has_network(phase),
{
    match phase {
        GamePhase::Connecting | GamePhase::Loading | GamePhase::WaitingForFirstSnapshot
        | GamePhase::Active => true,
        _ => false,
    }
}

/// What the game in `phase` does with `event`.
pub open spec fn spec_game_event_action(phase: GamePhase, event: GameNetworkEvent) -> GameEventAction {
    match event {
            GameNetworkEvent::Connected => GameEventAction::Ignore,
            GameNetworkEvent::Disconnected { graceful } => GameEventAction::Disconnect {
                to_connect_page: !graceful,
                report_error: !graceful && phase != GamePhase::NoGame && phase != GamePhase::Failed,
            },
            GameNetworkEvent::ConnectingFailed => GameEventAction::ConnectingFailed {
                report_error: phase == GamePhase::Connecting,
            },
            GameNetworkEvent::NetworkStats => if phase == GamePhase::Active {
                GameEventAction::UpdateStats
            } else {
                GameEventAction::Ignore
            },
            GameNetworkEvent::Message { .. } => GameEventAction::HandleMessage,
        }
}

/// What the game in `phase` does with `event`.
pub fn game_event_action(phase: GamePhase, event: GameNetworkEvent) -> (r: GameEventAction)
    ensures
        r == spec_game_event_action(phase, event),
{
    match event {
        GameNetworkEvent::Connected => GameEventAction::Ignore,
        GameNetworkEvent::Disconnected { graceful } => {
            let has_connect_info = match phase {
                GamePhase::NoGame | GamePhase::Failed => false,
                _ => true,
            };
            GameEventAction::Disconnect {
                to_connect_page: !graceful,
                report_error: !graceful && has_connect_info,
            }
        },
        GameNetworkEvent::ConnectingFailed => GameEventAction::ConnectingFailed {
            report_error: match phase {
                GamePhase::Connecting => true,
                _ => false,
            },
        },
        GameNetworkEvent::NetworkStats => match phase {
            GamePhase::Active => GameEventAction::UpdateStats,
            _ => GameEventAction::Ignore,
        },
        GameNetworkEvent::Message { .. } => GameEventAction::HandleMessage,
    }
}

/// The page of the ui that is shown.
#[derive(Debug, Clone, Copy, PartialEq, Eq, Structural)]
pub enum ClientRoute {
    /// the start page (`""`)
    Home,
    /// the connect page (`"connect"`)
    Connect,
    /// the game (`"ingame"`)
    Ingame,
    /// another page of the ui
    Other,
}

/// The path of a route in the ui.
pub open spec fn spec_route_path(r: ClientRoute) -> Seq<char> {
    match r {
        ClientRoute::Home => ""@,
        ClientRoute::Connect => "connect"@,
        ClientRoute::Ingame => "ingame"@,
        ClientRoute::Other => "other"@,
    }
}

pub fn route_path(r: ClientRoute) -> (s: &'static str)
    ensures
        s@ == spec_route_path(r),
{
    match r {
        ClientRoute::Home => "",
        ClientRoute::Connect => "connect",
        ClientRoute::Ingame => "ingame",
        ClientRoute::Other => "other",
    }
}

/// Whether the events of the game's network are taken in this update: only
/// a game with a network that flagged new events. Gives that, and the flag
/// afterwards (cleared when the events are taken, else as it was).
pub open spec fn spec_take_events(phase: GamePhase, has_new_events: bool) -> (bool, bool) {
    if has_network(phase) && has_new_events {
        (true, false)
    } else {
        (false, has_new_events)
    }
}

pub fn take_events(phase: GamePhase, has_new_events: bool) -> (r: (bool, bool))
    ensures
        r == spec_take_events(phase, has_new_events),
{
    if game_has_network(phase) && has_new_events {
        (true, false)
    } else {
        (false, has_new_events)
    }
}

/// What the network events change of the client: the game's phase, the
/// page shown, and whether the ui is open.
#[derive(Debug, Clone, Copy, PartialEq, Eq, Structural)]
pub struct GameEventState {
    pub phase: GamePhase,
    pub route: ClientRoute,
    pub ui_open: bool,
}

/// The state after the game handled one network event (whose action is
/// [`game_event_action`]'s).
pub open spec fn spec_game_event_step(s: GameEventState, event: GameNetworkEvent) -> GameEventState {
    match event {
        GameNetworkEvent::Disconnected { graceful } => GameEventState {
            phase: GamePhase::NoGame,
            route: if graceful {
                ClientRoute::Home
            } else {
                ClientRoute::Connect
            },
            ui_open: true,
        },
        GameNetworkEvent::ConnectingFailed => GameEventState { route: ClientRoute::Connect, ..s },
        GameNetworkEvent::Message { msg } => {
            let (phase, action) = spec_game_on_msg(s.phase, msg);
            let (ui, route) = spec_msg_ui(action);
            GameEventState {
                phase,
                route: match route {
                    Some(r) => r,
                    None => s.route,
                },
                ui_open: match ui {
                    Some(u) => u,
                    None => s.ui_open,
                },
            }
        },
        _ => s,
    }
}

/// What the server's messages do to the phase, the page and the ui: a map
/// change in a running (or starting) game starts loading and opens the ui
/// on the connect page; the first snapshot makes the game active, closes
/// the ui and shows the game; the place in the queue is shown on the
/// connect page; a failed game gives way to no game; and the page and ui
/// stay as they were for every other message.
pub proof fn lemma_message_pages(s: GameEventState, msg: ServerMsgKind)
    ensures
        ({
            let r = spec_game_event_step(s, GameNetworkEvent::Message { msg });
            &&& (s.phase == GamePhase::Active || s.phase == GamePhase::WaitingForFirstSnapshot)
                && msg == ServerMsgKind::Load ==> r == GameEventState {
                phase: GamePhase::Loading,
                route: ClientRoute::Connect,
                ui_open: true,
            }
            &&& s.phase == GamePhase::WaitingForFirstSnapshot && msg == ServerMsgKind::Snapshot ==> r
                == GameEventState { phase: GamePhase::Active, route: ClientRoute::Ingame, ui_open: false }
            &&& s.phase == GamePhase::Connecting && msg == ServerMsgKind::QueueInfo ==> r
                == GameEventState { phase: GamePhase::Connecting, route: ClientRoute::Connect, ui_open: s.ui_open }
            &&& s.phase == GamePhase::Connecting && msg == ServerMsgKind::ServerInfo ==> r
                == GameEventState { phase: GamePhase::Loading, ..s }
            &&& s.phase == GamePhase::Failed ==> r == GameEventState { phase: GamePhase::NoGame, ..s }
            &&& !(msg == ServerMsgKind::Load && (s.phase == GamePhase::Active || s.phase
                == GamePhase::WaitingForFirstSnapshot)) && !(msg == ServerMsgKind::Snapshot && s.phase
                == GamePhase::WaitingForFirstSnapshot) && !(msg == ServerMsgKind::QueueInfo && s.phase
                == GamePhase::Connecting) ==> r.route == s.route && r.ui_open == s.ui_open
        }),
{
}

/// What the connection's events do to the phase, the page and the ui: when
/// the connection ends the game is gone and the ui opens, on the start page
/// after the client left on purpose and on the connect page otherwise; when
/// connecting fails the connect page is shown; being connected and the
/// statistics change nothing.
pub proof fn lemma_connection_pages(s: GameEventState, event: GameNetworkEvent)
    ensures
        ({
            let r = spec_game_event_step(s, event);
            &&& event matches GameNetworkEvent::Disconnected { graceful } ==> r.phase
                == GamePhase::NoGame && r.ui_open && (graceful ==> r.route == ClientRoute::Home)
                && (!graceful ==> r.route == ClientRoute::Connect)
            &&& event == GameNetworkEvent::ConnectingFailed ==> r == GameEventState {
                route: ClientRoute::Connect,
                ..s
            }
            &&& (event == GameNetworkEvent::Connected || event == GameNetworkEvent::NetworkStats) ==> r == s
        }),
{
}

/// One network event: the new state and what the game does with it.
pub fn game_event_step(s: GameEventState, event: GameNetworkEvent) -> (r: (GameEventState, GameEventAction))
    ensures
        r.0 == spec_game_event_step(s, event),
        r.1 == spec_game_event_action(s.phase, event),
{
    let action = game_event_action(s.phase, event);
    let next = match event {
        GameNetworkEvent::Disconnected { graceful } => GameEventState {
            phase: GamePhase::NoGame,
            route: if graceful {
                ClientRoute::Home
            } else {
                ClientRoute::Connect
            },
            ui_open: true,
        },
        GameNetworkEvent::ConnectingFailed => GameEventState {
            phase: s.phase,
            route: ClientRoute::Connect,
            ui_open: s.ui_open,
        },
        GameNetworkEvent::Message { msg } => {
            let (phase, msg_action) = game_on_msg(s.phase, msg);
            let (ui, route): (Option<bool>, Option<ClientRoute>) = match msg_action {
                GameMsgAction::ShowQueue => (None, Some(ClientRoute::Connect)),
                GameMsgAction::Reload => (Some(true), Some(ClientRoute::Connect)),
                GameMsgAction::HandleInGame { first_snapshot: true } => (
                    Some(false),
                    Some(ClientRoute::Ingame),
                ),
                _ => (None, None),
            };
            GameEventState {
                phase,
                route: match route {
                    Some(r) => r,
                    None => s.route,
                },
                ui_open: match ui {
                    Some(u) => u,
                    None => s.ui_open,
                },
            }
        },
        _ => s,
    };
    (next, action)
}

/// All events taken in one update, in order: the state after each and the
/// actions, one per event.
pub open spec fn spec_events_fold(s: GameEventState, events: Seq<GameNetworkEvent>) -> (
    GameEventState,
    Seq<GameEventAction>,
)
    decreases events.len(),
{
    if events.len() == 0 {
        (s, Seq::empty())
    } else {
        let rest = spec_events_fold(spec_game_event_step(s, events[0]), events.drop_first());
        (rest.0, seq![spec_game_event_action(s.phase, events[0])] + rest.1)
    }
}

/// One update of the game's network events: when events are taken (see
/// [`take_events`]) they are handled in order; otherwise nothing changes
/// and no action is taken. Gives the new state, the new-events flag and
/// the actions.
pub fn game_events_update(s: GameEventState, has_new_events: bool, events: &Vec<GameNetworkEvent>) -> (r: (
    GameEventState,
    bool,
    Vec<GameEventAction>,
))
    ensures
        ({
            let (take, flag) = spec_take_events(s.phase, has_new_events);
            &&& r.1 == flag
            &&& take ==> r.0 == spec_events_fold(s, events@).0 && r.2@ == spec_events_fold(s, events@).1
            &&& !take ==> r.0 == s && r.2@ == Seq::<GameEventAction>::empty()
        }),
{
    let (take, flag) = take_events(s.phase, has_new_events);
    if !take {
        return (s, flag, Vec::new());
    }
    let mut cur = s;
    let mut actions: Vec<GameEventAction> = Vec::new();
    let mut i: usize = 0;
    proof {
        assert(events@.skip(0) =~= events@);
        let all = spec_events_fold(s, events@);
        assert(actions@ + all.1 =~= all.1);
    }
    while i < events.len()
        invariant
            i <= events@.len(),
            spec_events_fold(s, events@) == ({
                let rest = spec_events_fold(cur, events@.skip(i as int));
                (rest.0, actions@ + rest.1)
            }),
        decreases events.len() - i,
    {
        let ghost before = cur;
        let (next, a) = game_event_step(cur, events[i]);
        proof {
            let tail = events@.skip(i as int);
            assert(tail[0] == events@[i as int]);
            assert(tail.drop_first() =~= events@.skip(i + 1));
            let rest = spec_events_fold(next, events@.skip(i + 1));
            assert(actions@.push(a) + rest.1 =~= actions@ + (seq![a] + rest.1));
        }
        actions.push(a);
        cur = next;
        i = i + 1;
    }
    proof {
        assert(events@.skip(i as int) =~= Seq::<GameNetworkEvent>::empty());
        assert(actions@ + Seq::<GameEventAction>::empty() =~= actions@);
    }
    (cur, flag, actions)
}

/// The error shown when the connection ended or connecting failed: for a
/// ban "banned " with the ban's reason and, if it ends, " until " with the
/// end time (as the caller writes it); otherwise the reason's own text.
pub open spec fn spec_close_message(ban: Option<(BanType, Option<Seq<char>>)>, reason_text: Seq<char>) -> Seq<char> {
    match ban {
        Some((msg, until)) => "banned "@ + msg.spec_text() + match until {
            Some(t) => " until "@ + t,
            None => Seq::empty(),
        },
        None => reason_text,
    }
}

pub fn close_message(ban: Option<(BanType, Option<String>)>, reason_text: String) -> (r: String)
    ensures
        r@ == spec_close_message(
            match ban {
                Some((m, u)) => Some((m, match u {
                    Some(t) => Some(t@),
                    None => None,
                })),
                None => None,
            },
            reason_text@,
        ),
{
    match ban {
        Some((msg, until)) => {
            let mut r = String::from_str("banned ");
            let text = msg.to_display_string();
            push_chars(&mut r, &chars_of(text.as_str()));
            match until {
                Some(t) => {
                    let mid = String::from_str(" until ");
                    push_chars(&mut r, &chars_of(mid.as_str()));
                    push_chars(&mut r, &chars_of(t.as_str()));
                    proof {
                        reveal_strlit("banned ");
                        reveal_strlit(" until ");
                    }
                },
                None => {
                    proof {
                        reveal_strlit("banned ");
                    }
                    assert(r@ =~= "banned "@ + msg.spec_text() + Seq::<char>::empty());
                },
            }
            r
        },
        None => reason_text,
    }
}

/// Fraction bits of the fixed-point numbers of the byte rates: a rate is
/// held in units of 2^-32 bytes per second, a time span in units of 2^-32
/// seconds.
pub const BYTE_RATE_FRAC_BITS: u128 = 32;

/// The network byte statistics of an active game.
#[derive(Debug, Clone, Copy, PartialEq, Eq, Structural)]
pub struct NetByteStats {
    /// fixed point, see [`BYTE_RATE_FRAC_BITS`]
    pub bytes_per_sec_sent: u128,
    /// fixed point, see [`BYTE_RATE_FRAC_BITS`]
    pub bytes_per_sec_recv: u128,
    /// nanoseconds
    pub last_timestamp: u64,
    pub last_bytes_sent: u64,
    pub last_bytes_recv: u64,
}

/// A span of `nanos` nanoseconds (at least one microsecond) in fixed-point
/// seconds, truncated.
pub open spec fn span_secs_fixed(nanos: u64) -> int {
    let dt: int = if nanos >= 1000 { nanos as int } else { 1000 };
    dt * 0x1_0000_0000 / 1_000_000_000
}

/// The rate after new statistics, computed in fixed point as the game does:
/// half the old rate plus half of (the bytes since the last statistics,
/// divided by the time since then in seconds). The time span is first
/// turned into fixed-point seconds (truncating), then the bytes are divided
/// by it (truncating); differences that would be negative count as zero,
/// and the sum is capped at the largest rate that can be held.
pub open spec fn spec_rate_step(old_rate: u128, last_bytes: u64, bytes: u64, dt_nanos: u64) -> u128 {
    let delta: int = if bytes >= last_bytes { bytes - last_bytes } else { 0 };
    let recent: int = delta * 0x1_0000_0000 * 0x1_0000_0000 / span_secs_fixed(dt_nanos);
    let r: int = old_rate * 50 / 100 + recent * 50 / 100;
    if r > u128::MAX { u128::MAX } else { r as u128 }
}

/// The time since the last statistics, zero if the clock went back.
pub open spec fn spec_elapsed(last: u64, now: u64) -> u64 {
    if now >= last { (now - last) as u64 } else { 0 }
}

pub open spec fn spec_byte_stats_step(b: NetByteStats, bytes_sent: u64, bytes_recv: u64, now: u64) -> NetByteStats {
    NetByteStats {
        bytes_per_sec_sent: spec_rate_step(
            b.bytes_per_sec_sent,
            b.last_bytes_sent,
            bytes_sent,
            spec_elapsed(b.last_timestamp, now),
        ),
        bytes_per_sec_recv: spec_rate_step(
            b.bytes_per_sec_recv,
            b.last_bytes_recv,
            bytes_recv,
            spec_elapsed(b.last_timestamp, now),
        ),
        last_timestamp: now,
        last_bytes_sent: bytes_sent,
        last_bytes_recv: bytes_recv,
    }
}

fn rate_step(old_rate: u128, last_bytes: u64, bytes: u64, dt_nanos: u64) -> (r: u128)
    ensures
        r == spec_rate_step(old_rate, last_bytes, bytes, dt_nanos),
{
    let delta: u128 = bytes.saturating_sub(last_bytes) as u128;
    let dt: u128 = if dt_nanos >= 1000 { dt_nanos as u128 } else { 1000 };
    assert(dt * 0x1_0000_0000 <= 0xffff_ffff_ffff_ffff * 0x1_0000_0000) by (nonlinear_arith)
        requires
            dt <= 0xffff_ffff_ffff_ffff,
    ;
    let dt_fix: u128 = dt * 0x1_0000_0000 / 1_000_000_000;
    assert(dt * 0x1_0000_0000 / 1_000_000_000 >= 4294) by (nonlinear_arith)
        requires
            dt >= 1000,
    ;
    assert(delta * 0x1_0000_0000 * 0x1_0000_0000 <= 0xffff_ffff_ffff_ffff * 0x1_0000_0000
        * 0x1_0000_0000) by (nonlinear_arith)
        requires
            delta <= 0xffff_ffff_ffff_ffff,
    ;
    let scaled: u128 = delta * 0x1_0000_0000 * 0x1_0000_0000;
    let recent: u128 = scaled / dt_fix;
    let half_old: u128 = old_rate / 2;
    let half_recent: u128 = recent / 2;
    assert(old_rate * 50 / 100 == old_rate / 2) by (nonlinear_arith);
    assert(recent * 50 / 100 == recent / 2) by (nonlinear_arith);
    half_old.saturating_add(half_recent)
}

/// Counts new network statistics of an active game at time `now`
/// (nanoseconds).
pub fn byte_stats_step(b: NetByteStats, bytes_sent: u64, bytes_recv: u64, now: u64) -> (r: NetByteStats)
    ensures
        r == spec_byte_stats_step(b, bytes_sent, bytes_recv, now),
{
    let dt = now.saturating_sub(b.last_timestamp);
    NetByteStats {
        bytes_per_sec_sent: rate_step(b.bytes_per_sec_sent, b.last_bytes_sent, bytes_sent, dt),
        bytes_per_sec_recv: rate_step(b.bytes_per_sec_recv, b.last_bytes_recv, bytes_recv, dt),
        last_timestamp: now,
        last_bytes_sent: bytes_sent,
        last_bytes_recv: bytes_recv,
    }
}

/// Changed player info is sent at most once per change: right after it was
/// sent nothing is pending, and without a new change nothing is sent again.
pub proof fn lemma_player_info_sent_once(next_change: Option<u128>, changed: bool, now: u128, later: u128)
    requires
        spec_player_info_sync(next_change, changed, now).1,
    ensures
        spec_player_info_sync(next_change, changed, now).0 is None,
        !spec_player_info_sync(spec_player_info_sync(next_change, changed, now).0, false, later).1,
{
}


/// Of the ticks whose inputs were saved, in the order they were saved: the
/// position of the last one that equals `tick`.
pub open spec fn index_of_tick(ticks: Seq<u64>, tick: int) -> Option<int>
    decreases ticks.len(),
{
    if ticks.len() == 0 {
        None
    } else if ticks.last() == tick {
        Some(ticks.len() - 1)
    } else {
        index_of_tick(ticks.drop_last(), tick)
    }
}

/// The position of the last saved tick that is not after `bound`.
pub open spec fn last_at_most(ticks: Seq<u64>, bound: int) -> Option<int>
    decreases ticks.len(),
{
    if ticks.len() == 0 {
        None
    } else if ticks.last() <= bound {
        Some(ticks.len() - 1)
    } else {
        last_at_most(ticks.drop_last(), bound)
    }
}

/// Which saved inputs a predicted tick applies: `chosen` holds the inputs
/// that are applied (none: no input is applied), `base` the inputs each
/// player's previous input is taken from. Both are positions in the list of
/// saved ticks.
#[derive(Debug, Clone, Copy, PartialEq, Eq, Structural)]
pub struct TickInputChoice {
    pub chosen: Option<usize>,
    pub base: Option<usize>,
}

/// The inputs for the tick after `predicted_tick`: those saved for that tick,
/// else the latest saved one not after it; the inputs of `predicted_tick`
/// itself serve as the previous ones, and, where `fallback_to_prev` is set,
/// are applied when nothing was found for the next tick.
pub open spec fn spec_tick_input_choice(ticks: Seq<u64>, predicted_tick: int, fallback_to_prev: bool) -> (
    Option<int>,
    Option<int>,
) {
    let next = match index_of_tick(ticks, predicted_tick + 1) {
        Some(i) => Some(i),
        None => last_at_most(ticks, predicted_tick + 1),
    };
    let prev = index_of_tick(ticks, predicted_tick);
    let chosen = if fallback_to_prev && next is None { prev } else { next };
    let base = if prev is Some { prev } else { next };
    (chosen, base)
}

pub open spec fn opt_index(o: Option<usize>) -> Option<int> {
    match o {
        Some(i) => Some(i as int),
        None => None,
    }
}

proof fn lemma_index_of_tick_bounds(ticks: Seq<u64>, tick: int)
    ensures
        index_of_tick(ticks, tick) matches Some(i) ==> 0 <= i < ticks.len() && ticks[i] == tick,
    decreases ticks.len(),
{
    if ticks.len() > 0 && ticks.last() != tick {
        lemma_index_of_tick_bounds(ticks.drop_last(), tick);
    }
}

proof fn lemma_last_at_most_bounds(ticks: Seq<u64>, bound: int)
    ensures
        last_at_most(ticks, bound) matches Some(i) ==> 0 <= i < ticks.len() && ticks[i] <= bound,
    decreases ticks.len(),
{
    if ticks.len() > 0 && ticks.last() > bound {
        lemma_last_at_most_bounds(ticks.drop_last(), bound);
    }
}

proof fn lemma_last_at_most_none(ticks: Seq<u64>, bound: int)
    ensures
        last_at_most(ticks, bound) is None ==> forall|i: int|
            0 <= i < ticks.len() ==> ticks[i] > bound,
    decreases ticks.len(),
{
    if ticks.len() > 0 && ticks.last() > bound {
        lemma_last_at_most_none(ticks.drop_last(), bound);
        assert forall|i: int| 0 <= i < ticks.len() && last_at_most(ticks, bound) is None implies ticks[i]
            > bound by {
            if i < ticks.len() - 1 {
                assert(ticks[i] == ticks.drop_last()[i]);
            }
        }
    }
}

/// Falling back to the current tick's inputs never changes which inputs are
/// applied: when nothing is found for the next tick, no saved tick lies at or
/// before it, so none was saved for the current tick either.
pub proof fn lemma_fallback_changes_nothing(ticks: Seq<u64>, predicted_tick: int)
    ensures
        spec_tick_input_choice(ticks, predicted_tick, true) == spec_tick_input_choice(
            ticks,
            predicted_tick,
            false,
        ),
{
    lemma_last_at_most_none(ticks, predicted_tick + 1);
    lemma_index_of_tick_bounds(ticks, predicted_tick);
}

fn find_tick(ticks: &Vec<u64>, tick: u64) -> (r: Option<usize>)
    ensures
        opt_index(r) == index_of_tick(ticks@, tick as int),
{
    let mut i: usize = ticks.len();
    assert(ticks@.take(i as int) =~= ticks@);
    while i > 0
        invariant
            i <= ticks@.len(),
            index_of_tick(ticks@, tick as int) == index_of_tick(ticks@.take(i as int), tick as int),
        decreases i,
    {
        assert(ticks@.take(i as int).drop_last() =~= ticks@.take(i - 1));
        if ticks[i - 1] == tick {
            return Some(i - 1);
        }
        i = i - 1;
    }
    None
}

fn find_last_at_most(ticks: &Vec<u64>, bound: u64) -> (r: Option<usize>)
    ensures
        opt_index(r) == last_at_most(ticks@, bound as int),
{
    let mut i: usize = ticks.len();
    assert(ticks@.take(i as int) =~= ticks@);
    while i > 0
        invariant
            i <= ticks@.len(),
            last_at_most(ticks@, bound as int) == last_at_most(ticks@.take(i as int), bound as int),
        decreases i,
    {
        assert(ticks@.take(i as int).drop_last() =~= ticks@.take(i - 1));
        if ticks[i - 1] <= bound {
            return Some(i - 1);
        }
        i = i - 1;
    }
    None
}

/// Chooses the saved inputs a predicted tick applies (`ticks` lists the
/// ticks whose inputs were saved, in the order they were saved).
pub fn tick_input_choice(ticks: &Vec<u64>, predicted_tick: u64, fallback_to_prev: bool) -> (r:
    TickInputChoice)
    requires
        predicted_tick < u64::MAX,
    ensures
        (opt_index(r.chosen), opt_index(r.base)) == spec_tick_input_choice(
            ticks@,
            predicted_tick as int,
            fallback_to_prev,
        ),
        r.chosen matches Some(i) ==> i < ticks.len(),
        r.base matches Some(i) ==> i < ticks.len(),
{
    proof {
        lemma_index_of_tick_bounds(ticks@, predicted_tick + 1);
        lemma_index_of_tick_bounds(ticks@, predicted_tick as int);
        lemma_last_at_most_bounds(ticks@, predicted_tick + 1);
    }
    let next = match find_tick(ticks, predicted_tick + 1) {
        Some(i) => Some(i),
        None => find_last_at_most(ticks, predicted_tick + 1),
    };
    let prev = find_tick(ticks, predicted_tick);
    let chosen = if fallback_to_prev && next.is_none() {
        prev
    } else {
        next
    };
    let base = if prev.is_some() {
        prev
    } else {
        next
    };
    TickInputChoice { chosen, base }
}

/// The position of the first saved tick after `bound`.
pub open spec fn first_above(ticks: Seq<u64>, bound: int) -> Option<int>
    decreases ticks.len(),
{
    if ticks.len() == 0 {
        None
    } else if ticks[0] > bound {
        Some(0)
    } else {
        match first_above(ticks.drop_first(), bound) {
            Some(i) => Some(i + 1),
            None => None,
        }
    }
}

pub open spec fn strictly_increasing(ticks: Seq<u64>) -> bool {
    forall|i: int, j: int| 0 <= i < j < ticks.len() ==> ticks[i] < ticks[j]
}

pub open spec fn sat_sub(a: int, b: int) -> int {
    if a >= b { a - b } else { 0 }
}

/// Which snapshots the game is shown from when it is not predicted: the
/// snapshot tick the interpolation starts at, how many ticks after it the
/// shown tick lies, and how many ticks lie between that snapshot and the
/// next one.
#[derive(Debug, Clone, Copy, PartialEq, Eq, Structural)]
pub struct SnapshotChoice {
    pub prev_tick: u64,
    pub offset: u64,
    pub tick_diff: u64,
}

/// The shown tick lies `sub_ticks` behind the predicted tick, and a further
/// distance of the last two snapshots' spacing (at least one tick) behind;
/// it is taken from the last snapshot not after it, towards the next one
/// (without such snapshots the shown tick itself stands in).
pub open spec fn spec_snapshot_choice(ticks: Seq<u64>, predicted_tick: int, sub_ticks: int) -> (
    int,
    int,
    int,
) {
    let first = sat_sub(predicted_tick, sub_ticks);
    let range = match last_at_most(ticks, first) {
        Some(i) => if i >= 1 && ticks[i] - ticks[i - 1] >= 1 {
            ticks[i] - ticks[i - 1]
        } else {
            1
        },
        None => 1,
    };
    let shown = sat_sub(first, range);
    let prev = match last_at_most(ticks, shown) {
        Some(i) => ticks[i] as int,
        None => shown,
    };
    let next = match first_above(ticks, shown) {
        Some(i) => ticks[i] as int,
        None => shown,
    };
    let diff = sat_sub(next, prev);
    (prev, sat_sub(shown, prev), if diff >= 1 { diff } else { 1 })
}

proof fn lemma_first_above_bounds(ticks: Seq<u64>, bound: int)
    ensures
        first_above(ticks, bound) matches Some(i) ==> 0 <= i < ticks.len() && ticks[i] > bound,
    decreases ticks.len(),
{
    if ticks.len() > 0 && ticks[0] <= bound {
        lemma_first_above_bounds(ticks.drop_first(), bound);
    }
}

fn find_first_above(ticks: &Vec<u64>, bound: u64) -> (r: Option<usize>)
    ensures
        opt_index(r) == first_above(ticks@, bound as int),
{
    let mut i: usize = 0;
    assert(ticks@.skip(0) =~= ticks@);
    while i < ticks.len()
        invariant
            i <= ticks@.len(),
            first_above(ticks@, bound as int) == (match first_above(ticks@.skip(i as int), bound as int) {
                Some(k) => Some(k + i),
                None => None::<int>,
            }),
        decreases ticks.len() - i,
    {
        assert(ticks@.skip(i as int).drop_first() =~= ticks@.skip(i + 1));
        if ticks[i] > bound {
            return Some(i);
        }
        i = i + 1;
    }
    None
}

/// Chooses the snapshots the game is shown from when it is not predicted
/// (`ticks` are the ticks of the kept snapshots, in increasing order).
/// The shown tick, `prev_tick + offset`, never lies after the predicted tick
/// less the sub ticks.
pub fn snapshot_choice(ticks: &Vec<u64>, predicted_tick: u64, sub_ticks: u64) -> (r: SnapshotChoice)
    requires
        strictly_increasing(ticks@),
    ensures
        (r.prev_tick as int, r.offset as int, r.tick_diff as int) == spec_snapshot_choice(
            ticks@,
            predicted_tick as int,
            sub_ticks as int,
        ),
        r.prev_tick + r.offset <= sat_sub(predicted_tick as int, sub_ticks as int),
        r.tick_diff >= 1,
{
    let first = predicted_tick.saturating_sub(sub_ticks);
    proof {
        lemma_last_at_most_bounds(ticks@, first as int);
    }
    let range: u64 = match find_last_at_most(ticks, first) {
        Some(i) => if i >= 1 && ticks[i] > ticks[i - 1] {
            ticks[i] - ticks[i - 1]
        } else {
            1
        },
        None => 1,
    };
    let shown = first.saturating_sub(range);
    proof {
        lemma_last_at_most_bounds(ticks@, shown as int);
        lemma_first_above_bounds(ticks@, shown as int);
    }
    let prev: u64 = match find_last_at_most(ticks, shown) {
        Some(i) => ticks[i],
        None => shown,
    };
    let next: u64 = match find_first_above(ticks, shown) {
        Some(i) => ticks[i],
        None => shown,
    };
    let diff = next.saturating_sub(prev);
    SnapshotChoice {
        prev_tick: prev,
        offset: shown - prev,
        tick_diff: if diff >= 1 {
            diff
        } else {
            1
        },
    }
}

} // verus!
