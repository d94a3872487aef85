use ddnet_core::errors::BanType;
use ddnet_core::game_flow::{
    byte_stats_step, close_message, game_events_update, game_on_msg, next_phase, route_path,
    take_events, try_char_info_for_dummy, CharacterInfoTexts, ClientRoute, GameEventAction,
    GameEventState, GameMsgAction, GameNetworkEvent, GamePhase, GameUpdateAction, NetByteStats,
    PlayerTexts, ServerMsgKind,
};

#[test]
fn phases_after_an_update() {
    assert_eq!(
        next_phase(GamePhase::Failed, GameUpdateAction::ReportError { notify_secs: 10 }, false),
        GamePhase::NoGame
    );
    assert_eq!(
        next_phase(GamePhase::PrepareConnect, GameUpdateAction::Connect, true),
        GamePhase::Connecting
    );
    assert_eq!(
        next_phase(GamePhase::PrepareConnect, GameUpdateAction::Connect, false),
        GamePhase::Failed
    );
    assert_eq!(
        next_phase(GamePhase::Loading, GameUpdateAction::FinishLoading, false),
        GamePhase::WaitingForFirstSnapshot
    );
    assert_eq!(
        next_phase(
            GamePhase::Loading,
            GameUpdateAction::ContinueLoading { report_error: false },
            false
        ),
        GamePhase::Loading
    );
}

#[test]
fn server_messages() {
    assert_eq!(
        game_on_msg(GamePhase::Connecting, ServerMsgKind::ServerInfo),
        (GamePhase::Loading, GameMsgAction::StartLoading)
    );
    assert_eq!(
        game_on_msg(GamePhase::Connecting, ServerMsgKind::QueueInfo),
        (GamePhase::Connecting, GameMsgAction::ShowQueue)
    );
    assert_eq!(
        game_on_msg(GamePhase::WaitingForFirstSnapshot, ServerMsgKind::Snapshot),
        (GamePhase::Active, GameMsgAction::HandleInGame { first_snapshot: true })
    );
    assert_eq!(
        game_on_msg(GamePhase::Active, ServerMsgKind::Snapshot),
        (GamePhase::Active, GameMsgAction::HandleInGame { first_snapshot: false })
    );
    assert_eq!(
        game_on_msg(GamePhase::Active, ServerMsgKind::Load),
        (GamePhase::Loading, GameMsgAction::Reload)
    );
    assert_eq!(
        game_on_msg(GamePhase::Loading, ServerMsgKind::Snapshot),
        (GamePhase::Loading, GameMsgAction::Ignore)
    );
    assert_eq!(
        game_on_msg(GamePhase::Failed, ServerMsgKind::Other),
        (GamePhase::NoGame, GameMsgAction::Ignore)
    );
    assert_eq!(
        game_on_msg(GamePhase::NoGame, ServerMsgKind::Snapshot),
        (GamePhase::NoGame, GameMsgAction::Ignore)
    );
}

#[test]
fn events_are_taken_only_when_flagged() {
    let s = GameEventState { phase: GamePhase::Active, route: ClientRoute::Ingame, ui_open: false };
    let events = vec![
        GameNetworkEvent::NetworkStats,
        GameNetworkEvent::Disconnected { graceful: false },
    ];
    let (next, flag, actions) = game_events_update(s, true, &events);
    assert!(!flag);
    assert_eq!(
        actions,
        vec![
            GameEventAction::UpdateStats,
            GameEventAction::Disconnect { to_connect_page: true, report_error: true }
        ]
    );
    assert_eq!(
        next,
        GameEventState { phase: GamePhase::NoGame, route: ClientRoute::Connect, ui_open: true }
    );
    let (same, flag, actions) = game_events_update(s, false, &events);
    assert_eq!((same, flag), (s, false));
    assert!(actions.is_empty());
    assert_eq!(take_events(GamePhase::PrepareConnect, true), (false, true));
    assert_eq!(take_events(GamePhase::Loading, true), (true, false));
}

#[test]
fn first_snapshot_shows_the_game() {
    let s = GameEventState {
        phase: GamePhase::WaitingForFirstSnapshot,
        route: ClientRoute::Connect,
        ui_open: true,
    };
    let events = vec![GameNetworkEvent::Message { msg: ServerMsgKind::Snapshot }];
    let (next, _, _) = game_events_update(s, true, &events);
    assert_eq!(
        next,
        GameEventState { phase: GamePhase::Active, route: ClientRoute::Ingame, ui_open: false }
    );
    assert_eq!(route_path(ClientRoute::Home), "");
    assert_eq!(route_path(ClientRoute::Connect), "connect");
    assert_eq!(route_path(ClientRoute::Ingame), "ingame");
}

#[test]
fn close_messages() {
    assert_eq!(
        close_message(Some((BanType::Vpn, Some("tomorrow".to_string()))), "x".to_string()),
        "banned using a vpn until tomorrow"
    );
    assert_eq!(
        close_message(Some((BanType::Custom("cheating".into()), None)), "x".to_string()),
        "banned cheating"
    );
    assert_eq!(close_message(None, "timed out".to_string()), "timed out");
}

#[test]
fn byte_rates_are_averaged() {
    let b = NetByteStats {
        bytes_per_sec_sent: 0,
        bytes_per_sec_recv: 4,
        last_timestamp: 0,
        last_bytes_sent: 0,
        last_bytes_recv: 50,
    };
    let n = byte_stats_step(b, 1000, 40, 1_000_000_000);
    assert_eq!(n.bytes_per_sec_sent, 500 << 32);
    // fewer bytes than before count as none
    assert_eq!(n.bytes_per_sec_recv, 2);
    assert_eq!((n.last_timestamp, n.last_bytes_sent, n.last_bytes_recv), (1_000_000_000, 1000, 40));
    // at least one microsecond, which is 4294 / 2^32 seconds in fixed point
    let m = byte_stats_step(b, 1, 50, 10);
    assert_eq!(m.bytes_per_sec_sent, (1u128 << 64) / 4294 / 2);
    assert_eq!(m.bytes_per_sec_sent, 2147967404949877);
}

fn texts(name: &str, flag: &str, asset: &str) -> PlayerTexts {
    PlayerTexts {
        name: name.to_string(),
        clan: "clan".to_string(),
        flag: flag.to_string(),
        skin: "skin".to_string(),
        assets: vec![asset.to_string(); 10],
    }
}

#[test]
fn dummy_character_info() {
    let dummy = texts("dummy", "DE-BY", "own");
    let main = texts("main", "default", "main");
    let c: CharacterInfoTexts<16, 12, 7, 8, 6> =
        try_char_info_for_dummy("en", &dummy, &main, true).unwrap();
    assert_eq!(c.name.as_str(), "dummy");
    assert_eq!(c.clan.as_str(), "clan");
    assert_eq!(c.flag.as_str(), "de_by");
    assert_eq!(c.lang.as_str(), "en");
    assert_eq!(c.skin.as_str(), "skin");
    assert!(c.assets.iter().all(|a| a.as_str() == "main"));
    assert_eq!(c.assets.len(), 10);
    let c: CharacterInfoTexts<16, 12, 7, 8, 6> =
        try_char_info_for_dummy("en", &dummy, &main, false).unwrap();
    assert!(c.assets.iter().all(|a| a.as_str() == "own"));
    // resource keys keep the reduced characters and are cut to the key length
    let mut odd = texts("odd", "de", "ninja-star.v2");
    odd.skin = "santa_claus!".to_string();
    let c: CharacterInfoTexts<16, 12, 7, 8, 6> =
        try_char_info_for_dummy("en", &odd, &main, false).unwrap();
    assert_eq!(c.skin.as_str(), "santa_");
    assert_eq!(c.assets[0].as_str(), "ninjas");
    let long = texts("a name far too long", "de", "x");
    let none: Option<CharacterInfoTexts<16, 12, 7, 8, 6>> =
        try_char_info_for_dummy("en", &long, &main, false);
    assert!(none.is_none());
}
