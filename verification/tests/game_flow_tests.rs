use ddnet_core::game_flow::{snapshot_choice, SnapshotChoice};
use ddnet_core::game_flow::{tick_input_choice, TickInputChoice};
use ddnet_core::game_flow::{
    game_event_action, game_has_network, game_update, join_errors, network_flag_name,
    player_info_source, player_info_sync, GameEventAction, GameNetworkEvent, GamePhase,
    GameUpdateAction, GameUpdateInput, PlayerInfoSource, ServerMsgKind,
};

const SEC: u128 = 1_000_000_000;

fn input(now_nanos: u128) -> GameUpdateInput {
    GameUpdateInput {
        now_nanos,
        player_info_changed: false,
        controls_changed: false,
        connect_tasks_finished: false,
        server_cert_ok: false,
        account_ok: false,
        map_fully_loaded: false,
        map_load_failed: false,
    }
}

#[test]
fn player_info_is_sent_after_five_quiet_seconds() {
    let (pending, send) = player_info_sync(None, true, 10 * SEC);
    assert_eq!((pending, send), (Some(10 * SEC), false));
    assert_eq!(player_info_sync(pending, false, 15 * SEC), (Some(10 * SEC), false));
    assert_eq!(player_info_sync(pending, false, 15 * SEC + 1), (None, true));
    assert_eq!(player_info_sync(None, false, 100 * SEC), (None, false));
    // a new change restarts the wait
    assert_eq!(player_info_sync(pending, true, 14 * SEC), (Some(14 * SEC), false));
}

#[test]
fn update_of_each_phase() {
    let mut i = input(0);
    i.controls_changed = true;
    assert_eq!(
        game_update(GamePhase::Active, None, i),
        (
            GameUpdateAction::SyncActive {
                send_player_info: false,
                rebind_controls: true
            },
            None
        )
    );
    assert_eq!(
        game_update(GamePhase::PrepareConnect, None, input(0)),
        (GameUpdateAction::Nothing, None)
    );
    let mut i = input(0);
    i.connect_tasks_finished = true;
    i.server_cert_ok = true;
    i.account_ok = true;
    assert_eq!(
        game_update(GamePhase::PrepareConnect, None, i),
        (GameUpdateAction::Connect, None)
    );
    i.account_ok = false;
    assert_eq!(
        game_update(GamePhase::PrepareConnect, None, i),
        (GameUpdateAction::FailConnect { both_failed: false }, None)
    );
    i.server_cert_ok = false;
    assert_eq!(
        game_update(GamePhase::PrepareConnect, None, i),
        (GameUpdateAction::FailConnect { both_failed: true }, None)
    );
    let mut i = input(0);
    i.map_load_failed = true;
    assert_eq!(
        game_update(GamePhase::Loading, None, i),
        (GameUpdateAction::ContinueLoading { report_error: true }, None)
    );
    i.map_fully_loaded = true;
    assert_eq!(
        game_update(GamePhase::Loading, None, i),
        (GameUpdateAction::FinishLoading, None)
    );
    assert_eq!(
        game_update(GamePhase::Failed, None, input(0)),
        (GameUpdateAction::ReportError { notify_secs: 10 }, None)
    );
    for phase in [
        GamePhase::NoGame,
        GamePhase::Connecting,
        GamePhase::WaitingForFirstSnapshot,
    ] {
        assert_eq!(
            game_update(phase, None, input(0)),
            (GameUpdateAction::Nothing, None)
        );
    }
}

#[test]
fn errors_of_both_tasks_are_joined() {
    assert_eq!(
        join_errors("no account", "bad cert"),
        "no account. bad cert".to_string()
    );
}

#[test]
fn player_info_sources() {
    assert_eq!(
        player_info_source(true, 1, 0, 2),
        PlayerInfoSource::Dummy { dummy: 1, main: 0 }
    );
    assert_eq!(player_info_source(true, 5, 0, 2), PlayerInfoSource::Main(0));
    assert_eq!(player_info_source(false, 1, 1, 2), PlayerInfoSource::Main(1));
    assert_eq!(player_info_source(false, 0, 3, 2), PlayerInfoSource::Default);
}

#[test]
fn flag_names_for_the_network() {
    assert_eq!(network_flag_name("DE-BY"), "de_by".to_string());
    assert_eq!(network_flag_name("default"), "default".to_string());
}

#[test]
fn network_events() {
    assert!(game_has_network(GamePhase::Active));
    assert!(game_has_network(GamePhase::Connecting));
    assert!(!game_has_network(GamePhase::PrepareConnect));
    assert!(!game_has_network(GamePhase::NoGame));
    assert_eq!(
        game_event_action(
            GamePhase::Active,
            GameNetworkEvent::Disconnected { graceful: true }
        ),
        GameEventAction::Disconnect {
            to_connect_page: false,
            report_error: false
        }
    );
    assert_eq!(
        game_event_action(
            GamePhase::Loading,
            GameNetworkEvent::Disconnected { graceful: false }
        ),
        GameEventAction::Disconnect {
            to_connect_page: true,
            report_error: true
        }
    );
    assert_eq!(
        game_event_action(
            GamePhase::NoGame,
            GameNetworkEvent::Disconnected { graceful: false }
        ),
        GameEventAction::Disconnect {
            to_connect_page: true,
            report_error: false
        }
    );
    assert_eq!(
        game_event_action(GamePhase::Connecting, GameNetworkEvent::ConnectingFailed),
        GameEventAction::ConnectingFailed { report_error: true }
    );
    assert_eq!(
        game_event_action(GamePhase::Active, GameNetworkEvent::ConnectingFailed),
        GameEventAction::ConnectingFailed {
            report_error: false
        }
    );
    assert_eq!(
        game_event_action(GamePhase::Active, GameNetworkEvent::NetworkStats),
        GameEventAction::UpdateStats
    );
    assert_eq!(
        game_event_action(GamePhase::Loading, GameNetworkEvent::NetworkStats),
        GameEventAction::Ignore
    );
    assert_eq!(
        game_event_action(GamePhase::Loading, GameNetworkEvent::Connected),
        GameEventAction::Ignore
    );
    assert_eq!(
        game_event_action(GamePhase::Loading, GameNetworkEvent::Message { msg: ServerMsgKind::Other }),
        GameEventAction::HandleMessage
    );
}

#[test]
fn tick_inputs_prefer_the_next_tick() {
    let ticks = vec![5u64, 6, 7];
    assert_eq!(
        tick_input_choice(&ticks, 5, false),
        TickInputChoice { chosen: Some(1), base: Some(0) }
    );
}

#[test]
fn tick_inputs_fall_back_to_the_latest_earlier_tick() {
    // inputs saved for ticks 3 and 9, then 4: the next tick 6 has none, the
    // latest saved one not after it is 4
    let ticks = vec![3u64, 9, 4];
    assert_eq!(
        tick_input_choice(&ticks, 5, false),
        TickInputChoice { chosen: Some(2), base: Some(2) }
    );
}

#[test]
fn tick_inputs_without_any_match() {
    let ticks = vec![9u64, 10];
    assert_eq!(tick_input_choice(&ticks, 5, false), TickInputChoice { chosen: None, base: None });
    assert_eq!(tick_input_choice(&ticks, 5, true), TickInputChoice { chosen: None, base: None });
    let empty: Vec<u64> = Vec::new();
    assert_eq!(tick_input_choice(&empty, 0, true), TickInputChoice { chosen: None, base: None });
}

#[test]
fn tick_inputs_prediction_tick_uses_the_current_tick() {
    // only the current tick 8 has inputs; 9 is later than it so the search for
    // the next tick finds 8 itself
    let ticks = vec![8u64];
    assert_eq!(
        tick_input_choice(&ticks, 8, true),
        TickInputChoice { chosen: Some(0), base: Some(0) }
    );
    let later = vec![12u64];
    assert_eq!(tick_input_choice(&later, 8, true), TickInputChoice { chosen: None, base: None });
}

#[test]
fn falling_back_to_the_current_tick_changes_nothing() {
    let lists: Vec<Vec<u64>> = vec![vec![], vec![1], vec![4, 2, 7], vec![6, 5], vec![9, 3, 5, 6]];
    for ticks in &lists {
        for t in 0u64..10 {
            assert_eq!(tick_input_choice(ticks, t, true), tick_input_choice(ticks, t, false));
        }
    }
}

#[test]
fn snapshots_shown_lie_one_snapshot_spacing_behind() {
    let ticks = vec![10u64, 12, 14, 16];
    assert_eq!(
        snapshot_choice(&ticks, 16, 0),
        SnapshotChoice { prev_tick: 14, offset: 0, tick_diff: 2 }
    );
    let ticks = vec![10u64, 12, 14];
    assert_eq!(
        snapshot_choice(&ticks, 20, 3),
        SnapshotChoice { prev_tick: 14, offset: 1, tick_diff: 1 }
    );
}

#[test]
fn snapshots_missing_fall_back_to_the_shown_tick() {
    let empty: Vec<u64> = Vec::new();
    assert_eq!(
        snapshot_choice(&empty, 5, 10),
        SnapshotChoice { prev_tick: 0, offset: 0, tick_diff: 1 }
    );
    let one = vec![3u64];
    assert_eq!(
        snapshot_choice(&one, 9, 1),
        SnapshotChoice { prev_tick: 3, offset: 4, tick_diff: 4 }
    );
}
