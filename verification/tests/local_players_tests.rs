use ddnet_core::local_players::{
    demo_ui_event_step, instant_replay_outcome, video_file_name, DemoAction, DemoUiEvent,
    ReplayOutcome,
};
use ddnet_core::local_players::{connect_step, ConnectSource, ConnectStep, LocalServerResult};
use ddnet_core::local_players::{
    console_event_step, local_players_on_ui_event, AddressKind, ClientRequest, ConsoleAction,
    ConsoleEventKind, LocalPlayerEntry, LocalPlayers, PlayerMsgKind, UiEventKind,
    account_info_request, team_join_players, VoteKind,
};
use ddnet_core::network_types::{
    auto_send_step, AutoSendAction, AutoSendEvent, AutoSendState, UnreliableUnorderedError,
};
use ddnet_core::wasm_runtime_types::MemoryLimit;

fn players() -> LocalPlayers {
    LocalPlayers {
        entries: vec![LocalPlayerEntry { id: 0, is_dummy: false, player_id: Some(10) }],
        active_id: 0,
        id_counter: 1,
        local_player_count: 1,
    }
}

#[test]
fn ui_events_add_and_remove_local_players() {
    let (s, req) = local_players_on_ui_event(players(), UiEventKind::Kill);
    assert_eq!(req, Some(ClientRequest::PlayerMsg { player_id: 10, msg: PlayerMsgKind::Kill }));
    let (s, req) = local_players_on_ui_event(s, UiEventKind::ConnectLocalPlayer { as_dummy: true });
    assert_eq!(req, Some(ClientRequest::AddLocalPlayer { id: 1, as_dummy: true }));
    assert_eq!(s.entries.len(), 2);
    assert_eq!(s.entries[1], LocalPlayerEntry { id: 1, is_dummy: true, player_id: None });
    assert_eq!((s.id_counter, s.local_player_count, s.active_id), (2, 2, 0));
    let mut s = s;
    s.entries[1].player_id = Some(11);
    s.active_id = 1;
    let (s, req) = local_players_on_ui_event(s, UiEventKind::DisconnectLocalPlayer);
    assert_eq!(
        req,
        Some(ClientRequest::PlayerMsg { player_id: 11, msg: PlayerMsgKind::RemLocalPlayer })
    );
    assert_eq!((s.entries.len(), s.active_id, s.local_player_count), (1, 0, 1));
    // the last local player stays
    let (s, req) = local_players_on_ui_event(s, UiEventKind::DisconnectLocalPlayer);
    assert_eq!(req, None);
    assert_eq!((s.entries.len(), s.local_player_count), (1, 0));
}

#[test]
fn console_events() {
    let mut s = players();
    s.entries.push(LocalPlayerEntry { id: 1, is_dummy: true, player_id: None });
    s.entries.push(LocalPlayerEntry { id: 2, is_dummy: true, player_id: None });
    assert_eq!(
        console_event_step(&s, ConsoleEventKind::ChangeDummy { dummy_index: Some(1) }),
        ConsoleAction::SetActive { id: 2 }
    );
    assert_eq!(
        console_event_step(&s, ConsoleEventKind::ChangeDummy { dummy_index: None }),
        ConsoleAction::SetActive { id: 0 }
    );
    assert_eq!(
        console_event_step(&s, ConsoleEventKind::ChangeDummy { dummy_index: Some(5) }),
        ConsoleAction::Nothing
    );
    let v6 = AddressKind { is_ipv4: false, is_loopback: false };
    let v4 = AddressKind { is_ipv4: true, is_loopback: false };
    let lo = AddressKind { is_ipv4: false, is_loopback: true };
    assert_eq!(
        console_event_step(&s, ConsoleEventKind::ConnectFallback { addresses: vec![v6, v4] }),
        ConsoleAction::ConnectTo { index: 1 }
    );
    assert_eq!(
        console_event_step(&s, ConsoleEventKind::ConnectFallback { addresses: vec![v6] }),
        ConsoleAction::ConnectTo { index: 0 }
    );
    assert_eq!(
        console_event_step(&s, ConsoleEventKind::ConnectFallback { addresses: vec![lo, v6] }),
        ConsoleAction::Nothing
    );
    assert_eq!(
        console_event_step(&s, ConsoleEventKind::ConfigVariable { name: "player.name".into() }),
        ConsoleAction::ConfigChanged {
            player_info: true,
            window: false,
            input: false,
            vsync: false,
            clear_color: false,
            msaa: false
        }
    );
    assert_eq!(
        console_event_step(&s, ConsoleEventKind::ConfigVariable { name: "gl.vsync".into() }),
        ConsoleAction::ConfigChanged {
            player_info: false,
            window: false,
            input: false,
            vsync: true,
            clear_color: false,
            msaa: false
        }
    );
    assert_eq!(
        console_event_step(&s, ConsoleEventKind::ConfigVariable { name: "players".into() }),
        ConsoleAction::ConfigChanged {
            player_info: false,
            window: false,
            input: false,
            vsync: false,
            clear_color: false,
            msaa: false
        }
    );
    assert_eq!(console_event_step(&s, ConsoleEventKind::Quit), ConsoleAction::Quit);
}

#[test]
fn auto_send_falls_back_once() {
    let (s, a) = auto_send_step(
        AutoSendState::Start,
        AutoSendEvent::Begin { has_connection: true, packet_prepared: true },
    );
    assert_eq!((s, a), (AutoSendState::TriedUnreliable, AutoSendAction::SendUnreliable));
    let (s, a) = auto_send_step(
        s,
        AutoSendEvent::UnreliableResult(Err(UnreliableUnorderedError::TooLarge)),
    );
    assert_eq!((s, a), (AutoSendState::TriedReliable, AutoSendAction::SendReliable));
    let (s, a) = auto_send_step(s, AutoSendEvent::ReliableResult);
    assert_eq!((s, a), (AutoSendState::Done, AutoSendAction::Nothing));
    let (s, a) = auto_send_step(
        AutoSendState::TriedUnreliable,
        AutoSendEvent::UnreliableResult(Err(UnreliableUnorderedError::ConnectionClosed("x".into()))),
    );
    assert_eq!((s, a), (AutoSendState::Done, AutoSendAction::Nothing));
    let (s, a) = auto_send_step(
        AutoSendState::Start,
        AutoSendEvent::Begin { has_connection: false, packet_prepared: true },
    );
    assert_eq!((s, a), (AutoSendState::Done, AutoSendAction::Nothing));
}

#[test]
fn memory_limit_as_usize() {
    assert_eq!(usize::from(MemoryLimit::TenMebiBytes), 10 * 1024 * 1024);
    assert_eq!(usize::from(MemoryLimit::OneGibiByte), 1024 * 1024 * 1024);
}

#[test]
fn connect_steps() {
    assert_eq!(connect_step(ConnectSource::Ui, LocalServerResult::Connect), ConnectStep::ConnectLocal);
    assert_eq!(connect_step(ConnectSource::Console, LocalServerResult::KeepConnecting), ConnectStep::Retry);
    assert_eq!(
        connect_step(ConnectSource::Ui, LocalServerResult::ErrOrNotLocalServerAddr),
        ConnectStep::ConnectWithHash
    );
    assert_eq!(
        connect_step(ConnectSource::Console, LocalServerResult::ErrOrNotLocalServerAddr),
        ConnectStep::ConnectChosenAddress
    );
}

#[test]
fn votes_teams_and_account() {
    use_votes();
}

fn use_votes() {
    let (s, req) = local_players_on_ui_event(
        players(),
        UiEventKind::StartVote { kind: VoteKind::KickPlayer },
    );
    assert_eq!(
        req,
        Some(ClientRequest::PlayerMsg {
            player_id: 10,
            msg: PlayerMsgKind::StartVote { kind: VoteKind::KickPlayer }
        })
    );
    let mut s = s;
    s.entries.push(LocalPlayerEntry { id: 1, is_dummy: true, player_id: None });
    s.entries.push(LocalPlayerEntry { id: 2, is_dummy: true, player_id: Some(12) });
    assert_eq!(team_join_players(&s), vec![10, 12]);
    assert_eq!(account_info_request(false), (true, true));
    assert_eq!(account_info_request(true), (false, true));
}

#[test]
fn demo_requests_need_an_active_game_to_record() {
    assert_eq!(demo_ui_event_step(false, DemoUiEvent::PlayDemo), DemoAction::OpenViewer { encode: false });
    assert_eq!(
        demo_ui_event_step(false, DemoUiEvent::EncodeDemoToVideo),
        DemoAction::OpenViewer { encode: true }
    );
    assert_eq!(demo_ui_event_step(true, DemoUiEvent::RecordDemo), DemoAction::StartRecording);
    assert_eq!(demo_ui_event_step(false, DemoUiEvent::RecordDemo), DemoAction::Nothing);
    assert_eq!(demo_ui_event_step(true, DemoUiEvent::StopRecordDemo), DemoAction::StopRecording);
    assert_eq!(demo_ui_event_step(false, DemoUiEvent::StopRecordDemo), DemoAction::Nothing);
    assert_eq!(demo_ui_event_step(true, DemoUiEvent::InstantReplay), DemoAction::ReplayAsDemo);
    assert_eq!(demo_ui_event_step(false, DemoUiEvent::InstantReplay), DemoAction::Nothing);
}

#[test]
fn instant_replay_failure_is_shown_ten_seconds() {
    assert_eq!(instant_replay_outcome(true), ReplayOutcome::PlayDemo);
    assert_eq!(instant_replay_outcome(false), ReplayOutcome::NotifyError { notify_secs: 10 });
}

#[test]
fn encoded_videos_go_to_the_videos_folder() {
    assert_eq!(video_file_name("race"), "videos/race.mp4");
    assert_eq!(video_file_name(""), "videos/.mp4");
}
