use query_monitor::companion::companion_is_playing;
use query_monitor::companion::companion_password_payload;
use query_monitor::companion::companion_prompts_password;
use query_monitor::companion::companion_status_payload;
use query_monitor::companion::companion_toggle_payload;
use query_monitor::codec::decode_status;
use query_monitor::datastructures::Client;
use query_monitor::datastructures::FromQueryString;
use query_monitor::datastructures::QueryResult;
use query_monitor::datastructures::WhoAmI;
use query_monitor::monitor::backoff_secs;
use query_monitor::monitor::classify_identity_result;
use query_monitor::monitor::monitor_step;
use query_monitor::monitor::presence_in_watched;
use query_monitor::monitor::resolve_readiness;
use query_monitor::monitor::steady_tick_secs;
use query_monitor::monitor::tick_decision;
use query_monitor::monitor::MonitorAction;
use query_monitor::monitor::MonitorEvent;
use query_monitor::monitor::MonitorState;
use query_monitor::monitor::ReadinessOutcome;
use query_monitor::session::check_self_duplicate;

fn clients_from(records: &[&str]) -> Vec<Client> {
    let mut v = Vec::new();
    for r in records {
        v.push(Client::from_query(r).unwrap());
    }
    v
}

#[test]
fn backoff_tiers_are_exact() {
    assert_eq!(backoff_secs(0), 300);
    assert_eq!(backoff_secs(1), 300);
    assert_eq!(backoff_secs(2), 1800);
    assert_eq!(backoff_secs(3), 3600);
    assert_eq!(backoff_secs(4), 3600);
    assert_eq!(backoff_secs(u64::MAX), 3600);
}

#[test]
fn backoff_is_monotone_and_capped() {
    let mut prev = 0u64;
    for a in 0..10u64 {
        let b = backoff_secs(a);
        assert!(b >= prev);
        assert!(b <= 3600);
        prev = b;
    }
}

#[test]
fn entry_success_goes_straight_to_steady() {
    let (s, a) = monitor_step(MonitorState::Connecting, MonitorEvent::Connected);
    assert_eq!(s, MonitorState::ResolvingReadiness { attempt: 0 });
    assert_eq!(a, MonitorAction::QueryIdentity);
    let (s2, a2) = monitor_step(s, MonitorEvent::IdentityConfirmed);
    assert_eq!(s2, MonitorState::SteadyMonitoring);
    assert_eq!(a2, MonitorAction::EnterSteady);
}

#[test]
fn scenario_not_connected_routes_to_readiness() {
    let decoded = decode_status("error id=1794 msg=not\\sconnected\r\n".to_string());
    let err = decoded.unwrap_err();
    assert_eq!(err.code(), 1794);
    let outcome: QueryResult<WhoAmI> = Err(err);
    let event = classify_identity_result(&outcome);
    assert_eq!(event, MonitorEvent::NotPlaced);
    let state = MonitorState::ResolvingReadiness { attempt: 0 };
    let (next, action) = monitor_step(state, event);
    assert_eq!(action, MonitorAction::ResolveReadiness);
    assert_eq!(next, state);
}

#[test]
fn any_other_status_aborts() {
    let decoded = decode_status("error id=2568 msg=denied\r\n".to_string());
    let outcome: QueryResult<WhoAmI> = Err(decoded.unwrap_err());
    let event = classify_identity_result(&outcome);
    assert_eq!(event, MonitorEvent::FatalStatus { code: 2568 });
    let (_, action) = monitor_step(MonitorState::ResolvingReadiness { attempt: 1 }, event);
    assert_eq!(action, MonitorAction::Abort);
}

#[test]
fn detected_target_escalates_through_the_tiers() {
    let mut state = MonitorState::ResolvingReadiness { attempt: 0 };
    let detected = MonitorEvent::Readiness { outcome: ReadinessOutcome::TargetDetected };
    let (s1, a1) = monitor_step(state, detected);
    assert_eq!(s1, MonitorState::BackoffWait { attempt: 1, remaining: 300 });
    assert_eq!(a1, MonitorAction::Sleep { secs: 300 });
    let (s2, a2) = monitor_step(s1, MonitorEvent::BackoffElapsed);
    assert_eq!(s2, MonitorState::ResolvingReadiness { attempt: 1 });
    assert_eq!(a2, MonitorAction::QueryIdentity);
    let dup = MonitorEvent::Readiness { outcome: ReadinessOutcome::DuplicateClient };
    let (s3, a3) = monitor_step(s2, dup);
    assert_eq!(s3, MonitorState::BackoffWait { attempt: 2, remaining: 1800 });
    assert_eq!(a3, MonitorAction::Sleep { secs: 1800 });
    let (s4, _) = monitor_step(s3, MonitorEvent::BackoffElapsed);
    let (s5, a5) = monitor_step(s4, detected);
    assert_eq!(s5, MonitorState::BackoffWait { attempt: 3, remaining: 3600 });
    assert_eq!(a5, MonitorAction::Sleep { secs: 3600 });
    let (s6, _) = monitor_step(s5, MonitorEvent::BackoffElapsed);
    let (s7, a7) = monitor_step(s6, detected);
    assert_eq!(s7, MonitorState::BackoffWait { attempt: 4, remaining: 3600 });
    assert_eq!(a7, MonitorAction::Sleep { secs: 3600 });
    state = s7;
    let (_, stop) = monitor_step(state, MonitorEvent::Cancelled);
    assert_eq!(stop, MonitorAction::Stop);
}

#[test]
fn readiness_verdicts() {
    assert_eq!(resolve_readiness(false, false), ReadinessOutcome::NotOnline);
    assert_eq!(resolve_readiness(true, false), ReadinessOutcome::TargetDetected);
    assert_eq!(resolve_readiness(false, true), ReadinessOutcome::DuplicateClient);
    assert_eq!(resolve_readiness(true, true), ReadinessOutcome::DuplicateClient);
}

#[test]
fn not_online_proceeds_to_steady() {
    let (s, a) = monitor_step(
        MonitorState::ResolvingReadiness { attempt: 2 },
        MonitorEvent::Readiness { outcome: ReadinessOutcome::NotOnline },
    );
    assert_eq!(s, MonitorState::SteadyMonitoring);
    assert_eq!(a, MonitorAction::EnterSteady);
}

#[test]
fn cancellation_stops_from_any_state() {
    for state in [
        MonitorState::Connecting,
        MonitorState::ResolvingReadiness { attempt: 3 },
        MonitorState::BackoffWait { attempt: 2, remaining: 1800 },
        MonitorState::SteadyMonitoring,
    ] {
        let (next, action) = monitor_step(state, MonitorEvent::Cancelled);
        assert_eq!(action, MonitorAction::Stop);
        assert_eq!(next, state);
    }
}

#[test]
fn scenario_paused_while_present_then_play_once_absent() {
    let watched = vec![42i64];
    let with_target = clients_from(&[
        "clid=5 cid=1 client_database_id=42 client_type=0 client_nickname=watched",
        "clid=8 cid=1 client_database_id=7 client_type=1 client_nickname=me",
    ]);
    let present = presence_in_watched(&with_target, &watched);
    assert!(present);
    let playing = companion_is_playing("( state paused )");
    assert!(!playing);
    let first = tick_decision(present, false, playing, false);
    assert!(!first.stop);
    assert!(!first.guard_disconnect);
    assert_eq!(first.toggle_to, None);
    let without_target = clients_from(&[
        "clid=8 cid=1 client_database_id=7 client_type=1 client_nickname=me",
    ]);
    let present2 = presence_in_watched(&without_target, &watched);
    assert!(!present2);
    let second = tick_decision(present2, false, playing, false);
    assert_eq!(second.toggle_to, Some(true));
    assert_eq!(companion_toggle_payload(true), "play\n".to_string());
}

#[test]
fn playing_while_present_pauses() {
    let d = tick_decision(true, false, true, false);
    assert_eq!(d.toggle_to, Some(false));
    assert!(!d.stop);
    assert_eq!(companion_toggle_payload(false), "pause\n".to_string());
}

#[test]
fn exit_on_detect_dominates_the_tick() {
    let d = tick_decision(true, true, true, true);
    assert!(d.stop);
    assert!(!d.guard_disconnect);
    assert_eq!(d.toggle_to, None);
}

#[test]
fn duplicate_session_is_guard_disconnected() {
    let clients = clients_from(&[
        "clid=1 cid=1 client_database_id=7 client_type=0 client_nickname=a",
        "clid=2 cid=2 client_database_id=7 client_type=0 client_nickname=b",
    ]);
    let duplicate = check_self_duplicate(&clients, 7);
    assert!(duplicate);
    let d = tick_decision(false, duplicate, true, true);
    assert!(!d.stop);
    assert!(d.guard_disconnect);
}

#[test]
fn companion_protocol_lines() {
    assert_eq!(companion_status_payload(), "status\n".to_string());
    assert_eq!(companion_password_payload("secret"), "secret\n".to_string());
    assert!(companion_prompts_password("Password: "));
    assert!(!companion_prompts_password("VLC media player"));
    assert!(companion_is_playing("( audio volume: 256 )\n( state playing )\n"));
    assert!(!companion_is_playing("( state stopped )"));
}

#[test]
fn steady_tick_spacing_stays_in_the_window() {
    for _ in 0..200 {
        let secs = steady_tick_secs();
        assert!((50..70).contains(&secs));
    }
}
