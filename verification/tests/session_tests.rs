use hypr_plugins::session::{
    GeneralConfig, ListenBridge, SessionSupervisor, StartDecision, State, SupervisionKind,
};

#[test]
fn state_from_reply() {
    assert_eq!(State::from_reply(None), State::Inactive);
    assert_eq!(State::from_reply(Some(None)), State::Inactive);
    assert_eq!(State::from_reply(Some(Some(State::RunningActive))), State::RunningActive);
}

#[test]
fn session_lifecycle() {
    let mut st = SessionSupervisor::initial_state();
    assert_eq!(st.state, State::Inactive);
    assert!(st.record_enabled);
    assert_eq!(SessionSupervisor::start_decision(&st, &"a".to_string()), StartDecision::Start);

    let plan = SessionSupervisor::prepare_session(&mut st, "a".to_string(), &"onboarding".to_string(), None, 1234);
    assert!(plan.spawn_recorder);
    assert_eq!(plan.listen.languages, vec!["en".to_string()]);
    assert!(!plan.listen.onboarding);
    assert_eq!(plan.listen.session_id, "a");
    assert_eq!(plan.listen.session_start_ts_ms, 1234);
    assert_eq!(st.state, State::Inactive);
    SessionSupervisor::mark_running(&mut st);
    assert_eq!(st.state, State::RunningActive);
    assert_eq!(st.session_id.as_deref(), Some("a"));
    assert_eq!(st.session_start_ts_ms, Some(1234));

    assert_eq!(SessionSupervisor::start_decision(&st, &"a".to_string()), StartDecision::Ignore);
    assert_eq!(SessionSupervisor::start_decision(&st, &"b".to_string()), StartDecision::StopThenStart);

    assert_eq!(SessionSupervisor::end_session(&mut st), Some(Some("a".to_string())));
    assert_eq!(st.state, State::Inactive);
    assert_eq!(st.session_id, None);
    assert_eq!(st.session_start_ts_ms, None);
    assert_eq!(SessionSupervisor::end_session(&mut st), None);
}

#[test]
fn configuration_decides_recording_and_languages() {
    let mut st = SessionSupervisor::initial_state();
    let config = GeneralConfig { save_recordings: Some(false), spoken_languages: vec!["ko".to_string(), "en".to_string()] };
    let plan = SessionSupervisor::prepare_session(&mut st, "onb".to_string(), &"onb".to_string(), Some(config), 5);
    assert!(!plan.spawn_recorder);
    assert!(!st.record_enabled);
    assert!(st.onboarding);
    assert!(plan.listen.onboarding);
    assert_eq!(plan.listen.languages, vec!["ko".to_string(), "en".to_string()]);

    let config = GeneralConfig { save_recordings: None, spoken_languages: vec![] };
    let plan = SessionSupervisor::prepare_session(&mut st, "x".to_string(), &"onb".to_string(), Some(config), 6);
    assert!(plan.spawn_recorder);
    assert!(plan.listen.languages.is_empty());
}

#[test]
fn supervision_events() {
    let mut st = SessionSupervisor::initial_state();
    assert!(SessionSupervisor::stops_session(&st, SupervisionKind::Failed));
    assert!(!SessionSupervisor::stops_session(&st, SupervisionKind::Terminated));
    SessionSupervisor::mark_running(&mut st);
    assert!(SessionSupervisor::stops_session(&st, SupervisionKind::Terminated));
    assert!(!SessionSupervisor::stops_session(&st, SupervisionKind::Started));
    assert!(!SessionSupervisor::stops_session(&st, SupervisionKind::Other));
}

#[test]
fn running_without_id_starts() {
    let mut st = SessionSupervisor::initial_state();
    SessionSupervisor::mark_running(&mut st);
    assert_eq!(SessionSupervisor::start_decision(&st, &"a".to_string()), StartDecision::Start);
}

#[test]
fn redemption_time() {
    assert_eq!(ListenBridge::redemption_time_ms(true), 60);
    assert_eq!(ListenBridge::redemption_time_ms(false), 400);
}
