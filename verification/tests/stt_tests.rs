use hypr_plugins::stt::{
    check_external_start, check_internal_start, connection_plan, current_model_or_default,
    download_complete, health_from_status, localhost_url, server_output_to_log, server_type_for,
    servers_to_stop, supported_models, DownloadTasks, window_reaction, AmModel, AmModelState, ConnectionPlan,
    ServerEvent, ServerHealth, ServerType, ServerWatch, SttError, SttWindowReaction,
    SupportedSttModel, WatchStep, WhisperModel, WindowEventKind, EXTERNAL_SERVER_PORT,
};

const WHISPER: SupportedSttModel = SupportedSttModel::Whisper(WhisperModel::QuantizedSmall);
const AM: SupportedSttModel = SupportedSttModel::Am(AmModel::ParakeetV2);

#[test]
fn model_catalogue() {
    let ms = supported_models();
    assert_eq!(ms.len(), 8);
    assert_eq!(ms[0], SupportedSttModel::Whisper(WhisperModel::QuantizedTiny));
    assert_eq!(ms[7], AM);
    assert_eq!(server_type_for(AM), ServerType::External);
    assert_eq!(server_type_for(WHISPER), ServerType::Internal);
    assert_eq!(current_model_or_default(None), SupportedSttModel::Whisper(WhisperModel::QuantizedBase));
    assert_eq!(current_model_or_default(Some(AM)), AM);
}

#[test]
fn internal_start_checks() {
    assert_eq!(check_internal_start(WHISPER, false, true), Err(SttError::ModelNotDownloaded));
    assert_eq!(check_internal_start(WHISPER, true, true), Err(SttError::ServerAlreadyRunning));
    assert_eq!(check_internal_start(AM, true, false), Err(SttError::UnsupportedModelType));
    assert_eq!(check_internal_start(WHISPER, true, false), Ok(WhisperModel::QuantizedSmall));
}

#[test]
fn external_start_checks() {
    let key = Some("k".to_string());
    assert_eq!(check_external_start(AM, true, key.clone(), true), Err(SttError::ServerAlreadyRunning));
    assert_eq!(check_external_start(WHISPER, false, key.clone(), true), Err(SttError::UnsupportedModelType));
    assert_eq!(check_external_start(AM, false, None, true), Err(SttError::AmApiKeyNotSet));
    assert_eq!(check_external_start(AM, false, key.clone(), false), Err(SttError::AmBinaryNotFound));
    assert_eq!(check_external_start(AM, false, key, true), Ok((AmModel::ParakeetV2, "k".to_string())));
}

#[test]
fn stop_selection() {
    let s = servers_to_stop(None, true, true);
    assert!(s.internal && s.external && s.stopped());
    let s = servers_to_stop(Some(ServerType::Internal), true, true);
    assert!(s.internal && !s.external);
    let s = servers_to_stop(Some(ServerType::External), true, false);
    assert!(!s.internal && !s.external && !s.stopped());
}

#[test]
fn connection_plans() {
    assert!(matches!(connection_plan(WHISPER, None, Some("u".into()), None), Err(SttError::AmApiKeyNotSet)));
    match connection_plan(WHISPER, Some("k".into()), Some("http://w".into()), Some("http://a".into())) {
        Ok(ConnectionPlan::Ready(c)) => {
            assert_eq!(c.base_url, "http://w");
            assert_eq!(c.api_key, None);
            assert_eq!(c.model, None);
        }
        _ => panic!("expected a ready connection"),
    }
    match connection_plan(AM, Some("k".into()), Some("http://w".into()), Some("http://a".into())) {
        Ok(ConnectionPlan::Ready(c)) => {
            assert_eq!(c.base_url, "http://a");
            assert_eq!(c.api_key.as_deref(), Some("k"));
        }
        _ => panic!("expected a ready connection"),
    }
    assert!(matches!(connection_plan(AM, Some("k".into()), Some("http://w".into()), None), Ok(ConnectionPlan::StartServer)));
}

#[test]
fn downloads_and_health() {
    assert!(download_complete(Some(10), 10));
    assert!(!download_complete(Some(9), 10));
    assert!(!download_complete(None, 10));
    assert_eq!(health_from_status(None), ServerHealth::Unreachable);
    assert_eq!(health_from_status(Some(AmModelState::Loading)), ServerHealth::Loading);
    assert_eq!(health_from_status(Some(AmModelState::Loaded)), ServerHealth::Ready);
    assert_eq!(health_from_status(Some(AmModelState::Other)), ServerHealth::Unreachable);
}

#[test]
fn external_server_output() {
    assert_eq!(localhost_url(EXTERNAL_SERVER_PORT), "http://localhost:50060");
    assert_eq!(server_output_to_log("  model loaded \n"), Some("model loaded".to_string()));
    assert_eq!(server_output_to_log("   "), None);
    assert_eq!(server_output_to_log("[WebSocket] open"), None);
    assert_eq!(server_output_to_log("x [TranscriptionHandler] y"), None);
    assert_eq!(server_output_to_log("Sent interim result"), None);

    let mut w = ServerWatch::new();
    assert!(matches!(w.on_event(ServerEvent::Stdout(Some(" hi ".into()))), WatchStep::Log(t) if t == "hi"));
    assert!(matches!(w.on_event(ServerEvent::Stderr(None)), WatchStep::Continue));
    assert!(matches!(w.on_event(ServerEvent::Other), WatchStep::Continue));
    assert!(matches!(w.on_event(ServerEvent::Shutdown), WatchStep::Stop));
    assert!(w.needs_kill());
    assert!(matches!(w.on_event(ServerEvent::Terminated), WatchStep::Stop));
    assert!(!w.needs_kill());
    let mut w = ServerWatch::new();
    assert!(matches!(w.on_event(ServerEvent::Error), WatchStep::Stop));
    assert!(w.needs_kill());
    assert!(matches!(w.on_event(ServerEvent::Closed), WatchStep::Stop));
    assert!(!w.needs_kill());
}

#[test]
fn window_events() {
    assert_eq!(window_reaction(&WindowEventKind::CloseRequested, Some(true)), SttWindowReaction::StopAll);
    assert_eq!(window_reaction(&WindowEventKind::Destroyed, Some(false)), SttWindowReaction::Nothing);
    assert_eq!(window_reaction(&WindowEventKind::Destroyed, None), SttWindowReaction::Nothing);
    assert_eq!(window_reaction(&WindowEventKind::Focused(true), None), SttWindowReaction::StartServer);
    assert_eq!(window_reaction(&WindowEventKind::Focused(false), Some(true)), SttWindowReaction::Nothing);
}

#[test]
fn download_tasks_one_per_model() {
    let mut t: DownloadTasks<u32> = DownloadTasks::new();
    assert!(!t.is_downloading(AM));
    assert_eq!(t.replace(AM, 1), None);
    assert_eq!(t.replace(WHISPER, 2), None);
    assert!(t.is_downloading(AM));
    assert_eq!(t.replace(AM, 3), Some(1));
    assert!(t.is_downloading(WHISPER));
    let mut all = t.drain();
    all.sort();
    assert_eq!(all, vec![2, 3]);
    assert!(!t.is_downloading(AM));
    assert!(t.drain().is_empty());
}
