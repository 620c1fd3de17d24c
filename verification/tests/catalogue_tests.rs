use hypr_plugins::connector::{Connection, ConnectionLLM};
use hypr_plugins::llm_model::{supported_models, SupportedModel};
use hypr_plugins::notification::{
    calendar_notification, detect_reaction, upcoming_event_notification, DetectEventKind,
    DetectReaction, DetectState, NotificationTriggerEvent, event_start_step, ready_plan, RetryStep,
    EVENT_START_MAX_RETRIES,
};
use hypr_plugins::webhook::webhook_todo;
use hypr_plugins::windows::{window_reaction, WindowReaction};
use hypr_plugins::stt::WindowEventKind;

#[test]
fn llm_models() {
    let ms = supported_models();
    assert_eq!(ms, vec![SupportedModel::Llama3p2_3bQ4, SupportedModel::HyprLLM, SupportedModel::Gemma3_4bQ4]);
    assert_eq!(SupportedModel::Llama3p2_3bQ4.file_name(), "llm.gguf");
    assert_eq!(SupportedModel::HyprLLM.file_name(), "hypr-llm.gguf");
    assert_eq!(SupportedModel::Gemma3_4bQ4.file_name(), "gemma-3-4b-it-Q4_K_M.gguf");
    assert_eq!(SupportedModel::HyprLLM.model_url(), "https://storage2.hyprnote.com/v0/yujonglee/hypr-llm-sm/model_q4_k_m.gguf");
    assert_eq!(SupportedModel::Llama3p2_3bQ4.model_size(), 2019377440);
    assert_eq!(SupportedModel::Gemma3_4bQ4.model_size(), 2489894016);
    assert_eq!(SupportedModel::HyprLLM.model_checksum(), 4037351144);
    assert_eq!(SupportedModel::Gemma3_4bQ4.model_checksum(), 2760830291);
}

#[test]
fn connections() {
    let llm = ConnectionLLM::HyprLocal(Connection { api_base: "http://x".into(), api_key: Some("k".into()) });
    assert_eq!(llm.as_ref().api_base, "http://x");
    let c: Connection = llm.into();
    assert_eq!(c.api_key.as_deref(), Some("k"));
    let c: Connection = ConnectionLLM::Custom(Connection { api_base: "y".into(), api_key: None }).into();
    assert_eq!(c.api_base, "y");
}

#[test]
fn calendar_notifications() {
    let t = NotificationTriggerEvent { event_id: "e1".into(), event_name: "Standup".into(), minutes_until_start: 10 };
    assert!(calendar_notification(&t, true).is_none());
    let n = calendar_notification(&t, false).unwrap();
    assert_eq!(n.key.as_deref(), Some("event_e1_false"));
    assert_eq!(n.title, "Standup");
    assert_eq!(n.message, "Meeting starting in 10 minutes");
    assert_eq!(n.url.as_deref(), Some("hypr://hyprnote.com/app/new?calendar_event_id=e1"));
    assert_eq!(n.timeout_secs, 300);
    let soon = NotificationTriggerEvent { event_id: "e2".into(), event_name: "1:1".into(), minutes_until_start: 2 };
    let n = calendar_notification(&soon, true).unwrap();
    assert_eq!(n.key.as_deref(), Some("event_e2_true"));
    assert_eq!(n.message, "Meeting starting in 1 minutes");
}

#[test]
fn detector_notifications() {
    match detect_reaction(DetectEventKind::MicStarted, false, 1_700_000_009) {
        DetectReaction::Show(n) => {
            assert_eq!(n.key.as_deref(), Some("mic-detection-170000000"));
            assert_eq!(n.title, "Meeting detected");
            assert_eq!(n.message, "Based on your microphone activity");
            assert_eq!(n.url.as_deref(), Some("hypr://hyprnote.com/app/new?record=true"));
        }
        _ => panic!("expected a notification"),
    }
    assert!(matches!(detect_reaction(DetectEventKind::MicStarted, true, 5), DetectReaction::Nothing));
    assert!(matches!(detect_reaction(DetectEventKind::MicStopped, true, 5), DetectReaction::PauseSession));
    assert!(matches!(detect_reaction(DetectEventKind::Other, false, 5), DetectReaction::Nothing));
}

#[test]
fn worker_notification() {
    let n = upcoming_event_notification("ev9", "Planning");
    assert_eq!(n.key, None);
    assert_eq!(n.title, "Meeting starting in 5 minutes");
    assert_eq!(n.message, "Planning");
    assert_eq!(n.url.as_deref(), Some("hypr://hyprnote.com/notification?event_id=ev9"));
    assert_eq!(n.timeout_secs, 10);
}

#[test]
fn detect_state() {
    let mut d: DetectState<&str> = DetectState::new();
    assert!(!d.is_running());
    assert_eq!(d.start("first"), None);
    assert!(d.is_running());
    assert_eq!(d.start("second"), Some("first"));
    assert_eq!(d.stop(), Some("second"));
    assert!(!d.is_running());
    assert_eq!(d.stop(), None);
}

#[test]
fn window_and_webhook() {
    assert_eq!(window_reaction(&WindowEventKind::CloseRequested, true), WindowReaction::HideMain);
    assert_eq!(window_reaction(&WindowEventKind::CloseRequested, false), WindowReaction::Nothing);
    assert_eq!(window_reaction(&WindowEventKind::Destroyed, false), WindowReaction::Forget);
    assert_eq!(window_reaction(&WindowEventKind::Focused(true), true), WindowReaction::Nothing);
    assert_eq!(webhook_todo(), Ok("Webhook todo functionality not yet implemented".to_string()));
}

#[test]
fn event_monitor_start_retries() {
    let mut retries = 0u32;
    assert_eq!(event_start_step(&mut retries, true), RetryStep::Start);
    assert_eq!(retries, 0);
    let mut steps = vec![];
    loop {
        let step = event_start_step(&mut retries, false);
        steps.push(step);
        if step != RetryStep::Wait {
            break;
        }
    }
    assert_eq!(steps.len() as u32, EVENT_START_MAX_RETRIES);
    assert_eq!(*steps.last().unwrap(), RetryStep::GiveUp);
    assert_eq!(retries, 10);
    let mut retries = 9u32;
    assert_eq!(event_start_step(&mut retries, true), RetryStep::Start);
}

#[test]
fn ready_plans() {
    let p = ready_plan(Some(true), None);
    assert!(p.start_detector && !p.start_event_monitor);
    let p = ready_plan(Some(false), Some(true));
    assert!(!p.start_detector && p.start_event_monitor);
}
