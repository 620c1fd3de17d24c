//! When the app notifies the user, and what the notifications say.
use vstd::prelude::*;
use vstd::string::*;

use crate::session::opt_text;
use crate::text::{bool_text, decimal_int, decimal_nat, law_decimal_injective, push_bool, push_decimal_i64, push_decimal_u64};

verus! {

broadcast use vstd::string::group_string_axioms;

/// An upcoming calendar event that may call for a notification.
pub struct NotificationTriggerEvent {
    pub event_id: String,
    pub event_name: String,
    pub minutes_until_start: i64,
}

/// A notification to show.
pub struct NotificationContent {
    /// Notifications with the same key replace each other.
    pub key: Option<String>,
    pub title: String,
    pub message: String,
    /// Link opened when the notification is clicked.
    pub url: Option<String>,
    /// Seconds until the notification goes away.
    pub timeout_secs: u64,
}

pub struct NotificationView {
    pub key: Option<Seq<char>>,
    pub title: Seq<char>,
    pub message: Seq<char>,
    pub url: Option<Seq<char>>,
    pub timeout_secs: u64,
}

impl View for NotificationContent {
    type V = NotificationView;

    open spec fn view(&self) -> NotificationView {
        NotificationView {
            key: opt_text(self.key),
            title: self.title@,
            message: self.message@,
            url: opt_text(self.url),
            timeout_secs: self.timeout_secs,
        }
    }
}

/// Seconds a meeting notification stays up.
pub const MEETING_NOTIFICATION_TIMEOUT_SECS: u64 = 300;

/// Minutes before its start from which an event counts as imminent.
pub const IMMINENT_MINUTES: i64 = 3;

/// The notification for an upcoming calendar event.
pub open spec fn calendar_notification_spec(t: NotificationTriggerEvent, window_visible: bool) -> Option<
    NotificationView,
> {
    let imminent = t.minutes_until_start < IMMINENT_MINUTES;
    if !window_visible || imminent {
        Some(
            NotificationView {
                key: Some("event_"@ + t.event_id@ + "_"@ + bool_text(imminent)),
                title: t.event_name@,
                message: "Meeting starting in "@ + decimal_int(
                    if imminent {
                        1
                    } else {
                        t.minutes_until_start as int
                    },
                ) + " minutes"@,
                url: Some("hypr://hyprnote.com/app/new?calendar_event_id="@ + t.event_id@),
                timeout_secs: MEETING_NOTIFICATION_TIMEOUT_SECS,
            },
        )
    } else {
        None
    }
}

/// The notification for an upcoming calendar event: shown when the main
/// window is hidden or the event starts in less than three minutes (then
/// the message says one minute).
pub fn calendar_notification(trigger: &NotificationTriggerEvent, window_visible: bool) -> (r: Option<
    NotificationContent,
>)
    ensures
        r is Some <==> (!window_visible || trigger.minutes_until_start < IMMINENT_MINUTES),
        match r {
            Some(n) => calendar_notification_spec(*trigger, window_visible) == Some(n@),
            None => calendar_notification_spec(*trigger, window_visible) is None,
        },
{
    let imminent = trigger.minutes_until_start < IMMINENT_MINUTES;
    if window_visible && !imminent {
        return None;
    }
    let mut key = String::from_str("event_");
    key.append(trigger.event_id.as_str());
    key.append("_");
    push_bool(&mut key, imminent);
    let mut message = String::from_str("Meeting starting in ");
    push_decimal_i64(&mut message, if imminent { 1 } else { trigger.minutes_until_start });
    message.append(" minutes");
    let mut url = String::from_str("hypr://hyprnote.com/app/new?calendar_event_id=");
    url.append(trigger.event_id.as_str());
    Some(
        NotificationContent {
            key: Some(key),
            title: trigger.event_name.clone(),
            message,
            url: Some(url),
            timeout_secs: MEETING_NOTIFICATION_TIMEOUT_SECS,
        },
    )
}

/// A calendar event is announced exactly when the main window is hidden or
/// the event starts in fewer than `IMMINENT_MINUTES` minutes; then the
/// notification carries the event's name as title and links to the event.
pub proof fn law_calendar_notification_shown(t: NotificationTriggerEvent, window_visible: bool)
    ensures
        calendar_notification_spec(t, window_visible) is Some <==> (!window_visible
            || t.minutes_until_start < IMMINENT_MINUTES),
        !window_visible ==> calendar_notification_spec(t, window_visible) is Some,
        calendar_notification_spec(t, window_visible) matches Some(n) ==> n.title == t.event_name@
            && n.url == Some("hypr://hyprnote.com/app/new?calendar_event_id="@ + t.event_id@),
{
}

/// What the microphone detector reported.
#[derive(Debug, Clone, Copy, PartialEq, Eq, Structural)]
pub enum DetectEventKind {
    MicStarted,
    MicStopped,
    Other,
}

/// What a detector event calls for.
pub enum DetectReaction {
    Nothing,
    Show(NotificationContent),
    /// Pause the listening session.
    PauseSession,
}

/// Length in seconds of the windows within which microphone notifications
/// share a key (so that one burst of activity shows one notification).
pub const MIC_DETECTION_WINDOW_SECS: u64 = 10;

/// The notification that a meeting seems to have started.
pub open spec fn mic_notification_spec(timestamp_secs: u64) -> NotificationView {
    NotificationView {
        key: Some("mic-detection-"@ + decimal_nat((timestamp_secs / MIC_DETECTION_WINDOW_SECS) as nat)),
        title: "Meeting detected"@,
        message: "Based on your microphone activity"@,
        url: Some("hypr://hyprnote.com/app/new?record=true"@),
        timeout_secs: MEETING_NOTIFICATION_TIMEOUT_SECS,
    }
}

/// The reaction to a detector event at `timestamp_secs` (seconds since the
/// Unix epoch): microphone use while the main window is hidden shows a
/// notification; the microphone going quiet pauses the session.
pub fn detect_reaction(event: DetectEventKind, window_visible: bool, timestamp_secs: u64) -> (r:
    DetectReaction)
    ensures
        match event {
            DetectEventKind::MicStarted => if window_visible {
                r is Nothing
            } else {
                r matches DetectReaction::Show(n) && n@ == mic_notification_spec(timestamp_secs)
            },
            DetectEventKind::MicStopped => r is PauseSession,
            DetectEventKind::Other => r is Nothing,
        },
{
    match event {
        DetectEventKind::MicStarted => {
            if window_visible {
                return DetectReaction::Nothing;
            }
            let mut key = String::from_str("mic-detection-");
            push_decimal_u64(&mut key, timestamp_secs / MIC_DETECTION_WINDOW_SECS);
            DetectReaction::Show(
                NotificationContent {
                    key: Some(key),
                    title: String::from_str("Meeting detected"),
                    message: String::from_str("Based on your microphone activity"),
                    url: Some(String::from_str("hypr://hyprnote.com/app/new?record=true")),
                    timeout_secs: MEETING_NOTIFICATION_TIMEOUT_SECS,
                },
            )
        },
        DetectEventKind::MicStopped => DetectReaction::PauseSession,
        DetectEventKind::Other => DetectReaction::Nothing,
    }
}

/// Microphone notifications replace each other within a ten-second window:
/// two detections get the same key exactly when they fall in the same window.
pub proof fn law_mic_notifications_share_key_within_window(a: u64, b: u64)
    ensures
        mic_notification_spec(a).key == mic_notification_spec(b).key <==> a / MIC_DETECTION_WINDOW_SECS == b
            / MIC_DETECTION_WINDOW_SECS,
{
    let p = "mic-detection-"@;
    let x = decimal_nat((a / MIC_DETECTION_WINDOW_SECS) as nat);
    let y = decimal_nat((b / MIC_DETECTION_WINDOW_SECS) as nat);
    law_decimal_injective((a / MIC_DETECTION_WINDOW_SECS) as nat, (b / MIC_DETECTION_WINDOW_SECS) as nat);
    if p + x == p + y {
        assert((p + x).subrange(p.len() as int, (p + x).len() as int) =~= x);
        assert((p + y).subrange(p.len() as int, (p + y).len() as int) =~= y);
    }
}

/// Minutes ahead in which the event worker looks for an event to announce.
pub const EVENT_LOOKAHEAD_MINUTES: i64 = 5;

/// Seconds the worker's notification stays up.
pub const EVENT_NOTIFICATION_TIMEOUT_SECS: u64 = 10;

/// The notification the event worker shows for the next upcoming event.
pub fn upcoming_event_notification(event_id: &str, event_name: &str) -> (r: NotificationContent)
    ensures
        r@ == (NotificationView {
            key: None,
            title: "Meeting starting in 5 minutes"@,
            message: event_name@,
            url: Some("hypr://hyprnote.com/notification?event_id="@ + event_id@),
            timeout_secs: EVENT_NOTIFICATION_TIMEOUT_SECS,
        }),
{
    let mut url = String::from_str("hypr://hyprnote.com/notification?event_id=");
    url.append(event_id);
    NotificationContent {
        key: None,
        title: String::from_str("Meeting starting in 5 minutes"),
        message: String::from_str(event_name),
        url: Some(url),
        timeout_secs: EVENT_NOTIFICATION_TIMEOUT_SECS,
    }
}

/// How many times, one second apart, the event monitor's start waits for
/// the database before giving up.
pub const EVENT_START_MAX_RETRIES: u32 = 10;

/// Seconds between two looks at the database while the event monitor waits.
pub const EVENT_START_RETRY_SECS: u64 = 1;

/// The next step of the event monitor's start, after one look at the database.
#[derive(Debug, Clone, Copy, PartialEq, Eq, Structural)]
pub enum RetryStep {
    /// The database is ready: start the monitor.
    Start,
    /// Look again after `EVENT_START_RETRY_SECS`.
    Wait,
    /// The database did not become ready in time.
    GiveUp,
}

/// One look at the database's readiness; `retries` counts the looks that
/// found it not ready.
pub fn event_start_step(retries: &mut u32, db_ready: bool) -> (r: RetryStep)
    requires
        *old(retries) < EVENT_START_MAX_RETRIES,
    ensures
        db_ready ==> r == RetryStep::Start && *final(retries) == *old(retries),
        !db_ready ==> *final(retries) == *old(retries) + 1 && r == (if *final(retries)
            >= EVENT_START_MAX_RETRIES {
            RetryStep::GiveUp
        } else {
            RetryStep::Wait
        }),
{
    if db_ready {
        return RetryStep::Start;
    }
    *retries = *retries + 1;
    if *retries >= EVENT_START_MAX_RETRIES {
        RetryStep::GiveUp
    } else {
        RetryStep::Wait
    }
}

/// What the plugin starts once the app is ready.
#[derive(Debug, Clone, Copy, PartialEq, Eq, Structural)]
pub struct ReadyPlan {
    /// Start the microphone detector.
    pub start_detector: bool,
    /// Wait for the database, then start the event monitor.
    pub start_event_monitor: bool,
}

/// The detector starts when detector notifications are on, the event monitor
/// when event notifications are on; a setting that cannot be read counts as
/// off.
pub fn ready_plan(detect_enabled: Option<bool>, event_enabled: Option<bool>) -> (r: ReadyPlan)
    ensures
        r.start_detector == (detect_enabled == Some(true)),
        r.start_event_monitor == (event_enabled == Some(true)),
{
    ReadyPlan {
        start_detector: match detect_enabled {
            Some(b) => b,
            None => false,
        },
        start_event_monitor: match event_enabled {
            Some(b) => b,
            None => false,
        },
    }
}

/// Holds the running microphone detector, if any.
pub struct DetectState<D> {
    detector: Option<D>,
}

impl<D> View for DetectState<D> {
    type V = Option<D>;

    closed spec fn view(&self) -> Option<D> {
        self.detector
    }
}

impl<D> DetectState<D> {
    pub fn new() -> (r: Self)
        ensures
            r@ is None,
    {
        DetectState { detector: None }
    }

    /// Installs a newly started detector; hands back the one that ran
    /// before, for the caller to stop.
    pub fn start(&mut self, detector: D) -> (previous: Option<D>)
        ensures
            final(self)@ == Some(detector),
            previous == old(self)@,
    {
        let previous = self.stop();
        self.detector = Some(detector);
        previous
    }

    /// Removes the running detector, for the caller to stop.
    pub fn stop(&mut self) -> (previous: Option<D>)
        ensures
            final(self)@ is None,
            previous == old(self)@,
    {
        self.detector.take()
    }

    pub fn is_running(&self) -> (r: bool)
        ensures
            r == self@ is Some,
    {
        self.detector.is_some()
    }
}

} // verus!
