//! The listening session: which session runs, and what starting and stopping
//! it decides.  The actors themselves (sources, processor, recorder, the
//! bridge to the transcription service) are spawned and stopped by the caller
//! as these decisions say.
use vstd::prelude::*;

verus! {

/// Whether a listening session is running.
#[derive(Debug, Clone, Copy, PartialEq, Eq, Structural)]
pub enum State {
    Inactive,
    RunningActive,
}

impl State {
    /// The state that a query of the session supervisor yields: `reply` is
    /// `None` when no supervisor runs, `Some(None)` when the call failed.
    pub fn from_reply(reply: Option<Option<State>>) -> (r: State)
        ensures
            r == match reply {
                Some(Some(s)) => s,
                _ => State::Inactive,
            },
    {
        match reply {
            Some(Some(s)) => s,
            _ => State::Inactive,
        }
    }
}

/// The parts of the stored user configuration that a session reads.
pub struct GeneralConfig {
    pub save_recordings: Option<bool>,
    /// ISO 639 codes of the spoken languages.
    pub spoken_languages: Vec<String>,
}

/// What the session supervisor knows of the current session.
pub struct SessionState {
    pub state: State,
    pub session_id: Option<String>,
    pub session_start_ts_ms: Option<u64>,
    pub record_enabled: bool,
    /// ISO 639 codes of the languages to transcribe.
    pub languages: Vec<String>,
    pub onboarding: bool,
}

pub struct SessionView {
    pub state: State,
    pub session_id: Option<Seq<char>>,
    pub session_start_ts_ms: Option<u64>,
    pub record_enabled: bool,
    pub languages: Seq<Seq<char>>,
    pub onboarding: bool,
}

pub open spec fn opt_text(o: Option<String>) -> Option<Seq<char>> {
    match o {
        Some(s) => Some(s@),
        None => None,
    }
}

pub open spec fn texts_of(v: Seq<String>) -> Seq<Seq<char>> {
    v.map_values(|s: String| s@)
}

impl View for SessionState {
    type V = SessionView;

    open spec fn view(&self) -> SessionView {
        SessionView {
            state: self.state,
            session_id: opt_text(self.session_id),
            session_start_ts_ms: self.session_start_ts_ms,
            record_enabled: self.record_enabled,
            languages: texts_of(self.languages@),
            onboarding: self.onboarding,
        }
    }
}

/// What to do with a request to start session `id`.
#[derive(Debug, Clone, Copy, PartialEq, Eq, Structural)]
pub enum StartDecision {
    /// The session already runs: nothing to do.
    Ignore,
    /// Start the session.
    Start,
    /// Another session runs: stop it, then start this one.
    StopThenStart,
}

pub open spec fn start_decision(s: SessionView, id: Seq<char>) -> StartDecision {
    if s.state == State::RunningActive && s.session_id is Some {
        if s.session_id->0 != id {
            StartDecision::StopThenStart
        } else {
            StartDecision::Ignore
        }
    } else {
        StartDecision::Start
    }
}

/// The session fields after preparing session `id`: recording is on unless
/// the configuration turns it off, and the languages are the configured ones
/// (English when there is no configuration).
pub open spec fn prepared(
    s: SessionView,
    id: Seq<char>,
    onboarding_id: Seq<char>,
    save_recordings: Option<Option<bool>>,
    languages: Option<Seq<Seq<char>>>,
    now_ms: u64,
) -> SessionView {
    SessionView {
        state: s.state,
        session_id: Some(id),
        session_start_ts_ms: Some(now_ms),
        record_enabled: match save_recordings {
            None => true,
            Some(None) => true,
            Some(Some(b)) => b,
        },
        languages: match languages {
            None => seq![seq!['e', 'n']],
            Some(l) => l,
        },
        onboarding: id == onboarding_id,
    }
}

/// The session after it stopped.
pub open spec fn stopped(s: SessionView) -> SessionView {
    if s.state == State::Inactive {
        s
    } else {
        SessionView { state: State::Inactive, session_id: None, session_start_ts_ms: None, ..s }
    }
}

/// What a child actor's lifecycle event is.
#[derive(Debug, Clone, Copy, PartialEq, Eq, Structural)]
pub enum SupervisionKind {
    Started,
    Failed,
    Terminated,
    Other,
}

/// What the new session needs spawned.
pub struct SessionPlan {
    /// Whether a recorder writes the audio to disk.
    pub spawn_recorder: bool,
    /// Settings of the bridge to the transcription service.
    pub listen: ListenArgs,
}

/// Settings of the bridge to the transcription service.
pub struct ListenArgs {
    pub session_id: String,
    pub languages: Vec<String>,
    pub onboarding: bool,
    pub session_start_ts_ms: u64,
}

/// Supervises the actors of a listening session.
pub struct SessionSupervisor;

fn copy_strings(v: &Vec<String>) -> (r: Vec<String>)
    ensures
        texts_of(r@) == texts_of(v@),
{
    let mut out: Vec<String> = Vec::new();
    for i in 0..v.len()
        invariant
            texts_of(out@) == texts_of(v@).take(i as int),
    {
        let ghost before = out@;
        out.push(v[i].clone());
        assert(texts_of(out@) =~= texts_of(before).push(v@[i as int]@));
        assert(texts_of(v@).take(i + 1) =~= texts_of(v@).take(i as int).push(v@[i as int]@));
    }
    assert(texts_of(v@).take(v@.len() as int) =~= texts_of(v@));
    out
}

impl SessionSupervisor {
    /// The supervisor's state before any session.
    pub fn initial_state() -> (r: SessionState)
        ensures
            r@.state == State::Inactive,
            r@.session_id is None,
            r@.session_start_ts_ms is None,
            r@.record_enabled,
            r@.languages.len() == 0,
            !r@.onboarding,
    {
        let r = SessionState {
            state: State::Inactive,
            session_id: None,
            session_start_ts_ms: None,
            record_enabled: true,
            languages: Vec::new(),
            onboarding: false,
        };
        assert(r@.languages =~= Seq::<Seq<char>>::empty());
        r
    }

    /// What a request to start session `session_id` calls for.
    pub fn start_decision(state: &SessionState, session_id: &String) -> (r: StartDecision)
        ensures
            r == start_decision(state@, session_id@),
    {
        if let State::RunningActive = state.state {
            if let Some(current_id) = &state.session_id {
                if !current_id.eq(session_id) {
                    return StartDecision::StopThenStart;
                } else {
                    return StartDecision::Ignore;
                }
            }
        }
        StartDecision::Start
    }

    /// Records the new session's settings (before its actors are spawned)
    /// and says what to spawn.
    pub fn prepare_session(
        state: &mut SessionState,
        session_id: String,
        onboarding_session_id: &String,
        config: Option<GeneralConfig>,
        now_ms: u64,
    ) -> (plan: SessionPlan)
        ensures
            final(state)@ == prepared(
                old(state)@,
                session_id@,
                onboarding_session_id@,
                match config {
                    None => None,
                    Some(c) => Some(c.save_recordings),
                },
                match config {
                    None => None,
                    Some(c) => Some(texts_of(c.spoken_languages@)),
                },
                now_ms,
            ),
            plan.spawn_recorder == final(state)@.record_enabled,
            final(state)@.record_enabled == match config {
                Some(c) => match c.save_recordings {
                    Some(b) => b,
                    None => true,
                },
                None => true,
            },
            final(state)@.onboarding == (session_id@ == onboarding_session_id@),
            final(state)@.session_id == Some(session_id@),
            final(state)@.state == old(state)@.state,
            plan.listen.session_id@ == session_id@,
            texts_of(plan.listen.languages@) == final(state)@.languages,
            plan.listen.onboarding == final(state)@.onboarding,
            plan.listen.session_start_ts_ms == now_ms,
    {
        state.onboarding = session_id == *onboarding_session_id;
        match config {
            None => {
                state.record_enabled = true;
                let mut langs: Vec<String> = Vec::new();
                let en = String::from_str("en");
                proof { reveal_strlit("en"); }
                assert(en@ =~= seq!['e', 'n']);
                langs.push(en);
                assert(texts_of(langs@) =~= seq![seq!['e', 'n']]);
                state.languages = langs;
            },
            Some(c) => {
                state.record_enabled = match c.save_recordings {
                    Some(b) => b,
                    None => true,
                };
                state.languages = c.spoken_languages;
            },
        }
        state.session_id = Some(session_id.clone());
        state.session_start_ts_ms = Some(now_ms);
        SessionPlan {
            spawn_recorder: state.record_enabled,
            listen: ListenArgs {
                session_id,
                languages: copy_strings(&state.languages),
                onboarding: state.onboarding,
                session_start_ts_ms: now_ms,
            },
        }
    }

    /// Marks the session as running, once its actors are up.
    pub fn mark_running(state: &mut SessionState)
        ensures
            final(state)@ == (SessionView { state: State::RunningActive, ..old(state)@ }),
    {
        state.state = State::RunningActive;
    }

    /// Ends the running session.  `None` when nothing runs (and nothing
    /// changes); otherwise the id of the session that ended, whose actors
    /// the caller stops and whose record it closes.
    pub fn end_session(state: &mut SessionState) -> (r: Option<Option<String>>)
        ensures
            final(state)@ == stopped(old(state)@),
            old(state)@.state == State::Inactive <==> r is None,
            r matches Some(id) ==> opt_text(id) == old(state)@.session_id,
    {
        if let State::Inactive = state.state {
            return None;
        }
        let id = state.session_id.take();
        state.session_start_ts_ms = None;
        state.state = State::Inactive;
        Some(id)
    }

    /// Whether a child actor's lifecycle event stops the session: a failure
    /// always does, a termination does while the session runs.
    pub fn stops_session(state: &SessionState, event: SupervisionKind) -> (r: bool)
        ensures
            r == match event {
                SupervisionKind::Failed => true,
                SupervisionKind::Terminated => state@.state == State::RunningActive,
                _ => false,
            },
    {
        match event {
            SupervisionKind::Failed => true,
            SupervisionKind::Terminated => {
                match state.state {
                    State::RunningActive => true,
                    State::Inactive => false,
                }
            },
            _ => false,
        }
    }
}

/// Bridge between the audio pipeline and the transcription service.
pub struct ListenBridge;

impl ListenBridge {
    /// Silence in milliseconds after which the service ends an utterance:
    /// short during onboarding.
    pub fn redemption_time_ms(onboarding: bool) -> (r: u64)
        ensures
            r == if onboarding { 60u64 } else { 400u64 },
    {
        if onboarding {
            60
        } else {
            400
        }
    }
}

/// Recording follows the stored setting: off exactly when the configuration
/// stores `save_recordings = false`, on when it stores `true`, when it stores
/// nothing, or when there is no configuration. The onboarding flag is set
/// exactly for the onboarding session, and English is the language when
/// there is no configuration.
pub proof fn law_recording_follows_setting(
    s: SessionView,
    id: Seq<char>,
    onboarding_id: Seq<char>,
    save: Option<Option<bool>>,
    langs: Option<Seq<Seq<char>>>,
    now_ms: u64,
)
    ensures
        ({
            let p = prepared(s, id, onboarding_id, save, langs, now_ms);
            &&& (!p.record_enabled <==> save == Some(Some(false)))
            &&& (save matches Some(Some(b)) ==> p.record_enabled == b)
            &&& (p.onboarding <==> id == onboarding_id)
            &&& (langs is None ==> p.languages == seq![seq!['e', 'n']])
            &&& (langs matches Some(l) ==> p.languages == l)
            &&& p.session_id == Some(id)
            &&& p.session_start_ts_ms == Some(now_ms)
            &&& p.state == s.state
        }),
{
}

/// A start request starts the session when none runs (or the running one has
/// no id), is ignored for the running session, and stops the running session
/// first for any other id.
pub proof fn law_start_request_outcomes(s: SessionView, id: Seq<char>)
    ensures
        s.state == State::Inactive ==> start_decision(s, id) == StartDecision::Start,
        s.state == State::RunningActive && s.session_id is None ==> start_decision(s, id)
            == StartDecision::Start,
        s.state == State::RunningActive && s.session_id == Some(id) ==> start_decision(s, id)
            == StartDecision::Ignore,
        s.state == State::RunningActive && s.session_id is Some && s.session_id != Some(id)
            ==> start_decision(s, id) == StartDecision::StopThenStart,
{
}

/// Starting a session while that same session runs is ignored: the decision
/// only reads the state, and `Ignore` leaves every child actor and the state
/// as they are.
pub proof fn law_restart_of_running_session_is_ignored(s: SessionView)
    requires
        s.state == State::RunningActive,
        s.session_id is Some,
    ensures
        start_decision(s, s.session_id->0) == StartDecision::Ignore,
{
}

/// A session that was prepared and marked running is the running session;
/// stopping it leaves no session, and stopping again changes nothing.
pub proof fn law_start_then_stop(
    s: SessionView,
    id: Seq<char>,
    onboarding_id: Seq<char>,
    save: Option<Option<bool>>,
    langs: Option<Seq<Seq<char>>>,
    now_ms: u64,
)
    ensures
        ({
            let running = SessionView {
                state: State::RunningActive,
                ..prepared(s, id, onboarding_id, save, langs, now_ms)
            };
            &&& start_decision(running, id) == StartDecision::Ignore
            &&& stopped(running).state == State::Inactive
            &&& stopped(running).session_id is None
            &&& stopped(running).session_start_ts_ms is None
            &&& stopped(stopped(running)) == stopped(running)
        }),
{
}

/// Stopping when no session runs changes nothing.
pub proof fn law_stop_when_inactive_is_noop(s: SessionView)
    requires
        s.state == State::Inactive,
    ensures
        stopped(s) == s,
{
}

} // verus!
