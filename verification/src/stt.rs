//! Local speech-to-text: the supported models, and the decisions of starting,
//! stopping and connecting to the transcription servers.
use vstd::prelude::*;
use vstd::string::*;

use crate::session::opt_text;
use crate::text::{contains, decimal_nat, push_decimal_u64, seq_contains, trim, trim_seq};

verus! {

broadcast use vstd::string::group_string_axioms;

/// Where a transcription server runs.
#[derive(Debug, Clone, Copy, PartialEq, Eq, Structural, Hash)]
pub enum ServerType {
    /// The in-process Whisper server.
    Internal,
    /// The separate process that serves Am models.
    External,
}

/// Health of a transcription server.
#[derive(Debug, Clone, Copy, PartialEq, Eq, Structural, Hash)]
pub enum ServerHealth {
    Unreachable,
    Loading,
    Ready,
}

/// How to reach a transcription server.
pub struct Connection {
    pub model: Option<String>,
    pub base_url: String,
    pub api_key: Option<String>,
}

/// Quantized Whisper models run by the internal server.
#[derive(Debug, Clone, Copy, PartialEq, Eq, Structural, Hash)]
pub enum WhisperModel {
    QuantizedTiny,
    QuantizedTinyEn,
    QuantizedBase,
    QuantizedBaseEn,
    QuantizedSmall,
    QuantizedSmallEn,
    QuantizedLargeTurbo,
}

/// Models run by the external server.
#[derive(Debug, Clone, Copy, PartialEq, Eq, Structural, Hash)]
pub enum AmModel {
    ParakeetV2,
    WhisperLargeV3,
}

/// A speech-to-text model the app can use.
#[derive(Debug, Clone, Copy, PartialEq, Eq, Structural, Hash)]
pub enum SupportedSttModel {
    Whisper(WhisperModel),
    Am(AmModel),
}

/// The models offered to the user, in the order they are listed.
pub open spec fn spec_supported_models() -> Seq<SupportedSttModel> {
    seq![
        SupportedSttModel::Whisper(WhisperModel::QuantizedTiny),
        SupportedSttModel::Whisper(WhisperModel::QuantizedTinyEn),
        SupportedSttModel::Whisper(WhisperModel::QuantizedBase),
        SupportedSttModel::Whisper(WhisperModel::QuantizedBaseEn),
        SupportedSttModel::Whisper(WhisperModel::QuantizedSmall),
        SupportedSttModel::Whisper(WhisperModel::QuantizedSmallEn),
        SupportedSttModel::Whisper(WhisperModel::QuantizedLargeTurbo),
        SupportedSttModel::Am(AmModel::ParakeetV2),
    ]
}

pub fn supported_models() -> (r: Vec<SupportedSttModel>)
    ensures
        r@ == spec_supported_models(),
        r@.no_duplicates(),
        forall|m: SupportedSttModel| r@.contains(m) <==> m != SupportedSttModel::Am(AmModel::WhisperLargeV3),
{
    let mut v: Vec<SupportedSttModel> = Vec::new();
    v.push(SupportedSttModel::Whisper(WhisperModel::QuantizedTiny));
    v.push(SupportedSttModel::Whisper(WhisperModel::QuantizedTinyEn));
    v.push(SupportedSttModel::Whisper(WhisperModel::QuantizedBase));
    v.push(SupportedSttModel::Whisper(WhisperModel::QuantizedBaseEn));
    v.push(SupportedSttModel::Whisper(WhisperModel::QuantizedSmall));
    v.push(SupportedSttModel::Whisper(WhisperModel::QuantizedSmallEn));
    v.push(SupportedSttModel::Whisper(WhisperModel::QuantizedLargeTurbo));
    v.push(SupportedSttModel::Am(AmModel::ParakeetV2));
    assert(v@ =~= spec_supported_models());
    v
}

/// Every model is offered exactly once, except the Am Whisper large model,
/// which is not offered.
pub proof fn law_each_stt_model_offered_once()
    ensures
        spec_supported_models().no_duplicates(),
        forall|m: SupportedSttModel| spec_supported_models().contains(m) <==> m != SupportedSttModel::Am(
            AmModel::WhisperLargeV3,
        ),
{
    let s = spec_supported_models();
    assert forall|m: SupportedSttModel| s.contains(m) <==> m != SupportedSttModel::Am(AmModel::WhisperLargeV3) by {
        if m != SupportedSttModel::Am(AmModel::WhisperLargeV3) {
            let k: int = match m {
                SupportedSttModel::Whisper(WhisperModel::QuantizedTiny) => 0,
                SupportedSttModel::Whisper(WhisperModel::QuantizedTinyEn) => 1,
                SupportedSttModel::Whisper(WhisperModel::QuantizedBase) => 2,
                SupportedSttModel::Whisper(WhisperModel::QuantizedBaseEn) => 3,
                SupportedSttModel::Whisper(WhisperModel::QuantizedSmall) => 4,
                SupportedSttModel::Whisper(WhisperModel::QuantizedSmallEn) => 5,
                SupportedSttModel::Whisper(WhisperModel::QuantizedLargeTurbo) => 6,
                _ => 7,
            };
            assert(s[k] == m);
        }
    }
}

/// The failures of the speech-to-text plugin's own rules.
#[derive(Debug, Clone, Copy, PartialEq, Eq, Structural)]
pub enum SttError {
    ModelNotDownloaded,
    ServerAlreadyRunning,
    AmBinaryNotFound,
    AmApiKeyNotSet,
    UnsupportedModelType,
}

/// The server that runs a model.
pub open spec fn spec_server_type(m: SupportedSttModel) -> ServerType {
    match m {
        SupportedSttModel::Am(_) => ServerType::External,
        SupportedSttModel::Whisper(_) => ServerType::Internal,
    }
}

pub fn server_type_for(model: SupportedSttModel) -> (r: ServerType)
    ensures
        r == spec_server_type(model),
{
    match model {
        SupportedSttModel::Am(_) => ServerType::External,
        SupportedSttModel::Whisper(_) => ServerType::Internal,
    }
}

/// The model in use: the stored choice, else the quantized base Whisper model.
pub fn current_model_or_default(stored: Option<SupportedSttModel>) -> (r: SupportedSttModel)
    ensures
        r == match stored {
            Some(m) => m,
            None => SupportedSttModel::Whisper(WhisperModel::QuantizedBase),
        },
{
    match stored {
        Some(m) => m,
        None => SupportedSttModel::Whisper(WhisperModel::QuantizedBase),
    }
}

/// Whether the internal server may start `model`; the Whisper model to load.
/// The checks come in this order: the model file is there, no internal
/// server runs, the model is a Whisper model.
pub fn check_internal_start(model: SupportedSttModel, downloaded: bool, internal_running: bool) -> (r:
    Result<WhisperModel, SttError>)
    ensures
        r == if !downloaded {
            Err::<WhisperModel, SttError>(SttError::ModelNotDownloaded)
        } else if internal_running {
            Err(SttError::ServerAlreadyRunning)
        } else {
            match model {
                SupportedSttModel::Whisper(w) => Ok(w),
                SupportedSttModel::Am(_) => Err(SttError::UnsupportedModelType),
            }
        },
{
    if !downloaded {
        return Err(SttError::ModelNotDownloaded);
    }
    if internal_running {
        return Err(SttError::ServerAlreadyRunning);
    }
    match model {
        SupportedSttModel::Whisper(w) => Ok(w),
        SupportedSttModel::Am(_) => Err(SttError::UnsupportedModelType),
    }
}

/// Whether the external server may start `model`; the Am model and the API
/// key to start it with.  The checks come in this order: no external server
/// runs, the model is an Am model, an API key is set, the server binaries
/// are present.
pub fn check_external_start(
    model: SupportedSttModel,
    external_running: bool,
    am_api_key: Option<String>,
    binaries_present: bool,
) -> (r: Result<(AmModel, String), SttError>)
    ensures
        external_running ==> r == Err::<(AmModel, String), SttError>(SttError::ServerAlreadyRunning),
        !external_running && model is Whisper ==> r == Err::<(AmModel, String), SttError>(
            SttError::UnsupportedModelType,
        ),
        !external_running && model is Am && am_api_key is None ==> r == Err::<
            (AmModel, String),
            SttError,
        >(SttError::AmApiKeyNotSet),
        !external_running && model is Am && am_api_key is Some && !binaries_present ==> r == Err::<
            (AmModel, String),
            SttError,
        >(SttError::AmBinaryNotFound),
        r matches Ok((m, key)) ==> !external_running && binaries_present && model == SupportedSttModel::Am(m)
            && am_api_key is Some && key@ == am_api_key->0@,
        !external_running && model is Am && am_api_key is Some && binaries_present ==> r is Ok,
{
    if external_running {
        return Err(SttError::ServerAlreadyRunning);
    }
    let am_model = match model {
        SupportedSttModel::Am(m) => m,
        SupportedSttModel::Whisper(_) => {
            return Err(SttError::UnsupportedModelType);
        },
    };
    let key = match am_api_key {
        Some(k) => k,
        None => {
            return Err(SttError::AmApiKeyNotSet);
        },
    };
    if !binaries_present {
        return Err(SttError::AmBinaryNotFound);
    }
    Ok((am_model, key))
}

/// Which running servers a stop request ends.
#[derive(Debug, Clone, Copy, PartialEq, Eq, Structural)]
pub struct StopSelection {
    pub internal: bool,
    pub external: bool,
}

impl StopSelection {
    /// Whether any server is stopped.
    pub fn stopped(&self) -> (r: bool)
        ensures
            r == (self.internal || self.external),
    {
        self.internal || self.external
    }
}

/// The servers to stop: the one of the given type, or both when no type is
/// given, each only if it runs.
pub fn servers_to_stop(target: Option<ServerType>, internal_running: bool, external_running: bool) -> (r:
    StopSelection)
    ensures
        r.internal == (internal_running && target != Some(ServerType::External)),
        r.external == (external_running && target != Some(ServerType::Internal)),
{
    match target {
        Some(ServerType::External) => StopSelection { internal: false, external: external_running },
        Some(ServerType::Internal) => StopSelection { internal: internal_running, external: false },
        None => StopSelection { internal: internal_running, external: external_running },
    }
}

/// How a connection is had: from a running server, or by starting one first.
pub enum ConnectionPlan {
    Ready(Connection),
    StartServer,
}

/// The connection to a server at `base_url` for `model`: Am servers are
/// reached with the API key, Whisper servers without one.
pub open spec fn connection_ok(c: Connection, model: SupportedSttModel, base_url: Seq<char>, am_key: Seq<char>) -> bool {
    &&& c.model is None
    &&& c.base_url@ == base_url
    &&& match model {
        SupportedSttModel::Am(_) => c.api_key is Some && c.api_key->0@ == am_key,
        SupportedSttModel::Whisper(_) => c.api_key is None,
    }
}

/// A connection reaches the given server and carries the API key exactly for
/// Am models; a Whisper connection carries no key.
pub proof fn law_connection_key_only_for_am(c: Connection, model: SupportedSttModel, url: Seq<char>, key: Seq<char>)
    requires
        connection_ok(c, model, url, key),
    ensures
        c.base_url@ == url,
        c.api_key is Some <==> model is Am,
        c.api_key matches Some(k) ==> k@ == key,
{
}

pub fn connection_for(model: SupportedSttModel, base_url: String, am_key: String) -> (c: Connection)
    ensures
        connection_ok(c, model, base_url@, am_key@),
{
    match model {
        SupportedSttModel::Am(_) => Connection { model: None, base_url, api_key: Some(am_key) },
        SupportedSttModel::Whisper(_) => Connection { model: None, base_url, api_key: None },
    }
}

/// How to get a connection for `model`: an API key must be set (for every
/// model); then the running server of the model's type is used, or one is
/// started.
pub fn connection_plan(
    model: SupportedSttModel,
    am_api_key: Option<String>,
    internal_base_url: Option<String>,
    external_base_url: Option<String>,
) -> (r: Result<ConnectionPlan, SttError>)
    ensures
        am_api_key is None <==> r == Err::<ConnectionPlan, SttError>(SttError::AmApiKeyNotSet),
        am_api_key is Some ==> r is Ok,
        r matches Ok(p) ==> {
            let running = match model {
                SupportedSttModel::Am(_) => external_base_url,
                SupportedSttModel::Whisper(_) => internal_base_url,
            };
            match p {
                ConnectionPlan::Ready(c) => running is Some && connection_ok(c, model, running->0@, am_api_key->0@),
                ConnectionPlan::StartServer => running is None,
            }
        },
{
    let am_key = match am_api_key {
        Some(k) => k,
        None => {
            return Err(SttError::AmApiKeyNotSet);
        },
    };
    let running = match model {
        SupportedSttModel::Am(_) => external_base_url,
        SupportedSttModel::Whisper(_) => internal_base_url,
    };
    match running {
        Some(url) => Ok(ConnectionPlan::Ready(connection_for(model, url, am_key))),
        None => Ok(ConnectionPlan::StartServer),
    }
}

/// A Whisper model file is complete when it exists with the expected size;
/// `actual_size` is `None` when the file does not exist.
pub fn download_complete(actual_size: Option<u64>, expected_size: u64) -> (r: bool)
    ensures
        r == (actual_size == Some(expected_size)),
{
    match actual_size {
        Some(s) => s == expected_size,
        None => false,
    }
}

/// Load state of the model, as the external server reports it.
#[derive(Debug, Clone, Copy, PartialEq, Eq, Structural)]
pub enum AmModelState {
    Loading,
    Loaded,
    /// Any other state (nothing loaded yet, failed).
    Other,
}

/// Health of the external server from its status reply (`None` when the
/// status request failed).
pub fn health_from_status(status: Option<AmModelState>) -> (r: ServerHealth)
    ensures
        r == match status {
            Some(AmModelState::Loading) => ServerHealth::Loading,
            Some(AmModelState::Loaded) => ServerHealth::Ready,
            _ => ServerHealth::Unreachable,
        },
{
    match status {
        Some(AmModelState::Loading) => ServerHealth::Loading,
        Some(AmModelState::Loaded) => ServerHealth::Ready,
        _ => ServerHealth::Unreachable,
    }
}

// ---------------------------------------------------------------------------
// The external server process
// ---------------------------------------------------------------------------

/// Port the external server listens on.
pub const EXTERNAL_SERVER_PORT: u16 = 50060;

/// `http://localhost:<port>`.
pub fn localhost_url(port: u16) -> (r: String)
    ensures
        r@ == "http://localhost:"@ + decimal_nat(port as nat),
{
    let mut r = String::from_str("http://localhost:");
    push_decimal_u64(&mut r, port as u64);
    r
}

/// A line of the server's output is logged, trimmed, unless it is blank or
/// one of its chatty progress messages.
pub open spec fn loggable(t: Seq<char>) -> bool {
    &&& t.len() > 0
    &&& !seq_contains(t, "[TranscriptionHandler]"@)
    &&& !seq_contains(t, "[WebSocket]"@)
    &&& !seq_contains(t, "Sent interim"@)
}

/// The text to log for a line of the server's output, if any.
pub fn server_output_to_log(line: &str) -> (r: Option<String>)
    ensures
        r is Some <==> loggable(trim_seq(line@)),
        r matches Some(t) ==> t@ == trim_seq(line@),
{
    let t = trim(line);
    let s = t.as_str();
    if !s.is_empty() && !contains(s, "[TranscriptionHandler]") && !contains(s, "[WebSocket]") && !contains(
        s,
        "Sent interim",
    ) {
        Some(t)
    } else {
        None
    }
}

/// What the server process reported.
pub enum ServerEvent {
    /// A line on standard output (`None` when it was not UTF-8).
    Stdout(Option<String>),
    /// A line on standard error (`None` when it was not UTF-8).
    Stderr(Option<String>),
    Terminated,
    Error,
    /// The event channel closed.
    Closed,
    /// The server handle asked the watcher to shut down.
    Shutdown,
    Other,
}

/// What the watcher does after an event.
pub enum WatchStep {
    Continue,
    Log(String),
    Stop,
}

/// Watches the server process until it ends or is shut down.
pub struct ServerWatch {
    pub process_ended: bool,
}

impl ServerWatch {
    pub fn new() -> (r: ServerWatch)
        ensures
            !r.process_ended,
    {
        ServerWatch { process_ended: false }
    }

    /// Handles one event: output lines are logged (filtered), the end of the
    /// process or of the channel marks the process ended, and those, an
    /// error or a shutdown request stop the watch.
    pub fn on_event(&mut self, event: ServerEvent) -> (r: WatchStep)
        ensures
            final(self).process_ended == (old(self).process_ended || event is Terminated
                || event is Closed),
            (event is Terminated || event is Closed || event is Error || event is Shutdown) <==> r is Stop,
            r matches WatchStep::Log(t) ==> match event {
                ServerEvent::Stdout(Some(l)) => t@ == trim_seq(l@) && loggable(t@),
                ServerEvent::Stderr(Some(l)) => t@ == trim_seq(l@) && loggable(t@),
                _ => false,
            },
            match event {
                ServerEvent::Stdout(Some(l)) => loggable(trim_seq(l@)) ==> r is Log,
                ServerEvent::Stderr(Some(l)) => loggable(trim_seq(l@)) ==> r is Log,
                _ => true,
            },
    {
        match event {
            ServerEvent::Stdout(Some(line)) | ServerEvent::Stderr(Some(line)) => {
                match server_output_to_log(line.as_str()) {
                    Some(t) => WatchStep::Log(t),
                    None => WatchStep::Continue,
                }
            },
            ServerEvent::Terminated | ServerEvent::Closed => {
                self.process_ended = true;
                WatchStep::Stop
            },
            ServerEvent::Error | ServerEvent::Shutdown => WatchStep::Stop,
            _ => WatchStep::Continue,
        }
    }

    /// After the watch, the child process is killed unless it already ended.
    pub fn needs_kill(&self) -> (r: bool)
        ensures
            r == !self.process_ended,
    {
        !self.process_ended
    }
}

// ---------------------------------------------------------------------------
// Model downloads
// ---------------------------------------------------------------------------

/// No model occurs twice.
pub open spec fn distinct_models<H>(s: Seq<(SupportedSttModel, H)>) -> bool {
    forall|i: int, j: int| 0 <= i < j < s.len() ==> #[trigger] s[i].0 != #[trigger] s[j].0
}

/// Some entry is for `m`.
pub open spec fn has_model<H>(s: Seq<(SupportedSttModel, H)>, m: SupportedSttModel) -> bool {
    exists|i: int| 0 <= i < s.len() && #[trigger] s[i].0 == m
}

/// The running download task of each model, at most one per model.
pub struct DownloadTasks<H> {
    tasks: Vec<(SupportedSttModel, H)>,
}

impl<H> View for DownloadTasks<H> {
    type V = Seq<(SupportedSttModel, H)>;

    closed spec fn view(&self) -> Seq<(SupportedSttModel, H)> {
        self.tasks@
    }
}

impl<H> DownloadTasks<H> {
    pub open spec fn wf(&self) -> bool {
        distinct_models(self@)
    }

    pub fn new() -> (r: Self)
        ensures
            r@.len() == 0,
            r.wf(),
    {
        DownloadTasks { tasks: Vec::new() }
    }

    fn find(&self, model: SupportedSttModel) -> (r: Option<usize>)
        ensures
            r matches Some(i) ==> i < self@.len() && self@[i as int].0 == model,
            r is None ==> !has_model(self@, model),
    {
        let mut i: usize = 0;
        while i < self.tasks.len()
            invariant
                0 <= i <= self@.len(),
                self@ == self.tasks@,
                forall|k: int| 0 <= k < i ==> #[trigger] self@[k].0 != model,
            decreases self@.len() - i,
        {
            if self.tasks[i].0 == model {
                return Some(i);
            }
            i = i + 1;
        }
        None
    }

    /// Whether a download of `model` runs.
    pub fn is_downloading(&self, model: SupportedSttModel) -> (r: bool)
        ensures
            r == has_model(self@, model),
    {
        self.find(model).is_some()
    }

    /// Records the download task of `model`; hands back the task it
    /// replaces, for the caller to abort.
    pub fn replace(&mut self, model: SupportedSttModel, task: H) -> (previous: Option<H>)
        requires
            old(self).wf(),
        ensures
            final(self).wf(),
            match previous {
                Some(h) => exists|i: int|
                    0 <= i < old(self)@.len() && old(self)@[i] == (model, h) && final(self)@
                        == old(self)@.remove(i).push((model, task)),
                None => !has_model(old(self)@, model) && final(self)@ == old(self)@.push((model, task)),
            },
    {
        let ghost before = self@;
        match self.find(model) {
            Some(i) => {
                let (_, h) = self.tasks.remove(i);
                let ghost removed = self.tasks@;
                self.tasks.push((model, task));
                proof {
                    assert forall|k: int| 0 <= k < removed.len() implies #[trigger] removed[k].0 != model by {
                        if k < i {
                            assert(removed[k] == before[k]);
                        } else {
                            assert(removed[k] == before[k + 1]);
                        }
                    }
                    assert forall|a: int, b: int| 0 <= a < b < removed.len() implies #[trigger] removed[a].0
                        != #[trigger] removed[b].0 by {
                        let aa = if a < i { a } else { a + 1 };
                        let bb = if b < i { b } else { b + 1 };
                        assert(removed[a] == before[aa]);
                        assert(removed[b] == before[bb]);
                    }
                    let after = self@;
                    assert forall|a: int, b: int| 0 <= a < b < after.len() implies #[trigger] after[a].0
                        != #[trigger] after[b].0 by {
                        if b == after.len() - 1 {
                            assert(after[a] == removed[a]);
                        } else {
                            assert(after[a] == removed[a]);
                            assert(after[b] == removed[b]);
                        }
                    }
                    assert(before[i as int] == (model, h));
                }
                Some(h)
            },
            None => {
                self.tasks.push((model, task));
                proof {
                    let after = self@;
                    assert forall|a: int, b: int| 0 <= a < b < after.len() implies #[trigger] after[a].0
                        != #[trigger] after[b].0 by {
                        if b == after.len() - 1 {
                            assert(after[a] == before[a]);
                        } else {
                            assert(after[a] == before[a]);
                            assert(after[b] == before[b]);
                        }
                    }
                }
                None
            },
        }
    }

    /// Removes every task, handing them back for the caller to cancel.
    pub fn drain(&mut self) -> (tasks: Vec<H>)
        ensures
            final(self)@.len() == 0,
            final(self).wf(),
            tasks@ == old(self)@.map_values(|p: (SupportedSttModel, H)| p.1),
    {
        let mut out: Vec<H> = Vec::new();
        let ghost before = self@;
        let mut all: Vec<(SupportedSttModel, H)> = Vec::new();
        std::mem::swap(&mut all, &mut self.tasks);
        for p in it: all
            invariant
                it.seq() == before,
                out@.len() == it.index(),
                forall|k: int| 0 <= k < out@.len() ==> #[trigger] out@[k] == before[k].1,
        {
            let (_, h) = p;
            out.push(h);
        }
        assert(out@ =~= before.map_values(|p: (SupportedSttModel, H)| p.1));
        out
    }
}

/// Starting a download of a model that already downloads replaces its task:
/// each model has at most one task, and the new one is recorded.
pub proof fn law_one_task_per_model<H>(s: Seq<(SupportedSttModel, H)>, i: int, m: SupportedSttModel, t: H)
    requires
        distinct_models(s),
        0 <= i < s.len(),
        s[i].0 == m,
    ensures
        has_model(s.remove(i).push((m, t)), m),
        s.remove(i).push((m, t)).len() == s.len(),
        forall|k: int| 0 <= k < s.remove(i).len() ==> #[trigger] s.remove(i)[k].0 != m,
{
    let r = s.remove(i);
    assert(r.push((m, t))[r.len() as int].0 == m);
    assert forall|k: int| 0 <= k < r.len() implies #[trigger] r[k].0 != m by {
        if k < i {
            assert(r[k] == s[k]);
        } else {
            assert(r[k] == s[k + 1]);
        }
    }
}

// ---------------------------------------------------------------------------
// Window events
// ---------------------------------------------------------------------------

/// The kinds of window events the plugin reacts to.
pub enum WindowEventKind {
    CloseRequested,
    Destroyed,
    Focused(bool),
    Other,
}

/// What a window event asks of the plugin.
#[derive(Debug, Clone, Copy, PartialEq, Eq, Structural)]
pub enum SttWindowReaction {
    Nothing,
    /// Drop both servers and cancel all downloads.
    StopAll,
    /// Start the server of the current model.
    StartServer,
}

/// The reaction to a window event; `is_main` is `None` when the window's
/// label names no known window.
pub fn window_reaction(event: &WindowEventKind, is_main: Option<bool>) -> (r: SttWindowReaction)
    ensures
        r == match event {
            WindowEventKind::CloseRequested | WindowEventKind::Destroyed => if is_main == Some(true) {
                SttWindowReaction::StopAll
            } else {
                SttWindowReaction::Nothing
            },
            WindowEventKind::Focused(true) => SttWindowReaction::StartServer,
            _ => SttWindowReaction::Nothing,
        },
{
    match event {
        WindowEventKind::CloseRequested | WindowEventKind::Destroyed => {
            match is_main {
                Some(true) => SttWindowReaction::StopAll,
                _ => SttWindowReaction::Nothing,
            }
        },
        WindowEventKind::Focused(true) => SttWindowReaction::StartServer,
        _ => SttWindowReaction::Nothing,
    }
}

} // verus!
