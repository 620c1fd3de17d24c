//! Control of an audio source (microphone or speaker capture).
use vstd::prelude::*;

use crate::session::opt_text;

verus! {

/// Which audio a source captures.
pub enum SrcWhich {
    /// A microphone; `device` names the input device.
    Mic { device: Option<String> },
    /// The system's speaker output.
    Speaker,
}

pub enum SrcWhichView {
    Mic { device: Option<Seq<char>> },
    Speaker,
}

impl View for SrcWhich {
    type V = SrcWhichView;

    open spec fn view(&self) -> SrcWhichView {
        match self {
            SrcWhich::Mic { device } => SrcWhichView::Mic { device: opt_text(*device) },
            SrcWhich::Speaker => SrcWhichView::Speaker,
        }
    }
}

/// The part of a source's state that its control messages read and write.
pub struct SrcState {
    pub which: SrcWhich,
    pub muted: bool,
}

pub struct SrcStateView {
    pub which: SrcWhichView,
    pub muted: bool,
}

impl View for SrcState {
    type V = SrcStateView;

    open spec fn view(&self) -> SrcStateView {
        SrcStateView { which: self.which@, muted: self.muted }
    }
}

/// A control message to a source (the reply channels stay with the caller).
pub enum SrcCommand {
    SetMute(bool),
    GetMute,
    SetDevice(Option<String>),
    GetDevice,
}

pub enum SrcCommandView {
    SetMute(bool),
    GetMute,
    SetDevice(Option<Seq<char>>),
    GetDevice,
}

impl View for SrcCommand {
    type V = SrcCommandView;

    open spec fn view(&self) -> SrcCommandView {
        match self {
            SrcCommand::SetMute(m) => SrcCommandView::SetMute(*m),
            SrcCommand::GetMute => SrcCommandView::GetMute,
            SrcCommand::SetDevice(d) => SrcCommandView::SetDevice(opt_text(*d)),
            SrcCommand::GetDevice => SrcCommandView::GetDevice,
        }
    }
}

/// What the source does after a control message.
pub enum SrcReaction {
    Nothing,
    ReplyMute(bool),
    ReplyDevice(Option<String>),
    /// Stop the capture task and start it again with the new device.
    RestartCapture,
}

pub enum SrcReactionView {
    Nothing,
    ReplyMute(bool),
    ReplyDevice(Option<Seq<char>>),
    RestartCapture,
}

impl View for SrcReaction {
    type V = SrcReactionView;

    open spec fn view(&self) -> SrcReactionView {
        match self {
            SrcReaction::Nothing => SrcReactionView::Nothing,
            SrcReaction::ReplyMute(m) => SrcReactionView::ReplyMute(*m),
            SrcReaction::ReplyDevice(d) => SrcReactionView::ReplyDevice(opt_text(*d)),
            SrcReaction::RestartCapture => SrcReactionView::RestartCapture,
        }
    }
}

/// The state after a control message, and the reaction to it.
pub open spec fn src_step(s: SrcStateView, c: SrcCommandView) -> (SrcStateView, SrcReactionView) {
    match c {
        SrcCommandView::SetMute(m) => (SrcStateView { muted: m, ..s }, SrcReactionView::Nothing),
        SrcCommandView::GetMute => (s, SrcReactionView::ReplyMute(s.muted)),
        SrcCommandView::GetDevice => (
            s,
            SrcReactionView::ReplyDevice(
                match s.which {
                    SrcWhichView::Mic { device } => device,
                    SrcWhichView::Speaker => None,
                },
            ),
        ),
        SrcCommandView::SetDevice(d) => match s.which {
            SrcWhichView::Mic { .. } => (
                SrcStateView { which: SrcWhichView::Mic { device: d }, ..s },
                SrcReactionView::RestartCapture,
            ),
            SrcWhichView::Speaker => (s, SrcReactionView::Nothing),
        },
    }
}

fn copy_opt(o: &Option<String>) -> (r: Option<String>)
    ensures
        opt_text(r) == opt_text(*o),
{
    match o {
        Some(s) => Some(s.clone()),
        None => None,
    }
}

/// Captures audio from one side and hands it on in chunks.
pub struct SourceActor;

impl SourceActor {
    /// Sample rate in Hz to which captured audio is resampled.
    pub const SAMPLE_RATE: u32 = 16000;

    /// Pause in milliseconds before capture starts again after its stream ended.
    pub const RESTART_DELAY_MS: u64 = 200;

    /// The source a new actor captures: a microphone always starts on the
    /// current default input device.
    pub fn initial_which(which: SrcWhich, default_mic: String) -> (r: SrcWhich)
        ensures
            r@ == match which@ {
                SrcWhichView::Mic { .. } => SrcWhichView::Mic { device: Some(default_mic@) },
                SrcWhichView::Speaker => SrcWhichView::Speaker,
            },
    {
        match which {
            SrcWhich::Mic { .. } => SrcWhich::Mic { device: Some(default_mic) },
            SrcWhich::Speaker => SrcWhich::Speaker,
        }
    }

    /// Applies a control message.
    pub fn handle(st: &mut SrcState, cmd: SrcCommand) -> (r: SrcReaction)
        ensures
            (final(st)@, r@) == src_step(old(st)@, cmd@),
    {
        match cmd {
            SrcCommand::SetMute(muted) => {
                st.muted = muted;
                SrcReaction::Nothing
            },
            SrcCommand::GetMute => SrcReaction::ReplyMute(st.muted),
            SrcCommand::GetDevice => {
                let device = match &st.which {
                    SrcWhich::Mic { device } => copy_opt(device),
                    SrcWhich::Speaker => None,
                };
                SrcReaction::ReplyDevice(device)
            },
            SrcCommand::SetDevice(dev) => {
                match st.which {
                    SrcWhich::Mic { .. } => {
                        st.which = SrcWhich::Mic { device: dev };
                        SrcReaction::RestartCapture
                    },
                    SrcWhich::Speaker => SrcReaction::Nothing,
                }
            },
        }
    }

    /// The chunk handed on: silence of the same length while muted.
    pub fn apply_mute<T: Copy>(data: Vec<T>, muted: bool, silence: T) -> (r: Vec<T>)
        ensures
            r@.len() == data@.len(),
            muted ==> forall|i: int| 0 <= i < r@.len() ==> #[trigger] r@[i] == silence,
            !muted ==> r@ == data@,
    {
        if muted {
            let mut out: Vec<T> = Vec::new();
            for i in 0..data.len()
                invariant
                    out@.len() == i,
                    forall|k: int| 0 <= k < i ==> #[trigger] out@[k] == silence,
            {
                out.push(silence);
            }
            out
        } else {
            data
        }
    }
}

/// Setting the mute flag and then asking for it gives the flag back.
pub proof fn law_mute_read_after_write(s: SrcStateView, m: bool)
    ensures
        src_step(src_step(s, SrcCommandView::SetMute(m)).0, SrcCommandView::GetMute).1
            == SrcReactionView::ReplyMute(m),
{
}

/// On a microphone, setting the device restarts capture, and asking for the
/// device then gives it back; on the speaker the message changes nothing.
pub proof fn law_device_read_after_write(s: SrcStateView, d: Option<Seq<char>>)
    ensures
        s.which is Mic ==> {
            &&& src_step(s, SrcCommandView::SetDevice(d)).1 == SrcReactionView::RestartCapture
            &&& src_step(src_step(s, SrcCommandView::SetDevice(d)).0, SrcCommandView::GetDevice).1
                == SrcReactionView::ReplyDevice(d)
        },
        s.which is Speaker ==> src_step(s, SrcCommandView::SetDevice(d)) == (s, SrcReactionView::Nothing),
{
}

} // verus!
