use hypr_plugins::processor::{AudioProcessor, Joiner, JOINER_CAPACITY};
use hypr_plugins::recorder::{Recorder, WavOpenMode};
use hypr_plugins::source::{SourceActor, SrcCommand, SrcReaction, SrcState, SrcWhich};

#[test]
fn joiner_pairs_oldest_first() {
    let mut j: Joiner<u32> = Joiner::new();
    assert_eq!(j.pop_pair(), None);
    j.push_mic(1);
    j.push_mic(2);
    assert_eq!(j.pop_pair(), None);
    j.push_spk(10);
    assert_eq!(j.pop_pair(), Some((1, 10)));
    assert_eq!(j.pop_pair(), None);
    j.push_spk(20);
    assert_eq!(j.pop_pair(), Some((2, 20)));
}

#[test]
fn joiner_drops_oldest_when_full() {
    let mut j: Joiner<usize> = Joiner::new();
    for i in 0..(JOINER_CAPACITY + 3) {
        j.push_mic(i);
    }
    for i in 0..(JOINER_CAPACITY + 3) {
        j.push_spk(100 + i);
    }
    let mut pairs = vec![];
    while let Some(p) = j.pop_pair() {
        pairs.push(p);
    }
    assert_eq!(pairs.len(), JOINER_CAPACITY);
    assert_eq!(pairs[0], (3, 103));
    assert_eq!(pairs[JOINER_CAPACITY - 1], (12, 112));
}

#[test]
fn amplitude_throttle() {
    assert!(!AudioProcessor::amplitude_due(99));
    assert!(AudioProcessor::amplitude_due(100));
}

#[test]
fn source_control() {
    let which = SourceActor::initial_which(SrcWhich::Mic { device: Some("old".to_string()) }, "default".to_string());
    let mut st = SrcState { which, muted: false };
    assert!(matches!(SourceActor::handle(&mut st, SrcCommand::GetDevice), SrcReaction::ReplyDevice(Some(d)) if d == "default"));
    assert!(matches!(SourceActor::handle(&mut st, SrcCommand::SetMute(true)), SrcReaction::Nothing));
    assert!(matches!(SourceActor::handle(&mut st, SrcCommand::GetMute), SrcReaction::ReplyMute(true)));
    assert!(matches!(SourceActor::handle(&mut st, SrcCommand::SetDevice(Some("usb".to_string()))), SrcReaction::RestartCapture));
    assert!(matches!(SourceActor::handle(&mut st, SrcCommand::GetDevice), SrcReaction::ReplyDevice(Some(d)) if d == "usb"));

    let mut spk = SrcState { which: SourceActor::initial_which(SrcWhich::Speaker, "default".to_string()), muted: false };
    assert!(matches!(SourceActor::handle(&mut spk, SrcCommand::SetDevice(Some("usb".to_string()))), SrcReaction::Nothing));
    assert!(matches!(SourceActor::handle(&mut spk, SrcCommand::GetDevice), SrcReaction::ReplyDevice(None)));
}

#[test]
fn mute_silences_chunks() {
    assert_eq!(SourceActor::apply_mute(vec![0.5f32, -0.25], true, 0.0), vec![0.0, 0.0]);
    assert_eq!(SourceActor::apply_mute(vec![0.5f32, -0.25], false, 0.0), vec![0.5, -0.25]);
    assert_eq!(SourceActor::SAMPLE_RATE, 16000);
}

#[test]
fn recorder_opens() {
    assert_eq!(Recorder::open_mode(true), WavOpenMode::Append);
    assert_eq!(Recorder::open_mode(false), WavOpenMode::Create);
    assert_eq!(Recorder::AUDIO_FILE_NAME, "audio.wav");
}
