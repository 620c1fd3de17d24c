//! Recording of the mixed session audio to a WAV file.
use vstd::prelude::*;
use std::path::PathBuf;

verus! {

/// The standard library's owned file system path.
#[verifier::external_type_specification]
#[verifier::external_body]
pub struct ExPathBuf(PathBuf);

/// Where a recorder writes: `<app_dir>/<session_id>/audio.wav`.
pub struct RecArgs {
    pub app_dir: PathBuf,
    pub session_id: String,
}

/// How the recorder opens the WAV file.
#[derive(Debug, Clone, Copy, PartialEq, Eq, Structural)]
pub enum WavOpenMode {
    /// Append to the existing recording of the session.
    Append,
    /// Create a new file with the recorder's format.
    Create,
}

/// Writes the session audio to disk.
pub struct Recorder;

impl Recorder {
    /// Name of the audio file in the session's directory.
    pub const AUDIO_FILE_NAME: &'static str = "audio.wav";
    pub const CHANNELS: u16 = 1;
    pub const SAMPLE_RATE: u32 = 16000;
    /// Samples are 32-bit floats.
    pub const BITS_PER_SAMPLE: u16 = 32;

    /// An existing recording of the session is continued, never overwritten.
    pub fn open_mode(file_exists: bool) -> (r: WavOpenMode)
        ensures
            r == if file_exists { WavOpenMode::Append } else { WavOpenMode::Create },
    {
        if file_exists {
            WavOpenMode::Append
        } else {
            WavOpenMode::Create
        }
    }
}

} // verus!
