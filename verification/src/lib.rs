//! Verified core of the Hyprnote desktop plugins: the merging of streamed
//! transcripts, the listening session and its audio sources, the local
//! speech-to-text servers, notifications, and the model catalogues.
use vstd::prelude::*;

pub mod connector;
pub mod llm_model;
pub mod notification;
pub mod processor;
pub mod recorder;
pub mod session;
pub mod source;
pub mod stt;
pub mod text;
pub mod transcript;
pub mod webhook;
pub mod windows;

verus! {

} // verus!
