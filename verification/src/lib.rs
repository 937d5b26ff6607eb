//! A client for a voice agent server over WebRTC and WHIP.
//!
//! The crate holds everything that the client decides: what its requests say
//! and what the server's replies mean, how a dropped connection is recovered,
//! what becomes of the conversation, and how an ICE restart is folded into a
//! session description. It does no I/O: each sequence of outside work is a state
//! machine that says what it is waiting for and takes in what happened.
pub mod audio;
pub mod audio_laws;
pub mod client;
pub mod client_laws;
pub mod conversation;
pub mod conversation_laws;
pub mod dial;
pub mod dial_laws;
pub mod history;
pub mod icerestart;
pub mod icerestart_laws;
pub mod recovery;
pub mod recovery_laws;
pub mod recovery_step_laws;
pub mod restart;
pub mod restart_laws;
pub mod sdp_laws;
pub mod text;
pub mod text_laws;
pub mod types;
pub mod view_laws;
pub mod whip;
pub mod whip_laws;

pub use audio::{CHANNELS, FRAME_SIZE, SAMPLE_RATE};
pub use client::{Client, ClientError};
pub use icerestart::{apply_ice_fragment, ice_fragment_from_sdp, ICE_FRAGMENT_CONTENT_TYPE};
pub use types::{
    AgentState, Config, ConnectionStatus, DataChannelMessage, Delay, ReconnectEvent,
    ReconnectOutcome, ReconnectPhase, TimingEvent, TranscriptEntry,
};
