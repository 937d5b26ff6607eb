//! Audio packets: numbering what is sent, and following the track that is
//! received. Coding the samples is left to an Opus codec.
use vstd::prelude::*;

use crate::client::{Client, ClientError, ClientErrorView};
use crate::text;
use crate::types::ConnectionStatus;

verus! {

/// Audio sample rate in Hz (48 kHz, required by Opus).
pub const SAMPLE_RATE: u32 = 48_000;

/// Number of audio channels (mono).
pub const CHANNELS: usize = 1;

/// Number of samples per 20 ms frame at 48 kHz.
pub const FRAME_SIZE: usize = 960;

/// The most bytes that an encoded frame, or a packet that is read, may have.
pub const MAX_OPUS_BYTES: usize = 1500;

/// The RTP payload type of Opus.
pub const RTP_PAYLOAD_TYPE: u8 = 111;

/// The RTP source of the audio that is sent.
pub const RTP_SSRC: u32 = 0xDEAD_BEEF;

/// The fields of an RTP header that differ from their defaults.
#[derive(Debug, Clone, Copy, PartialEq, Eq, Structural)]
pub struct RtpHeader {
    pub version: u8,
    pub payload_type: u8,
    pub sequence_number: u16,
    pub timestamp: u32,
    pub ssrc: u32,
}

/// An RTP packet to send.
#[derive(Debug)]
pub struct RtpPacket {
    pub header: RtpHeader,
    pub payload: Vec<u8>,
}

/// Numbers the packets that are sent.
#[derive(Debug, Clone, Copy, PartialEq, Eq, Structural)]
pub struct RtpClock {
    seq: u16,
    ts: u32,
}

/// The sequence number and the timestamp of the next packet.
pub struct RtpClockView {
    pub seq: u16,
    pub ts: u32,
}

impl View for RtpClock {
    type V = RtpClockView;

    closed spec fn view(&self) -> RtpClockView {
        RtpClockView { seq: self.seq, ts: self.ts }
    }
}

impl RtpClockView {
    /// The clock after one packet: the sequence number goes up by one and the
    /// timestamp by a frame, both around their range.
    pub open spec fn next(self) -> RtpClockView {
        RtpClockView {
            seq: ((self.seq + 1) % 0x1_0000) as u16,
            ts: ((self.ts + FRAME_SIZE) % 0x1_0000_0000) as u32,
        }
    }

    /// The clock after `n` packets.
    pub open spec fn after(self, n: nat) -> RtpClockView
        decreases n,
    {
        if n == 0 {
            self
        } else {
            self.after((n - 1) as nat).next()
        }
    }

    /// The header of the next packet.
    pub open spec fn header(self) -> RtpHeader {
        RtpHeader {
            version: 2,
            payload_type: RTP_PAYLOAD_TYPE,
            sequence_number: self.seq,
            timestamp: self.ts,
            ssrc: RTP_SSRC,
        }
    }
}

impl RtpClock {
    /// A clock before the first packet.
    pub fn new() -> (r: Self)
        ensures
            r@ == (RtpClockView { seq: 0, ts: 0 }),
    {
        RtpClock { seq: 0, ts: 0 }
    }

    /// The packet for a frame that was encoded, or the codec's words on why it
    /// was not, in which case no number is used up.
    pub fn packet(&mut self, encoded: Result<Vec<u8>, String>) -> (r: Result<
        RtpPacket,
        ClientError,
    >)
        ensures
            match encoded {
                Ok(payload) => {
                    &&& r matches Ok(p)
                    &&& p.header == old(self)@.header()
                    &&& p.payload@ == payload@
                    &&& final(self)@ == old(self)@.next()
                },
                Err(e) => {
                    &&& r matches Err(why)
                    &&& why@ == ClientErrorView::Audio("opus encode: "@ + e@)
                    &&& final(self)@ == old(self)@
                },
            },
    {
        match encoded {
            Ok(payload) => {
                let header = RtpHeader {
                    version: 2,
                    payload_type: RTP_PAYLOAD_TYPE,
                    sequence_number: self.seq,
                    timestamp: self.ts,
                    ssrc: RTP_SSRC,
                };
                self.seq = self.seq.wrapping_add(1);
                self.ts = self.ts.wrapping_add(FRAME_SIZE as u32);
                Ok(RtpPacket { header, payload })
            },
            Err(e) => Err(ClientError::Audio(text::concatenate("opus encode: ", e.as_str()))),
        }
    }
}

/// After `n` packets from the start, the next is number `n` and its timestamp is
/// `n` frames, both around their range.
pub proof fn law_packets_are_numbered(n: nat)
    ensures
        (RtpClockView { seq: 0, ts: 0 }).after(n) == (RtpClockView {
            seq: (n % 0x1_0000) as u16,
            ts: ((n * 960) % 0x1_0000_0000) as u32,
        }),
    decreases n,
{
    if n > 0 {
        law_packets_are_numbered((n - 1) as nat);
    }
}

/// Why a packet that was read could not be decoded, with the codec's words.
#[derive(Debug)]
pub enum DecodeError {
    /// No decoder could be made.
    Decoder(String),
    /// The payload is no Opus packet.
    Packet(String),
    /// The caller's buffer cannot take samples.
    Signal(String),
    /// The decoder turned the packet down.
    Decode(String),
}

/// What receiving a frame is waiting for. Tracks are told apart by numbers.
#[derive(Debug)]
pub enum Receive {
    /// The current remote track, if there is one.
    Looking,
    /// A remote track to arrive.
    AwaitingTrack,
    /// The remote track that arrived.
    LookingAgain,
    /// A packet from the track.
    Reading { track: u64 },
    /// The current remote track, after reading failed for this reason.
    LookingForReplacement { track: u64, why: String },
    /// A remote track to arrive, after reading failed for this reason.
    AwaitingReplacement { track: u64, why: String },
    /// The packet to be decoded.
    Decoding { track: u64 },
    /// Nothing any more; the number of samples of the frame.
    Done(Result<usize, ClientError>),
}

/// What a [`Receive`] says.
#[verifier::ext_equal]
pub enum ReceiveView {
    Looking,
    AwaitingTrack,
    LookingAgain,
    Reading { track: u64 },
    LookingForReplacement { track: u64, why: Seq<char> },
    AwaitingReplacement { track: u64, why: Seq<char> },
    Decoding { track: u64 },
    Done(Result<usize, ClientErrorView>),
}

impl View for Receive {
    type V = ReceiveView;

    open spec fn view(&self) -> ReceiveView {
        match self {
            Receive::Looking => ReceiveView::Looking,
            Receive::AwaitingTrack => ReceiveView::AwaitingTrack,
            Receive::LookingAgain => ReceiveView::LookingAgain,
            Receive::Reading { track } => ReceiveView::Reading { track: *track },
            Receive::LookingForReplacement { track, why } => ReceiveView::LookingForReplacement {
                track: *track,
                why: why@,
            },
            Receive::AwaitingReplacement { track, why } => ReceiveView::AwaitingReplacement {
                track: *track,
                why: why@,
            },
            Receive::Decoding { track } => ReceiveView::Decoding { track: *track },
            Receive::Done(result) => ReceiveView::Done(
                match result {
                    Ok(n) => Ok(*n),
                    Err(e) => Err(e@),
                },
            ),
        }
    }
}

/// Something that receiving a frame was waiting for.
#[derive(Debug)]
pub enum ReceiveEvent {
    /// The current remote track, if there is one.
    Looked(Option<u64>),
    /// A remote track arrived, or the call was lost or ended.
    Notified,
    /// The number of bytes in the packet's payload, or words on why reading
    /// failed.
    Read(Result<usize, String>),
    /// The number of samples.
    Decoded(Result<usize, DecodeError>),
}

/// Whether a track in place of `track`, which cannot be read any more, is still
/// to come: a reconnect is under way, or it took the old track away and the new
/// one has not arrived yet.
pub open spec fn replacement_due(status: ConnectionStatus, track: u64, found: Option<u64>) -> bool {
    match found {
        Some(current) => current == track && status == ConnectionStatus::Reconnecting,
        None => status == ConnectionStatus::Connecting || status == ConnectionStatus::Connected
            || status == ConnectionStatus::Reconnecting,
    }
}

/// The failure of receiving for this reason.
pub open spec fn receive_failed(why: Seq<char>) -> ReceiveView {
    ReceiveView::Done(Err(ClientErrorView::Audio(why)))
}

/// Receiving after `event`, on a connection with this status. An event that it
/// was not waiting for changes nothing.
///
/// A track that can no longer be read is replaced by the one that a reconnect
/// brings, so that a reconnect is a gap in the audio rather than an error.
pub open spec fn receive_step(
    status: ConnectionStatus,
    s: ReceiveView,
    event: ReceiveEvent,
) -> ReceiveView {
    match (s, event) {
        (ReceiveView::Looking, ReceiveEvent::Looked(found)) => match found {
            Some(track) => ReceiveView::Reading { track },
            None => ReceiveView::AwaitingTrack,
        },
        (ReceiveView::AwaitingTrack, ReceiveEvent::Notified) => ReceiveView::LookingAgain,
        (ReceiveView::LookingAgain, ReceiveEvent::Looked(found)) => match found {
            Some(track) => ReceiveView::Reading { track },
            None => receive_failed("remote track not available"@),
        },
        (ReceiveView::Reading { track }, ReceiveEvent::Read(read)) => match read {
            Ok(len) => if len == 0 {
                ReceiveView::Reading { track }
            } else {
                ReceiveView::Decoding { track }
            },
            Err(why) => ReceiveView::LookingForReplacement { track, why: why@ },
        },
        (ReceiveView::LookingForReplacement { track, why }, ReceiveEvent::Looked(found)) => {
            if found is Some && found != Some(track) {
                ReceiveView::Reading { track: found->0 }
            } else if replacement_due(status, track, found) {
                ReceiveView::AwaitingReplacement { track, why }
            } else {
                receive_failed("track read: "@ + why)
            }
        },
        (ReceiveView::AwaitingReplacement { track, why }, ReceiveEvent::Notified) =>
            ReceiveView::LookingForReplacement { track, why },
        (ReceiveView::Decoding { track }, ReceiveEvent::Decoded(decoded)) => match decoded {
            Ok(n) => ReceiveView::Done(Ok(n)),
            Err(DecodeError::Decoder(e)) => receive_failed("opus decoder: "@ + e@),
            Err(DecodeError::Packet(e)) => receive_failed("opus packet: "@ + e@),
            Err(DecodeError::Signal(e)) => receive_failed("opus signal: "@ + e@),
            Err(DecodeError::Decode(_)) => ReceiveView::Reading { track },
        },
        _ => s,
    }
}

/// The failure of receiving for this reason, with details.
fn fail(what: &str, details: &str) -> (r: Receive)
    ensures
        r@ == receive_failed(what@ + details@),
{
    Receive::Done(Err(ClientError::Audio(text::concatenate(what, details))))
}

impl Receive {
    /// Begins to receive a frame.
    pub fn begin() -> (r: Receive)
        ensures
            r@ == ReceiveView::Looking,
    {
        Receive::Looking
    }

    /// Takes in an event.
    pub fn step(self, client: &Client, event: ReceiveEvent) -> (r: Receive)
        ensures
            r@ == receive_step(client@.status, self@, event),
    {
        match (self, event) {
            (Receive::Looking, ReceiveEvent::Looked(found)) => match found {
                Some(track) => Receive::Reading { track },
                None => Receive::AwaitingTrack,
            },
            (Receive::AwaitingTrack, ReceiveEvent::Notified) => Receive::LookingAgain,
            (Receive::LookingAgain, ReceiveEvent::Looked(found)) => match found {
                Some(track) => Receive::Reading { track },
                None => Receive::Done(
                    Err(ClientError::Audio("remote track not available".to_owned())),
                ),
            },
            (Receive::Reading { track }, ReceiveEvent::Read(read)) => match read {
                Ok(len) => if len == 0 {
                    Receive::Reading { track }
                } else {
                    Receive::Decoding { track }
                },
                Err(why) => Receive::LookingForReplacement { track, why },
            },
            (Receive::LookingForReplacement { track, why }, ReceiveEvent::Looked(found)) => {
                let status = client.status();
                let due = match found {
                    Some(current) => {
                        if current != track {
                            return Receive::Reading { track: current };
                        }
                        status == ConnectionStatus::Reconnecting
                    },
                    None => status == ConnectionStatus::Connecting || status
                        == ConnectionStatus::Connected || status == ConnectionStatus::Reconnecting,
                };
                if due {
                    Receive::AwaitingReplacement { track, why }
                } else {
                    fail("track read: ", why.as_str())
                }
            },
            (Receive::AwaitingReplacement { track, why }, ReceiveEvent::Notified) =>
                Receive::LookingForReplacement { track, why },
            (Receive::Decoding { track }, ReceiveEvent::Decoded(decoded)) => match decoded {
                Ok(n) => Receive::Done(Ok(n)),
                Err(DecodeError::Decoder(e)) => fail("opus decoder: ", e.as_str()),
                Err(DecodeError::Packet(e)) => fail("opus packet: ", e.as_str()),
                Err(DecodeError::Signal(e)) => fail("opus signal: ", e.as_str()),
                // The next packet may do better.
                Err(DecodeError::Decode(_)) => Receive::Reading { track },
            },
            (receive, _) => receive,
        }
    }
}

/// A reconnect is a gap in the audio, not an error: a track that cannot be read
/// any more ends receiving only if it was not replaced and no replacement is
/// due, which one always is while a reconnect is under way.
pub proof fn law_reconnect_is_a_gap(
    status: ConnectionStatus,
    track: u64,
    why: Seq<char>,
    found: Option<u64>,
)
    ensures
        ({
            let next = receive_step(
                status,
                ReceiveView::LookingForReplacement { track, why },
                ReceiveEvent::Looked(found),
            );
            &&& next is Done <==> (found is None || found == Some(track)) && !replacement_due(
                status,
                track,
                found,
            )
            &&& status == ConnectionStatus::Reconnecting ==> !(next is Done)
            &&& found is Some && found != Some(track) ==> next == ReceiveView::Reading {
                track: found->0,
            }
        }),
{
}

} // verus!
