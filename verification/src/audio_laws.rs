//! What is sent as audio and what becomes of what is received.
use vstd::prelude::*;

use crate::audio;
use crate::audio::{DecodeError, ReceiveEvent, ReceiveView, RtpClockView};
use crate::client::ClientErrorView;
use crate::types::ConnectionStatus;

verus! {

/// A packet is RTP version 2 with the payload type of Opus and the one source,
/// and the clock's number and time; the next has the next number, and its time is
/// 960 samples later, both around their range.
pub proof fn law_packet_header(k: RtpClockView)
    ensures
        k.header().version == 2,
        k.header().payload_type == 111,
        k.header().ssrc == 0xDEAD_BEEF,
        k.header().sequence_number == k.seq,
        k.header().timestamp == k.ts,
        k.next().seq as int == (k.seq + 1) % 65_536,
        k.next().ts as int == (k.ts + 960) % 4_294_967_296,
{
}

/// The number of packets since determines the clock.
pub proof fn law_clock_counts(k: RtpClockView, n: nat)
    ensures
        k.after(0) == k,
        k.after(n + 1) == k.after(n).next(),
{
}

/// The current track is read as soon as there is one. Without one the first to
/// arrive is waited for, and if none is there after all, receiving fails.
pub proof fn law_track_is_found(status: ConnectionStatus, found: Option<u64>)
    ensures
        ({
            let first = audio::receive_step(
                status,
                ReceiveView::Looking,
                ReceiveEvent::Looked(found),
            );
            let again = audio::receive_step(
                status,
                ReceiveView::LookingAgain,
                ReceiveEvent::Looked(found),
            );
            &&& found matches Some(track) ==> first == ReceiveView::Reading { track } && again
                == ReceiveView::Reading { track }
            &&& found is None ==> first == ReceiveView::AwaitingTrack && again == ReceiveView::Done(
                Err::<usize, _>(ClientErrorView::Audio("remote track not available"@)),
            )
            &&& audio::receive_step(status, ReceiveView::AwaitingTrack, ReceiveEvent::Notified)
                == ReceiveView::LookingAgain
        }),
{
}

/// A packet with a payload is decoded, one without is passed over, and a track
/// that cannot be read is looked after.
pub proof fn law_packet_is_read(
    status: ConnectionStatus,
    track: u64,
    len: usize,
    why: String,
)
    ensures
        ({
            let reading = ReceiveView::Reading { track };
            let read = audio::receive_step(status, reading, ReceiveEvent::Read(Ok(len)));
            &&& len > 0 ==> read == ReceiveView::Decoding { track }
            &&& len == 0 ==> read == reading
            &&& audio::receive_step(status, reading, ReceiveEvent::Read(Err(why)))
                == ReceiveView::LookingForReplacement { track, why: why@ }
        }),
{
}

/// A track that cannot be read any more is replaced by any other that is there.
/// Without another, one is waited for while a reconnect is under way, and also
/// while the call is on and the old track has been taken away; otherwise
/// receiving fails for the reason that reading did.
pub proof fn law_track_is_replaced(
    status: ConnectionStatus,
    track: u64,
    why: Seq<char>,
    found: Option<u64>,
)
    ensures
        ({
            let looking = ReceiveView::LookingForReplacement { track, why };
            let next = audio::receive_step(status, looking, ReceiveEvent::Looked(found));
            let another = found is Some && found->0 != track;
            let due = status is Reconnecting || (found is None && (status is Connecting || status
                is Connected));
            &&& another ==> next == ReceiveView::Reading { track: found->0 }
            &&& !another && due ==> next == ReceiveView::AwaitingReplacement { track, why }
            &&& !another && !due ==> next == ReceiveView::Done(
                Err::<usize, _>(ClientErrorView::Audio("track read: "@ + why)),
            )
            &&& audio::receive_step(
                status,
                ReceiveView::AwaitingReplacement { track, why },
                ReceiveEvent::Notified,
            ) == looking
        }),
{
}

/// A frame that was decoded ends receiving with its number of samples. A packet
/// that the decoder turned down is passed over; a decoder that could not be made,
/// a payload that is no packet and a buffer that cannot be filled end receiving,
/// with words on which it was and why.
pub proof fn law_packet_is_decoded(
    status: ConnectionStatus,
    track: u64,
    decoded: Result<usize, DecodeError>,
)
    ensures
        ({
            let next = audio::receive_step(
                status,
                ReceiveView::Decoding { track },
                ReceiveEvent::Decoded(decoded),
            );
            let failed = |why: Seq<char>|
                ReceiveView::Done(Err::<usize, _>(ClientErrorView::Audio(why)));
            &&& decoded matches Ok(n) ==> next == ReceiveView::Done(Ok::<usize, ClientErrorView>(n))
            &&& decoded matches Err(DecodeError::Decode(_)) ==> next == ReceiveView::Reading {
                track,
            }
            &&& decoded matches Err(DecodeError::Decoder(e)) ==> next == failed(
                "opus decoder: "@ + e@,
            )
            &&& decoded matches Err(DecodeError::Packet(e)) ==> next == failed(
                "opus packet: "@ + e@,
            )
            &&& decoded matches Err(DecodeError::Signal(e)) ==> next == failed(
                "opus signal: "@ + e@,
            )
        }),
{
}

/// Receiving goes on only by what it waits for: anything else changes nothing.
pub proof fn law_receiving_waits(status: ConnectionStatus, s: ReceiveView, event: ReceiveEvent)
    ensures
        ({
            let awaited = match s {
                ReceiveView::Looking => event is Looked,
                ReceiveView::LookingAgain => event is Looked,
                ReceiveView::LookingForReplacement { .. } => event is Looked,
                ReceiveView::AwaitingTrack => event is Notified,
                ReceiveView::AwaitingReplacement { .. } => event is Notified,
                ReceiveView::Reading { .. } => event is Read,
                ReceiveView::Decoding { .. } => event is Decoded,
                ReceiveView::Done(_) => false,
            };
            !awaited ==> audio::receive_step(status, s, event) == s
        }),
{
}

} // verus!
