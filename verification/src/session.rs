//! Session driver: the state machine that takes a playback or export
//! session from opening the source, through stream selection and packet
//! streaming, to the final flush and teardown.  The driver's loop performs
//! the outside work (reading packets, driving the decoders); every decision
//! it takes is this pure step function, so the order of actions is pinned
//! for every run.

use vstd::prelude::*;

verus! {

/// Where one packet is dispatched during streaming.
#[derive(Debug, Clone, Copy, PartialEq, Eq, Structural)]
pub enum Route {
    /// The packet belongs to the selected video stream.
    Video,
    /// The packet belongs to the selected audio stream.
    Audio,
    /// The packet belongs to neither selected stream and is dropped.
    Discard,
}

/// The dispatch rule for one packet: the video stream is checked first,
/// then the optional audio stream, and anything else is discarded.
pub open spec fn route_of(
    video_stream: usize,
    audio_stream: Option<usize>,
    packet_stream: usize,
) -> Route {
    if packet_stream == video_stream {
        Route::Video
    } else if audio_stream == Some(packet_stream) {
        Route::Audio
    } else {
        Route::Discard
    }
}

/// Dispatch one packet by its stream index.
pub fn route_packet(video_stream: usize, audio_stream: Option<usize>, packet_stream: usize) -> (r:
    Route)
    ensures
        r == route_of(video_stream, audio_stream, packet_stream),
{
    if packet_stream == video_stream {
        Route::Video
    } else {
        match audio_stream {
            Some(a) if packet_stream == a => Route::Audio,
            _ => Route::Discard,
        }
    }
}

/// The session driver's states.
#[derive(Debug, Clone, Copy, PartialEq, Eq)]
pub enum SessionState {
    /// Opening and parsing the source.
    Opening,
    /// Querying the source for its best video and audio streams.
    SelectingStreams,
    /// Pulling packets in source order and dispatching them to the stages.
    Streaming { video_stream: usize, audio_stream: Option<usize> },
    /// The source is exhausted; the video decoder was sent the flush
    /// signal and is being drained.
    Flushing,
    /// Every decode, scale and resample context has been released.
    Closed,
    /// A fatal error ended the session.
    Failed,
}

/// What the driver's loop observes.
#[derive(Debug, Clone, Copy, PartialEq, Eq)]
pub enum SessionEvent {
    /// The source was opened and parsed.
    Opened,
    /// The source could not be opened or parsed.
    OpenFailed,
    /// Stream selection finished with the given stream indexes;
    /// `audio_enabled` is false when this run asked for no audio.
    StreamsSelected {
        video_stream: Option<usize>,
        audio_stream: Option<usize>,
        audio_enabled: bool,
    },
    /// A packet of the given stream arrived.
    Packet { stream: usize },
    /// The packet source is exhausted.
    EndOfInput,
    /// The flushed video decoder has been drained of its last frames.
    FlushDrained,
    /// A stage failed fatally.
    StageFailed,
}

/// What the driver's loop is told to do next.
#[derive(Debug, Clone, Copy, PartialEq, Eq)]
pub enum SessionAction {
    /// Query the source for its best video and audio streams.
    SelectStreams,
    /// Construct the video stage, and the audio stage iff `with_audio`.
    BuildStages { with_audio: bool },
    /// Send the packet to the video decoder and drain every frame it
    /// yields, in order.
    SendToVideo,
    /// Send the packet to the audio decoder, resample and queue the
    /// yielded frames.
    SendToAudio,
    /// Drop the packet.
    DropPacket,
    /// Send the flush signal to the video decoder and drain it like a
    /// normal packet.
    SendFlush,
    /// Release all contexts and remove temporary state.
    TearDown,
    /// Abort the session with its error.
    Abort,
}

/// The full transition table of the session driver.  A video stream is
/// required, so selection without one fails the session; audio is optional
/// and is also skipped entirely when the run disabled it.  An event that a
/// state cannot accept is a protocol violation and fails the session.
pub open spec fn session_step_of(state: SessionState, event: SessionEvent) -> (
    SessionState,
    SessionAction,
) {
    match (state, event) {
        (SessionState::Opening, SessionEvent::Opened) => (
            SessionState::SelectingStreams,
            SessionAction::SelectStreams,
        ),
        (SessionState::Opening, SessionEvent::OpenFailed) => (
            SessionState::Failed,
            SessionAction::Abort,
        ),
        (
            SessionState::SelectingStreams,
            SessionEvent::StreamsSelected { video_stream, audio_stream, audio_enabled },
        ) => {
            match video_stream {
                Option::None => (SessionState::Failed, SessionAction::Abort),
                Option::Some(v) => {
                    let audio = if audio_enabled {
                        audio_stream
                    } else {
                        Option::None
                    };
                    (
                        SessionState::Streaming { video_stream: v, audio_stream: audio },
                        SessionAction::BuildStages { with_audio: audio is Some },
                    )
                },
            }
        },
        (SessionState::Streaming { video_stream, audio_stream }, SessionEvent::Packet { stream }) => {
            let action = match route_of(video_stream, audio_stream, stream) {
                Route::Video => SessionAction::SendToVideo,
                Route::Audio => SessionAction::SendToAudio,
                Route::Discard => SessionAction::DropPacket,
            };
            (SessionState::Streaming { video_stream, audio_stream }, action)
        },
        (SessionState::Streaming { .. }, SessionEvent::EndOfInput) => (
            SessionState::Flushing,
            SessionAction::SendFlush,
        ),
        (SessionState::Flushing, SessionEvent::FlushDrained) => (
            SessionState::Closed,
            SessionAction::TearDown,
        ),
        (_, SessionEvent::StageFailed) => (SessionState::Failed, SessionAction::Abort),
        (_, _) => (SessionState::Failed, SessionAction::Abort),
    }
}

/// Take one step of the session: the next state and the action the loop
/// must perform, exactly as the transition table gives them.
pub fn session_step(state: SessionState, event: SessionEvent) -> (r: (
    SessionState,
    SessionAction,
))
    ensures
        r == session_step_of(state, event),
{
    match (state, event) {
        (SessionState::Opening, SessionEvent::Opened) => (
            SessionState::SelectingStreams,
            SessionAction::SelectStreams,
        ),
        (
            SessionState::SelectingStreams,
            SessionEvent::StreamsSelected { video_stream, audio_stream, audio_enabled },
        ) => {
            match video_stream {
                None => (SessionState::Failed, SessionAction::Abort),
                Some(v) => {
                    let audio = if audio_enabled {
                        audio_stream
                    } else {
                        None
                    };
                    let with_audio = audio.is_some();
                    (
                        SessionState::Streaming { video_stream: v, audio_stream: audio },
                        SessionAction::BuildStages { with_audio },
                    )
                },
            }
        },
        (SessionState::Streaming { video_stream, audio_stream }, SessionEvent::Packet { stream }) => {
            let action = match route_packet(video_stream, audio_stream, stream) {
                Route::Video => SessionAction::SendToVideo,
                Route::Audio => SessionAction::SendToAudio,
                Route::Discard => SessionAction::DropPacket,
            };
            (SessionState::Streaming { video_stream, audio_stream }, action)
        },
        (SessionState::Streaming { .. }, SessionEvent::EndOfInput) => (
            SessionState::Flushing,
            SessionAction::SendFlush,
        ),
        (SessionState::Flushing, SessionEvent::FlushDrained) => (
            SessionState::Closed,
            SessionAction::TearDown,
        ),
        (_, _) => (SessionState::Failed, SessionAction::Abort),
    }
}

} // verus!
