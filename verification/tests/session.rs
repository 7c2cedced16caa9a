use ascii::format_pixels;
use ascii::session::{session_step, SessionAction, SessionEvent, SessionState};

/// A 2-frame, 1-channel 8x2 synthetic video with no audio stream: the
/// driver must select the video stream, skip the audio stage entirely, and
/// emit exactly 2 glyph grids of 2 rows x 8 columns, in input order.
#[test]
fn video_only_session_emits_grids_in_order() {
    let width: u16 = 8;
    let height: usize = 2;
    let frame_a: Vec<u8> = (0..(width as usize * height * 3) as u8).collect();
    let frame_b: Vec<u8> = frame_a.iter().map(|v| v.wrapping_add(100)).collect();

    let (state, action) = session_step(SessionState::Opening, SessionEvent::Opened);
    assert_eq!(state, SessionState::SelectingStreams);
    assert_eq!(action, SessionAction::SelectStreams);

    // the source has one video stream (index 0) and no audio stream
    let (state, action) = session_step(
        state,
        SessionEvent::StreamsSelected {
            video_stream: Some(0),
            audio_stream: None,
            audio_enabled: true,
        },
    );
    assert_eq!(
        state,
        SessionState::Streaming { video_stream: 0, audio_stream: None }
    );
    // no audio stream: the audio stage is never constructed
    assert_eq!(action, SessionAction::BuildStages { with_audio: false });

    let mut grids = Vec::new();
    for packet in [&frame_a, &frame_b] {
        let (next, action) = session_step(state, SessionEvent::Packet { stream: 0 });
        assert_eq!(next, state);
        assert_eq!(action, SessionAction::SendToVideo);
        grids.push(format_pixels(packet, width).unwrap());
    }

    assert_eq!(grids.len(), 2);
    for grid in &grids {
        assert_eq!(grid.len(), 2);
        for row in grid {
            assert_eq!(row.len(), 8);
        }
    }
    // in input order: first grid from the first frame
    assert_eq!(grids[0][0][0], (0, 1, 2));
    assert_eq!(grids[1][0][0], (100, 101, 102));

    let (state, action) = session_step(state, SessionEvent::EndOfInput);
    assert_eq!(state, SessionState::Flushing);
    assert_eq!(action, SessionAction::SendFlush);

    let (state, action) = session_step(state, SessionEvent::FlushDrained);
    assert_eq!(state, SessionState::Closed);
    assert_eq!(action, SessionAction::TearDown);
}

#[test]
fn packets_route_by_stream_index() {
    let state = SessionState::Streaming { video_stream: 1, audio_stream: Some(2) };
    let (next, action) = session_step(state, SessionEvent::Packet { stream: 1 });
    assert_eq!(next, state);
    assert_eq!(action, SessionAction::SendToVideo);
    let (_, action) = session_step(state, SessionEvent::Packet { stream: 2 });
    assert_eq!(action, SessionAction::SendToAudio);
    let (_, action) = session_step(state, SessionEvent::Packet { stream: 3 });
    assert_eq!(action, SessionAction::DropPacket);
}

#[test]
fn disabled_audio_skips_audio_stage() {
    let (state, action) = session_step(
        SessionState::SelectingStreams,
        SessionEvent::StreamsSelected {
            video_stream: Some(0),
            audio_stream: Some(1),
            audio_enabled: false,
        },
    );
    assert_eq!(
        state,
        SessionState::Streaming { video_stream: 0, audio_stream: None }
    );
    assert_eq!(action, SessionAction::BuildStages { with_audio: false });
}

#[test]
fn missing_video_stream_is_fatal() {
    let (state, action) = session_step(
        SessionState::SelectingStreams,
        SessionEvent::StreamsSelected {
            video_stream: None,
            audio_stream: Some(1),
            audio_enabled: true,
        },
    );
    assert_eq!(state, SessionState::Failed);
    assert_eq!(action, SessionAction::Abort);
}

#[test]
fn open_failure_is_fatal() {
    let (state, action) = session_step(SessionState::Opening, SessionEvent::OpenFailed);
    assert_eq!(state, SessionState::Failed);
    assert_eq!(action, SessionAction::Abort);
}

#[test]
fn stage_failure_is_fatal_in_any_state() {
    for state in [
        SessionState::Opening,
        SessionState::SelectingStreams,
        SessionState::Streaming { video_stream: 0, audio_stream: None },
        SessionState::Flushing,
        SessionState::Closed,
    ] {
        let (next, action) = session_step(state, SessionEvent::StageFailed);
        assert_eq!(next, SessionState::Failed);
        assert_eq!(action, SessionAction::Abort);
    }
}
