use media_core::pipeline::{PacketAction, Phase, PipelineDriver, PipelineError};

/// A stand-in decoder for driving the pipeline protocol: it buffers the
/// frames of every submitted packet internally and only releases them when
/// end-of-stream is signalled, the way a real codec may.
struct BufferingDecoder {
    buffered: Vec<i64>,
    flushed: bool,
}

impl BufferingDecoder {
    fn new() -> Self {
        BufferingDecoder { buffered: Vec::new(), flushed: false }
    }

    /// Accepts a packet that will decode into the given frames, in
    /// presentation-timestamp order, but emits nothing yet.
    fn send_packet(&mut self, frame_timestamps: &[i64]) {
        self.buffered.extend_from_slice(frame_timestamps);
    }

    fn send_eof(&mut self) {
        self.flushed = true;
    }

    /// Releases one buffered frame, but only after end-of-stream.
    fn receive_frame(&mut self) -> Option<i64> {
        if self.flushed && !self.buffered.is_empty() {
            Some(self.buffered.remove(0))
        } else {
            None
        }
    }
}

#[test]
fn open_without_a_video_stream_fails() {
    assert_eq!(
        PipelineDriver::open(None, true).err(),
        Some(PipelineError::StreamNotFound)
    );
}

#[test]
fn open_without_a_decoder_fails() {
    assert_eq!(
        PipelineDriver::open(Some(0), false).err(),
        Some(PipelineError::CodecInitError)
    );
}

#[test]
fn open_selects_the_video_stream() {
    let d = PipelineDriver::open(Some(2), true).unwrap();
    assert_eq!(d.video_stream_index, 2);
    assert_eq!(d.phase, Phase::Reading);
    assert_eq!(d.frames_emitted, 0);
}

#[test]
fn only_packets_of_the_selected_stream_are_submitted() {
    let d = PipelineDriver::open(Some(1), true).unwrap();
    assert_eq!(d.packet_action(1), PacketAction::Submit);
    assert_eq!(d.packet_action(0), PacketAction::Skip);
    assert_eq!(d.packet_action(2), PacketAction::Skip);
}

#[test]
fn no_packet_is_submitted_after_the_flush_begins() {
    let mut d = PipelineDriver::open(Some(1), true).unwrap();
    d.begin_flush();
    assert_eq!(d.packet_action(1), PacketAction::Skip);
}

#[test]
fn a_decode_error_is_fatal() {
    let mut d = PipelineDriver::open(Some(0), true).unwrap();
    let e = d.fail();
    assert_eq!(e, PipelineError::DecodeError);
    assert_eq!(d.phase, Phase::Failed);
}

#[test]
fn buffered_frames_only_surface_at_flush_time() {
    // One packet decodes into two frames that the decoder holds back; both
    // must still be emitted, in presentation-timestamp order, and the second
    // only surfaces once the flush releases it.
    let mut driver = PipelineDriver::open(Some(0), true).unwrap();
    let mut decoder = BufferingDecoder::new();
    let mut emitted: Vec<i64> = Vec::new();

    let packets: Vec<(u32, Vec<i64>)> = vec![(0, vec![100, 200])];
    for (stream_index, frames) in &packets {
        match driver.packet_action(*stream_index) {
            PacketAction::Submit => {
                decoder.send_packet(frames);
                while let Some(ts) = decoder.receive_frame() {
                    driver.record_frame(ts);
                    emitted.push(ts);
                }
            }
            PacketAction::Skip => {}
        }
    }
    assert!(emitted.is_empty());

    driver.begin_flush();
    decoder.send_eof();
    while let Some(ts) = decoder.receive_frame() {
        driver.record_frame(ts);
        emitted.push(ts);
    }
    driver.finish();

    assert_eq!(emitted, vec![100, 200]);
    assert_eq!(driver.frames_emitted, 2);
    assert_eq!(driver.phase, Phase::Finished);
}

#[test]
fn packets_of_other_streams_do_not_reach_the_decoder() {
    let mut driver = PipelineDriver::open(Some(1), true).unwrap();
    let mut decoder = BufferingDecoder::new();
    let mut emitted: Vec<i64> = Vec::new();

    let packets: Vec<(u32, Vec<i64>)> = vec![(0, vec![5]), (1, vec![10]), (3, vec![15])];
    for (stream_index, frames) in &packets {
        if driver.packet_action(*stream_index) == PacketAction::Submit {
            decoder.send_packet(frames);
        }
    }
    driver.begin_flush();
    decoder.send_eof();
    while let Some(ts) = decoder.receive_frame() {
        driver.record_frame(ts);
        emitted.push(ts);
    }
    driver.finish();

    assert_eq!(emitted, vec![10]);
    assert_eq!(driver.frames_emitted, 1);
}
