//! The decode-pipeline protocol: which packets feed the decoder, when the
//! decoder is flushed, and how failures abort the run.
//!
//! The demuxer, decoder and scaler are external collaborators; a decoder may
//! buffer internally and emit zero or more frames per submitted packet. This
//! module holds every decision of the pipeline as a state machine over plain
//! events: the surrounding loop reads packets and drains frames, reports each
//! event here, and performs the returned action. The contracts pin the
//! protocol down: only packets of the selected stream are submitted, frames
//! pass through one at a time in the order drained, end-of-stream is signalled
//! exactly once after the input is exhausted, and any decode error is fatal.

use vstd::prelude::*;

verus! {

/// A fatal pipeline failure; nothing is retried and no partial result is kept.
#[derive(Debug, Clone, Copy, PartialEq, Eq, Structural)]
pub enum PipelineError {
    /// The input has no video stream to decode.
    StreamNotFound,
    /// No decoder could be constructed for the stream's parameters.
    CodecInitError,
    /// The decoder failed mid-stream; the run is aborted.
    DecodeError,
}

/// Where the pipeline stands in its run.
#[derive(Debug, Clone, Copy, PartialEq, Eq, Structural)]
pub enum Phase {
    /// Packets are still being read and submitted.
    Reading,
    /// The input is exhausted and end-of-stream has been signalled; buffered
    /// frames are being drained.
    Flushing,
    /// The decoder reported no more output after the flush.
    Finished,
    /// A decode error aborted the run.
    Failed,
}

/// What to do with one demuxed packet.
#[derive(Debug, Clone, Copy, PartialEq, Eq, Structural)]
pub enum PacketAction {
    /// Send the packet to the decoder, then drain available frames.
    Submit,
    /// The packet belongs to another stream; do not decode it.
    Skip,
}

/// The pipeline's state: the selected video stream and the progress of the
/// run. Decoded frames are not buffered here — each one is handed on to the
/// caller as soon as it is drained and converted.
pub struct PipelineDriver {
    /// Index of the video stream whose packets are decoded.
    pub video_stream_index: u32,
    pub phase: Phase,
    /// How many converted frames have been handed to the caller.
    pub frames_emitted: u64,
    /// The timestamps of the emitted frames, in emission order.
    pub emitted: Ghost<Seq<i64>>,
}

impl PipelineDriver {
    /// The frame counter agrees with the emission record.
    pub open spec fn wf(&self) -> bool {
        self.frames_emitted == self.emitted@.len()
    }

    /// Opens a pipeline over a demuxed input: `best_video_stream` is the
    /// demuxer's choice of video stream, if any, and `codec_ready` reports
    /// whether a decoder could be constructed for that stream's parameters.
    /// Fails with `StreamNotFound` when there is no video stream, and with
    /// `CodecInitError` when the decoder cannot be built; both are fatal.
    pub fn open(best_video_stream: Option<u32>, codec_ready: bool) -> (r: Result<
        PipelineDriver,
        PipelineError,
    >)
        ensures
            best_video_stream is None ==> r == Err::<PipelineDriver, PipelineError>(
                PipelineError::StreamNotFound,
            ),
            best_video_stream is Some && !codec_ready ==> r == Err::<
                PipelineDriver,
                PipelineError,
            >(PipelineError::CodecInitError),
            best_video_stream is Some && codec_ready ==> (r matches Ok(d) && d.wf()
                && d.video_stream_index == best_video_stream->0 && d.phase is Reading
                && d.frames_emitted == 0 && d.emitted@ == Seq::<i64>::empty()),
    {
        match best_video_stream {
            None => Err(PipelineError::StreamNotFound),
            Some(index) => {
                if codec_ready {
                    Ok(
                        PipelineDriver {
                            video_stream_index: index,
                            phase: Phase::Reading,
                            frames_emitted: 0,
                            emitted: Ghost(Seq::empty()),
                        },
                    )
                } else {
                    Err(PipelineError::CodecInitError)
                }
            },
        }
    }

    /// Decides one demuxed packet: submitted exactly when packets are still
    /// being read and the packet belongs to the selected video stream.
    pub fn packet_action(&self, stream_index: u32) -> (a: PacketAction)
        ensures
            a is Submit <==> (self.phase is Reading && stream_index == self.video_stream_index),
    {
        if matches!(self.phase, Phase::Reading) && stream_index == self.video_stream_index {
            PacketAction::Submit
        } else {
            PacketAction::Skip
        }
    }

    /// Records one drained, converted frame at the moment it is handed to the
    /// caller. Frames pass through one at a time, in the order the decoder
    /// emits them, while the run is reading or flushing.
    pub fn record_frame(&mut self, timestamp: i64)
        requires
            old(self).wf(),
            old(self).phase is Reading || old(self).phase is Flushing,
            old(self).frames_emitted < u64::MAX,
        ensures
            final(self).wf(),
            final(self).frames_emitted == old(self).frames_emitted + 1,
            final(self).emitted@ == old(self).emitted@.push(timestamp),
            final(self).phase == old(self).phase,
            final(self).video_stream_index == old(self).video_stream_index,
    {
        self.frames_emitted = self.frames_emitted + 1;
        proof {
            self.emitted@ = self.emitted@.push(timestamp);
        }
    }

    /// Marks the input exhausted: end-of-stream is to be signalled to the
    /// decoder now, and only now — the `Reading` precondition makes a second
    /// signal impossible, and no packet may be submitted afterwards.
    pub fn begin_flush(&mut self)
        requires
            old(self).phase is Reading,
        ensures
            final(self).phase is Flushing,
            final(self).video_stream_index == old(self).video_stream_index,
            final(self).frames_emitted == old(self).frames_emitted,
            final(self).emitted == old(self).emitted,
    {
        self.phase = Phase::Flushing;
    }

    /// Marks the run complete, once the flushed decoder reports no more
    /// output.
    pub fn finish(&mut self)
        requires
            old(self).phase is Flushing,
        ensures
            final(self).phase is Finished,
            final(self).video_stream_index == old(self).video_stream_index,
            final(self).frames_emitted == old(self).frames_emitted,
            final(self).emitted == old(self).emitted,
    {
        self.phase = Phase::Finished;
    }

    /// Aborts the run on a mid-stream decode failure: the error is fatal and
    /// propagates to the caller, with no retry and no partial recovery.
    pub fn fail(&mut self) -> (e: PipelineError)
        ensures
            e == PipelineError::DecodeError,
            final(self).phase is Failed,
            final(self).video_stream_index == old(self).video_stream_index,
            final(self).frames_emitted == old(self).frames_emitted,
            final(self).emitted == old(self).emitted,
    {
        self.phase = Phase::Failed;
        PipelineError::DecodeError
    }
}

} // verus!
