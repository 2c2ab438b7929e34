//! What follows from the messages of a pipeline.
//!
//! A watch waits for messages of one pipeline. After some time without any, it
//! looks whether the pipeline is still there.
use crate::service::state;
use crate::service::state::{failure_detail, ConsumerKind, PipelineKind, Service};
use vstd::prelude::*;

verus! {

/// What a pipeline told.
#[derive(Debug, Clone, PartialEq, Eq)]
pub enum BusEvent {
    /// Nothing, for some time.
    Quiet,
    /// An element failed.
    Failed { source: String, reason: String },
    /// The stream ended.
    Ended,
}

/// What a watch does next.
#[derive(Debug, Clone, PartialEq, Eq)]
pub enum WatchStep {
    /// Wait for the next message.
    Listen,
    /// End the watch.
    Leave,
    /// Stop these pipelines and end the watch.
    Stop(Vec<PipelineKind>),
}

/// Why a pipeline is given up that ends though it never should.
pub const UNEXPECTED_END: &'static str = "unexpected EOS on long-lived consumer";

/// The reason that is reported for an event, if it is one to give up for.
pub open spec fn reason_of(event: BusEvent) -> Option<Seq<char>> {
    match event {
        BusEvent::Quiet => None,
        BusEvent::Failed { source, reason } => Some(state::failure_text(source@, reason@)),
        BusEvent::Ended => Some(UNEXPECTED_END@),
    }
}

/// Whether the pipeline of a kind is there.
pub open spec fn present(s: Service, kind: ConsumerKind) -> bool {
    match kind {
        ConsumerKind::FrameExport => s.slots.frame_export,
        ConsumerKind::Ai => s.slots.ai,
        _ => s.slots.recording is Some,
    }
}

/// The replay is over and the camera is the source again.
pub open spec fn replay_over(s: Service) -> Service {
    if s.replay.active {
        Service {
            status: state::RuntimeStatus {
                input_source: state::InputSource::Camera,
                ..s.status
            },
            replay: state::no_replay(),
            ..s
        }
    } else {
        s
    }
}

/// What the watch of a replay does next.
#[derive(Debug, Clone, Copy, PartialEq, Eq, Structural)]
pub enum ReplayWatch {
    Listen,
    Leave,
    /// Switch the producer back, if the replay was still on, and end the watch.
    Revert(bool),
}

impl Service {
    /// A pipeline that runs for as long as the service does told something. It
    /// is given up when it fails, and also when it ends.
    pub fn watch_consumer(&mut self, kind: ConsumerKind, event: BusEvent) -> (step: WatchStep)
        ensures
            old(self).wf() ==> final(self).wf(),
            match reason_of(event) {
                None => *final(self) == *old(self) && step == (if present(*old(self), kind) {
                    WatchStep::Listen
                } else {
                    WatchStep::Leave
                }),
                Some(reason) => {
                    &&& step matches WatchStep::Stop(list)
                    &&& list@ == state::lost_with(old(self).slots, kind)
                    &&& exists|detail: String| #[trigger]
                        state::after_failure(*old(self), kind, detail) == *final(self) && detail@
                            == reason
                },
            },
    {
        let detail: String = match event {
            BusEvent::Quiet => {
                if self.consumer_slot_present(kind) {
                    return WatchStep::Listen;
                } else {
                    return WatchStep::Leave;
                }
            },
            BusEvent::Failed { source, reason } => failure_detail(
                source.as_str(),
                reason.as_str(),
            ),
            BusEvent::Ended => UNEXPECTED_END.to_owned(),
        };
        let ghost told = detail;
        let list: Vec<PipelineKind> = self.tear_down_consumer(kind, detail);
        assert(state::after_failure(*old(self), kind, told) == *self);
        WatchStep::Stop(list)
    }

    /// The streaming pipeline told something. A failure ends the stream, and
    /// nothing starts it again; its regular end only ends the watch.
    pub fn watch_stream(&mut self, event: BusEvent) -> (step: WatchStep)
        ensures
            old(self).wf() ==> final(self).wf(),
            match event {
                BusEvent::Quiet => *final(self) == *old(self) && step == (
                if old(self).slots.streaming {
                    WatchStep::Listen
                } else {
                    WatchStep::Leave
                }),
                BusEvent::Ended => *final(self) == *old(self) && step is Leave,
                BusEvent::Failed { source, reason } => {
                    &&& step matches WatchStep::Stop(list)
                    &&& list@ == state::only(old(self).slots.streaming, PipelineKind::Streaming)
                    &&& final(self).status.streaming_error matches Some(e)
                    &&& e@ == source@ + ": "@ + reason@
                    &&& *final(self) == (Service {
                        status: state::RuntimeStatus {
                            streaming_enabled: false,
                            streaming_error: Some(e),
                            ..old(self).status
                        },
                        slots: state::Slots { streaming: false, ..old(self).slots },
                        ..*old(self)
                    })
                },
            },
    {
        match event {
            BusEvent::Quiet => {
                if self.slots.streaming {
                    WatchStep::Listen
                } else {
                    WatchStep::Leave
                }
            },
            BusEvent::Ended => WatchStep::Leave,
            BusEvent::Failed { source, reason } => {
                let stop: bool = self.streaming_failed(source.as_str(), reason.as_str());
                let mut list: Vec<PipelineKind> = Vec::new();
                if stop {
                    list.push(PipelineKind::Streaming);
                }
                assert(list@ =~= state::only(stop, PipelineKind::Streaming));
                WatchStep::Stop(list)
            },
        }
    }

    /// The playback pipeline told something. Whether it ends or fails, the
    /// camera becomes the source again. `playing` says whether playback still
    /// has the channels.
    pub fn watch_replay(&mut self, playing: bool, event: BusEvent) -> (step: ReplayWatch)
        ensures
            old(self).wf() ==> final(self).wf(),
            match event {
                BusEvent::Quiet => *final(self) == *old(self) && step == (if playing {
                    ReplayWatch::Listen
                } else {
                    ReplayWatch::Leave
                }),
                _ => *final(self) == replay_over(*old(self)) && step == ReplayWatch::Revert(
                    old(self).replay.active,
                ),
            },
    {
        match event {
            BusEvent::Quiet => {
                if playing {
                    ReplayWatch::Listen
                } else {
                    ReplayWatch::Leave
                }
            },
            _ => ReplayWatch::Revert(self.do_stop_replay()),
        }
    }
}

/// A failing pipeline leaves the producer, the stream and the others as they
/// are.
pub proof fn law_failures_stay_local(s: Service, kind: ConsumerKind, detail: String)
    ensures
        ({
            let f = state::after_failure(s, kind, detail);
            &&& f.slots.live == s.slots.live
            &&& f.slots.streaming == s.slots.streaming
            &&& f.status.state == s.status.state
            &&& !(kind is FrameExport) ==> f.slots.frame_export == s.slots.frame_export
            &&& !(kind is Ai) ==> f.slots.ai == s.slots.ai
            &&& kind is FrameExport || kind is Ai ==> f.slots.recording == s.slots.recording
                && f.status.recording_active == s.status.recording_active
        }),
{
}

/// A watch ends once its pipeline was given up.
pub proof fn law_watches_end(s: Service, kind: ConsumerKind, detail: String)
    ensures
        !present(state::after_failure(s, kind, detail), kind),
{
}

} // verus!
