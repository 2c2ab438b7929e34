//! Bringing up the pipelines.
//!
//! The live producer comes first, so that the pipelines that read from it find
//! it running. The detection pipeline starts last: its elements do not bear
//! being started next to the others. All but the producer may fail; the service
//! then runs without them.
use crate::service::state::{MediaState, RecordingPipelines, RuntimeStatus, Service, Slots};
use vstd::prelude::*;

verus! {

/// How a start begins.
#[derive(Debug, Clone, Copy, PartialEq, Eq, Structural)]
pub enum StartRequest {
    AlreadyRunning,
    /// Read the settings again, then build.
    Reload,
    Build,
}

/// What to do next.
#[derive(Debug, Clone, Copy, PartialEq, Eq, Structural)]
pub enum StartupStep {
    BuildLive,
    /// Build the detection pipeline and take up its frames.
    BuildAi,
    /// Build the frame export pipeline and take up its frames.
    BuildFrameExport,
    /// Hand the live producer the channels.
    StartLive,
    StartFrameExport,
    BuildRecordingVideo,
    BuildRecordingAudio,
    StartRecordingVideo,
    StartRecordingAudio,
    /// Let go of the recording pipelines, which did not start.
    DiscardRecording,
    StartAi,
    /// Let go of the detection pipeline, which did not start.
    DiscardAi,
    /// The service runs, or does not.
    Finished(bool),
}

/// A start that is under way.
#[derive(Debug, Clone, Copy, PartialEq, Eq, Structural)]
pub struct Startup {
    pub step: StartupStep,
    /// A model is selected and the accelerator is there.
    pub wants_ai: bool,
    /// The live producer publishes sound.
    pub live_audio: bool,
    pub ai_built: bool,
    pub frame_export_built: bool,
    pub audio_built: bool,
    pub video_started: bool,
}

/// How far a start has come.
pub open spec fn rank(s: StartupStep) -> int {
    match s {
        StartupStep::BuildLive => 0,
        StartupStep::BuildAi => 1,
        StartupStep::BuildFrameExport => 2,
        StartupStep::StartLive => 3,
        StartupStep::StartFrameExport => 4,
        StartupStep::BuildRecordingVideo => 5,
        StartupStep::BuildRecordingAudio => 6,
        StartupStep::StartRecordingVideo => 7,
        StartupStep::StartRecordingAudio => 8,
        StartupStep::DiscardRecording => 9,
        StartupStep::StartAi => 10,
        StartupStep::DiscardAi => 11,
        StartupStep::Finished(_) => 12,
    }
}

/// The service after the start failed.
pub open spec fn failed(s: Service) -> Service {
    Service { status: RuntimeStatus { state: MediaState::Error, ..s.status }, ..s }
}

/// The service after the start succeeded.
pub open spec fn running(s: Service, live_audio: bool) -> Service {
    Service {
        status: RuntimeStatus { state: MediaState::Running, ..s.status },
        slots: Slots { live: Some(live_audio), ..s.slots },
        ..s
    }
}

pub open spec fn with_frame_export(s: Service) -> Service {
    Service {
        status: RuntimeStatus { frame_export_error: None, ..s.status },
        slots: Slots { frame_export: true, ..s.slots },
        ..s
    }
}

pub open spec fn with_recording(s: Service, audio: bool) -> Service {
    Service {
        status: RuntimeStatus { recording_error: None, ..s.status },
        slots: Slots { recording: Some(RecordingPipelines { audio, active: false }), ..s.slots },
        ..s
    }
}

pub open spec fn with_ai(s: Service) -> Service {
    Service {
        status: RuntimeStatus { ai_error: None, ..s.status },
        slots: Slots { ai: true, ..s.slots },
        ..s
    }
}

impl Startup {
    /// Go on to a step.
    pub open spec fn at(self, step: StartupStep) -> Startup {
        Startup { step, ..self }
    }

    /// The last part: the detection pipeline, if it was built.
    pub open spec fn to_ai(self, s: Service) -> (Startup, Service) {
        if self.ai_built {
            (self.at(StartupStep::StartAi), s)
        } else {
            (self.at(StartupStep::Finished(true)), running(s, self.live_audio))
        }
    }

    /// After both sides of the recording were started, or not.
    pub open spec fn after_recording(self, s: Service) -> (Startup, Service) {
        if self.video_started {
            self.to_ai(with_recording(s, self.audio_built))
        } else {
            (self.at(StartupStep::DiscardRecording), s)
        }
    }

    /// What follows when the current step went well, or did not.
    pub open spec fn after(self, ok: bool, s: Service) -> (Startup, Service) {
        match self.step {
            StartupStep::BuildLive => if !ok {
                (self.at(StartupStep::Finished(false)), failed(s))
            } else if self.wants_ai {
                (self.at(StartupStep::BuildAi), s)
            } else {
                (self.at(StartupStep::BuildFrameExport), s)
            },
            StartupStep::BuildAi => (
                (Startup { ai_built: ok, ..self }).at(StartupStep::BuildFrameExport),
                s,
            ),
            StartupStep::BuildFrameExport => (
                (Startup { frame_export_built: ok, ..self }).at(StartupStep::StartLive),
                s,
            ),
            StartupStep::StartLive => if !ok {
                (self.at(StartupStep::Finished(false)), failed(s))
            } else if self.frame_export_built {
                (self.at(StartupStep::StartFrameExport), s)
            } else {
                (self.at(StartupStep::BuildRecordingVideo), s)
            },
            StartupStep::StartFrameExport => (
                self.at(StartupStep::BuildRecordingVideo),
                if ok {
                    with_frame_export(s)
                } else {
                    s
                },
            ),
            StartupStep::BuildRecordingVideo => if !ok {
                self.to_ai(s)
            } else if self.live_audio {
                (self.at(StartupStep::BuildRecordingAudio), s)
            } else {
                (self.at(StartupStep::StartRecordingVideo), s)
            },
            StartupStep::BuildRecordingAudio => (
                (Startup { audio_built: ok, ..self }).at(StartupStep::StartRecordingVideo),
                s,
            ),
            StartupStep::StartRecordingVideo => {
                let next = Startup { video_started: ok, ..self };
                if self.audio_built {
                    (next.at(StartupStep::StartRecordingAudio), s)
                } else {
                    next.after_recording(s)
                }
            },
            StartupStep::StartRecordingAudio => self.after_recording(s),
            StartupStep::DiscardRecording => self.to_ai(s),
            StartupStep::StartAi => if ok {
                (self.at(StartupStep::Finished(true)), running(with_ai(s), self.live_audio))
            } else {
                (self.at(StartupStep::DiscardAi), s)
            },
            StartupStep::DiscardAi => (
                self.at(StartupStep::Finished(true)),
                running(s, self.live_audio),
            ),
            StartupStep::Finished(_) => (self, s),
        }
    }

    /// What a start may rely on at each step.
    pub open spec fn wf(self) -> bool {
        &&& (self.ai_built ==> self.wants_ai)
        &&& (self.audio_built ==> self.live_audio)
        &&& (self.step is BuildLive || self.step is BuildAi ==> !self.ai_built)
        &&& (self.step is BuildAi ==> self.wants_ai)
        &&& (self.step is BuildRecordingAudio ==> self.live_audio)
        &&& (rank(self.step) <= rank(StartupStep::BuildRecordingAudio) ==> !self.audio_built)
        &&& (self.step is StartAi ==> self.ai_built)
    }

    /// Begin to build. `model_selected` says whether a detection model is.
    pub fn begin(hailo_available: bool, model_selected: bool) -> (s: Startup)
        ensures
            s.wf(),
            s == (Startup {
                step: StartupStep::BuildLive,
                wants_ai: hailo_available && model_selected,
                live_audio: false,
                ai_built: false,
                frame_export_built: false,
                audio_built: false,
                video_started: false,
            }),
    {
        Startup {
            step: StartupStep::BuildLive,
            wants_ai: hailo_available && model_selected,
            live_audio: false,
            ai_built: false,
            frame_export_built: false,
            audio_built: false,
            video_started: false,
        }
    }

    /// Take note of whether the live producer that was built publishes sound.
    pub fn publishes_sound(&mut self, live_audio: bool)
        requires
            old(self).wf(),
            old(self).step is BuildLive,
        ensures
            final(self).wf(),
            *final(self) == (Startup { live_audio, ..*old(self) }),
    {
        self.live_audio = live_audio;
    }

    fn go_to_ai(&mut self, service: &mut Service)
        ensures
            (*final(self), *final(service)) == old(self).to_ai(*old(service)),
    {
        if self.ai_built {
            self.step = StartupStep::StartAi;
        } else {
            self.finish(service);
        }
    }

    fn finish(&mut self, service: &mut Service)
        ensures
            *final(self) == old(self).at(StartupStep::Finished(true)),
            *final(service) == running(*old(service), old(self).live_audio),
    {
        service.status.state = MediaState::Running;
        service.slots.live = Some(self.live_audio);
        self.step = StartupStep::Finished(true);
    }

    fn fail(&mut self, service: &mut Service)
        ensures
            *final(self) == old(self).at(StartupStep::Finished(false)),
            *final(service) == failed(*old(service)),
    {
        service.status.state = MediaState::Error;
        self.step = StartupStep::Finished(false);
    }

    fn go_past_recording(&mut self, service: &mut Service)
        ensures
            (*final(self), *final(service)) == old(self).after_recording(*old(service)),
    {
        if self.video_started {
            service.status.recording_error = None;
            service.slots.recording = Some(
                RecordingPipelines { audio: self.audio_built, active: false },
            );
            self.go_to_ai(service);
        } else {
            self.step = StartupStep::DiscardRecording;
        }
    }

    /// Report whether the current step went well. The next one is then in
    /// `step`.
    pub fn report(&mut self, ok: bool, service: &mut Service)
        requires
            old(self).wf(),
        ensures
            final(self).wf(),
            !old(service).status.recording_active ==> final(service).wf(),
            (*final(self), *final(service)) == old(self).after(ok, *old(service)),
    {
        match self.step {
            StartupStep::BuildLive => {
                if !ok {
                    self.fail(service);
                } else if self.wants_ai {
                    self.step = StartupStep::BuildAi;
                } else {
                    self.step = StartupStep::BuildFrameExport;
                }
            },
            StartupStep::BuildAi => {
                self.ai_built = ok;
                self.step = StartupStep::BuildFrameExport;
            },
            StartupStep::BuildFrameExport => {
                self.frame_export_built = ok;
                self.step = StartupStep::StartLive;
            },
            StartupStep::StartLive => {
                if !ok {
                    self.fail(service);
                } else if self.frame_export_built {
                    self.step = StartupStep::StartFrameExport;
                } else {
                    self.step = StartupStep::BuildRecordingVideo;
                }
            },
            StartupStep::StartFrameExport => {
                if ok {
                    service.status.frame_export_error = None;
                    service.slots.frame_export = true;
                }
                self.step = StartupStep::BuildRecordingVideo;
            },
            StartupStep::BuildRecordingVideo => {
                if !ok {
                    self.go_to_ai(service);
                } else if self.live_audio {
                    self.step = StartupStep::BuildRecordingAudio;
                } else {
                    self.step = StartupStep::StartRecordingVideo;
                }
            },
            StartupStep::BuildRecordingAudio => {
                self.audio_built = ok;
                self.step = StartupStep::StartRecordingVideo;
            },
            StartupStep::StartRecordingVideo => {
                self.video_started = ok;
                if self.audio_built {
                    self.step = StartupStep::StartRecordingAudio;
                } else {
                    self.go_past_recording(service);
                }
            },
            StartupStep::StartRecordingAudio => {
                self.go_past_recording(service);
            },
            StartupStep::DiscardRecording => {
                self.go_to_ai(service);
            },
            StartupStep::StartAi => {
                if ok {
                    service.status.ai_error = None;
                    service.slots.ai = true;
                    self.finish(service);
                } else {
                    self.step = StartupStep::DiscardAi;
                }
            },
            StartupStep::DiscardAi => {
                self.finish(service);
            },
            StartupStep::Finished(_) => {},
        }
    }
}

impl Service {
    /// Ask for the pipelines. Where a model was selected since the last start,
    /// the settings are read again first.
    pub fn ensure_live_producer(&mut self) -> (r: StartRequest)
        ensures
            old(self).wf() ==> final(self).wf(),
            if old(self).slots.live is Some {
                r is AlreadyRunning && *final(self) == *old(self)
            } else if old(self).ai_dirty {
                r is Reload && *final(self) == (Service { ai_dirty: false, ..*old(self) })
            } else {
                r is Build && *final(self) == *old(self)
            },
    {
        if self.slots.live.is_some() {
            return StartRequest::AlreadyRunning;
        }
        if self.ai_dirty {
            self.ai_dirty = false;
            return StartRequest::Reload;
        }
        StartRequest::Build
    }
}

// What holds of every start.

/// Each report brings a start closer to its end, whatever came of the step.
pub proof fn law_startup_ends(u: Startup, ok: bool, s: Service)
    requires
        u.wf(),
        !(u.step is Finished),
    ensures
        rank(u.after(ok, s).0.step) > rank(u.step),
        u.after(ok, s).0.wf(),
{
}

/// The service only runs once the live producer was started, and a producer
/// that cannot be built or started leaves the service in the error state.
pub proof fn law_running_needs_producer(u: Startup, ok: bool, s: Service)
    requires
        u.wf(),
        !(u.step is Finished),
    ensures
        u.after(ok, s).0.step == StartupStep::Finished(true) ==> {
            &&& rank(u.step) > rank(StartupStep::StartLive)
            &&& u.after(ok, s).1.status.state == MediaState::Running
            &&& u.after(ok, s).1.slots.live == Some(u.live_audio)
        },
        u.after(ok, s).0.step == StartupStep::Finished(false) ==> {
            &&& u.step is BuildLive || u.step is StartLive
            &&& !ok
            &&& u.after(ok, s).1.status.state == MediaState::Error
            &&& u.after(ok, s).1.slots == s.slots
        },
{
}

/// No pipeline that reads is started before the producer, and the detection
/// pipeline is started after all others.
pub proof fn law_start_order(u: Startup)
    ensures
        u.step is StartFrameExport || u.step is StartRecordingVideo || u.step is StartRecordingAudio
            || u.step is StartAi ==> rank(u.step) > rank(StartupStep::StartLive),
        u.step is StartFrameExport || u.step is StartRecordingVideo || u.step is StartRecordingAudio
            || u.step is StartLive ==> rank(u.step) < rank(StartupStep::StartAi),
{
}

} // verus!
