//! The state of the service, and how requests and failures change it.
use crate::devices::{AudioDevice, CameraDevice};
use crate::floats::Binary64;
use crate::pipeline::{AiConfig, ResolvedModel};
use crate::producer;
use crate::producer::{pace_of, Pace};
use crate::scan;
use crate::service::config::MediaConfig;
use crate::session;
use crate::session::{is_valid_session_name, sanitize_session_name};
use crate::text;
use vstd::prelude::*;
use vstd::string::StringExecFns;

verus! {

// What the service says of itself.

#[derive(Debug, Clone, Copy, PartialEq, Eq, Structural)]
pub enum MediaState {
    Idle,
    Starting,
    Running,
    Stopping,
    Error,
}

#[derive(Debug, Clone, Copy, PartialEq, Eq, Structural)]
pub enum InputSource {
    Camera,
    ReplayFile,
    SingleImage,
}

/// The status that the service reports.
#[derive(Debug, Clone, PartialEq, Eq)]
pub struct RuntimeStatus {
    pub state: MediaState,
    pub input_source: InputSource,
    pub audio_available: bool,
    pub hailo_available: bool,
    pub recording_active: bool,
    /// When the recording that is under way started.
    pub recording_started_at: Option<String>,
    pub streaming_enabled: bool,
    pub camera_device: Option<String>,
    pub camera_name: Option<String>,
    pub audio_device: Option<String>,
    pub audio_name: Option<String>,
    /// Why a pipeline failed, until it next starts well.
    pub streaming_error: Option<String>,
    pub recording_error: Option<String>,
    pub frame_export_error: Option<String>,
    pub ai_error: Option<String>,
}

/// Nothing runs, nothing has failed.
pub open spec fn is_fresh(s: RuntimeStatus) -> bool {
    &&& s.state == MediaState::Idle
    &&& s.input_source == InputSource::Camera
    &&& !s.recording_active
    &&& s.recording_started_at is None
    &&& !s.streaming_enabled
    &&& s.streaming_error is None
    &&& s.recording_error is None
    &&& s.frame_export_error is None
    &&& s.ai_error is None
}

impl Default for RuntimeStatus {
    fn default() -> (s: RuntimeStatus)
        ensures
            is_fresh(s),
            !s.audio_available,
            !s.hailo_available,
            s.camera_device is None,
            s.camera_name is None,
            s.audio_device is None,
            s.audio_name is None,
    {
        RuntimeStatus {
            state: MediaState::Idle,
            input_source: InputSource::Camera,
            audio_available: false,
            hailo_available: false,
            recording_active: false,
            recording_started_at: None,
            streaming_enabled: false,
            camera_device: None,
            camera_name: None,
            audio_device: None,
            audio_name: None,
            streaming_error: None,
            recording_error: None,
            frame_export_error: None,
            ai_error: None,
        }
    }
}

impl RuntimeStatus {
    /// The status at start, with the devices that were found.
    pub fn with_detected_devices(
        camera: Option<CameraDevice>,
        audio: Option<AudioDevice>,
        hailo: bool,
    ) -> (s: RuntimeStatus)
        ensures
            is_fresh(s),
            s.audio_available == (audio is Some),
            s.hailo_available == hailo,
            session::text_of(s.camera_device) == (match camera {
                Some(c) => Some(c.path@),
                None => None,
            }),
            session::text_of(s.camera_name) == (match camera {
                Some(c) => Some(c.name@),
                None => None,
            }),
            session::text_of(s.audio_device) == (match audio {
                Some(a) => Some("plughw:"@ + a.card_id@),
                None => None,
            }),
            session::text_of(s.audio_name) == (match audio {
                Some(a) => Some(a.name@),
                None => None,
            }),
    {
        let mut s: RuntimeStatus = RuntimeStatus::default();
        s.hailo_available = hailo;
        match camera {
            Some(c) => {
                s.camera_device = Some(c.path);
                s.camera_name = Some(c.name);
            },
            None => {},
        }
        match audio {
            Some(a) => {
                let mut device: String = "plughw:".to_owned();
                device.append(a.card_id.as_str());
                s.audio_available = true;
                s.audio_device = Some(device);
                s.audio_name = Some(a.name);
            },
            None => {},
        }
        s
    }
}

/// A request to switch features.
#[derive(Debug, Clone, Copy, PartialEq, Eq)]
pub struct FeatureToggleRequest {
    pub streaming_enabled: Option<bool>,
}

/// The pipelines of a recording.
#[derive(Debug, Clone, Copy, PartialEq, Eq, Structural)]
pub struct RecordingPipelines {
    /// Whether there is one for the sound.
    pub audio: bool,
    /// Whether a recording is under way.
    pub active: bool,
}

/// Which pipelines there are.
#[derive(Debug, Clone, Copy, PartialEq, Eq, Structural)]
pub struct Slots {
    /// The live producer, and whether it publishes sound.
    pub live: Option<bool>,
    pub frame_export: bool,
    pub streaming: bool,
    pub recording: Option<RecordingPipelines>,
    pub ai: bool,
}

/// No pipelines.
pub open spec fn no_slots() -> Slots {
    Slots { live: None, frame_export: false, streaming: false, recording: None, ai: false }
}

/// A file that is being played.
#[derive(Debug, Clone, PartialEq, Eq)]
pub struct ReplayState {
    pub active: bool,
    pub path: Option<String>,
    /// When it started, by a clock that never goes back, in nanoseconds.
    pub started_ns: Option<u64>,
    /// How long it is, zero if unknown.
    pub duration_ns: u64,
}

/// No file is being played.
pub open spec fn no_replay() -> ReplayState {
    ReplayState { active: false, path: None, started_ns: None, duration_ns: 0 }
}

impl Default for ReplayState {
    fn default() -> (r: ReplayState)
        ensures
            r == no_replay(),
    {
        ReplayState { active: false, path: None, started_ns: None, duration_ns: 0 }
    }
}

/// The state of the service.
#[derive(Debug, Clone, PartialEq, Eq)]
pub struct Service {
    pub status: RuntimeStatus,
    pub slots: Slots,
    /// A model was selected that the running pipelines do not use yet.
    pub ai_dirty: bool,
    pub replay: ReplayState,
}

/// A pipeline that can be stopped.
#[derive(Debug, Clone, Copy, PartialEq, Eq, Structural)]
pub enum PipelineKind {
    Streaming,
    RecordingVideo,
    RecordingAudio,
    Ai,
    FrameExport,
    Live,
}

/// A pipeline, if it is there.
pub open spec fn only(there: bool, kind: PipelineKind) -> Seq<PipelineKind> {
    if there {
        seq![kind]
    } else {
        Seq::empty()
    }
}

/// The pipelines of a recording, if they are there.
pub open spec fn recording_part(s: Slots) -> Seq<PipelineKind> {
    match s.recording {
        Some(r) => seq![PipelineKind::RecordingVideo] + only(r.audio, PipelineKind::RecordingAudio),
        None => Seq::empty(),
    }
}

/// The pipelines that exist, in the order in which they are stopped: those that
/// read before the one that feeds them.
pub open spec fn stop_order(s: Slots) -> Seq<PipelineKind> {
    only(s.streaming, PipelineKind::Streaming) + recording_part(s) + only(s.ai, PipelineKind::Ai)
        + only(s.frame_export, PipelineKind::FrameExport) + only(
        s.live is Some,
        PipelineKind::Live,
    )
}

fn push_if(list: &mut Vec<PipelineKind>, there: bool, kind: PipelineKind)
    ensures
        final(list)@ == old(list)@ + only(there, kind),
{
    if there {
        list.push(kind);
    }
    assert(list@ =~= old(list)@ + only(there, kind));
}

fn push_recording(list: &mut Vec<PipelineKind>, s: &Slots)
    ensures
        final(list)@ == old(list)@ + recording_part(*s),
{
    match s.recording {
        Some(r) => {
            push_if(list, true, PipelineKind::RecordingVideo);
            push_if(list, r.audio, PipelineKind::RecordingAudio);
        },
        None => {},
    }
    assert(list@ =~= old(list)@ + recording_part(*s));
}

fn stop_list(s: &Slots) -> (list: Vec<PipelineKind>)
    ensures
        list@ == stop_order(*s),
{
    let mut list: Vec<PipelineKind> = Vec::new();
    push_if(&mut list, s.streaming, PipelineKind::Streaming);
    assert(list@ =~= only(s.streaming, PipelineKind::Streaming));
    push_recording(&mut list, s);
    push_if(&mut list, s.ai, PipelineKind::Ai);
    push_if(&mut list, s.frame_export, PipelineKind::FrameExport);
    push_if(&mut list, s.live.is_some(), PipelineKind::Live);
    list
}

/// The service after all pipelines were stopped.
pub open spec fn torn_down(s: Service) -> Service {
    Service {
        status: RuntimeStatus {
            streaming_enabled: s.status.streaming_enabled && !s.slots.streaming,
            recording_active: s.status.recording_active && s.slots.recording is None,
            ..s.status
        },
        slots: no_slots(),
        ..s
    }
}

/// The service in the idle state.
pub open spec fn idled(s: Service) -> Service {
    Service { status: RuntimeStatus { state: MediaState::Idle, ..s.status }, ..s }
}

/// The service after a model was selected, and the pipelines that are stopped
/// for it, if they are: none while a recording is under way, and none where
/// nothing runs.
pub open spec fn invalidated(s: Service) -> (Service, Option<Seq<PipelineKind>>) {
    let noted = Service { ai_dirty: true, ..s };
    if s.slots.live is None || s.status.recording_active {
        (noted, None)
    } else {
        (idled(torn_down(noted)), Some(stop_order(s.slots)))
    }
}

/// The service after a recording was stopped.
pub open spec fn stopped_recording(s: Service) -> Service {
    Service {
        status: RuntimeStatus {
            state: if s.slots.live is None {
                MediaState::Idle
            } else {
                s.status.state
            },
            recording_active: false,
            recording_started_at: None,
            ..s.status
        },
        slots: Slots {
            recording: match s.slots.recording {
                Some(p) => Some(RecordingPipelines { active: false, ..p }),
                None => None,
            },
            ..s.slots
        },
        ..s
    }
}

/// An answer to a request that was refused.
#[derive(Debug, Clone, PartialEq, Eq)]
pub struct Refusal {
    /// The HTTP status code.
    pub code: u16,
    pub error: String,
    pub detail: Option<String>,
    /// The file that was asked for and is not there.
    pub path: Option<String>,
    /// The number that was given and will not do.
    pub got: Option<Binary64>,
}

pub open spec fn is_refusal(r: Refusal, code: u16, error: Seq<char>, detail: Option<Seq<char>>) -> bool {
    &&& r.code == code
    &&& r.error@ == error
    &&& session::text_of(r.detail) == detail
    &&& r.path is None
    &&& r.got is None
}

fn refuse(code: u16, error: &str, detail: Option<String>) -> (r: Refusal)
    ensures
        is_refusal(r, code, error@, session::text_of(detail)),
{
    Refusal { code, error: error.to_owned(), detail, path: None, got: None }
}

/// What to do when a model was selected.
#[derive(Debug, Clone, PartialEq, Eq)]
pub enum Invalidation {
    /// Nothing runs; the next start uses the model.
    NextStart,
    /// A recording is under way; its end brings the model in.
    Deferred,
    /// Stop these pipelines in this order, then start again.
    Rebuild(Vec<PipelineKind>),
}

/// What to do when a recording was asked for.
#[derive(Debug, Clone, PartialEq, Eq)]
pub enum RecordingRequest {
    /// One is under way already.
    AlreadyActive,
    Refused(Refusal),
    /// Bring up the live producer, then record under this name.
    Prepare(Option<String>),
}

/// What the name in a request leads to.
pub open spec fn is_name_choice(r: RecordingRequest, name: Option<Seq<char>>) -> bool {
    match name {
        Some(n) => if n.len() == 0 {
            r matches RecordingRequest::Prepare(None)
        } else if session::valid_name(n) {
            r matches RecordingRequest::Prepare(Some(c)) && c@ == session::underscored(n)
        } else {
            r matches RecordingRequest::Refused(f) && is_refusal(
                f,
                400,
                "invalid session name"@,
                Some("only [a-zA-Z0-9 _-] allowed, got: "@ + n),
            )
        },
        None => r matches RecordingRequest::Prepare(None),
    }
}

/// What to do once the live producer was asked for.
#[derive(Debug, Clone, PartialEq, Eq)]
pub enum RecordingGate {
    AlreadyActive,
    Refused(Refusal),
    /// Make a session, with sound or without.
    Record(bool),
}

/// What to do when a recording is to end.
#[derive(Debug, Clone, Copy, PartialEq, Eq, Structural)]
pub struct RecordingStop {
    /// Close the valves and flush the files.
    pub close: bool,
    /// Stop all pipelines and start again, with the model that was selected
    /// meanwhile.
    pub rebuild: bool,
}

/// What to do when streaming was asked for.
#[derive(Debug, Clone, PartialEq, Eq)]
pub enum StreamingGate {
    AlreadyActive,
    Refused(Refusal),
    /// Build the streaming pipeline with this bitrate, with sound or without.
    Stream(u32, bool),
}

/// The lowest bitrate that a request can ask for.
pub const STREAMING_BITRATE_FLOOR_KBPS: u32 = 500;

/// Pipelines that run for as long as the service does.
#[derive(Debug, Clone, Copy, PartialEq, Eq, Structural)]
pub enum ConsumerKind {
    FrameExport,
    Ai,
    RecordingVideo,
    RecordingAudio,
}

impl ConsumerKind {
    pub open spec fn name(self) -> Seq<char> {
        match self {
            ConsumerKind::FrameExport => "frame_export"@,
            ConsumerKind::Ai => "ai"@,
            ConsumerKind::RecordingVideo => "recording_video"@,
            ConsumerKind::RecordingAudio => "recording_audio"@,
        }
    }

    pub fn label(self) -> (s: &'static str)
        ensures
            s@ == self.name(),
    {
        match self {
            ConsumerKind::FrameExport => "frame_export",
            ConsumerKind::Ai => "ai",
            ConsumerKind::RecordingVideo => "recording_video",
            ConsumerKind::RecordingAudio => "recording_audio",
        }
    }
}

/// The pipelines that a failing one takes with it, itself included.
pub open spec fn lost_with(s: Slots, kind: ConsumerKind) -> Seq<PipelineKind> {
    match kind {
        ConsumerKind::FrameExport => only(s.frame_export, PipelineKind::FrameExport),
        ConsumerKind::Ai => only(s.ai, PipelineKind::Ai),
        _ => recording_part(s),
    }
}

/// The service after a pipeline failed.
pub open spec fn after_failure(s: Service, kind: ConsumerKind, detail: String) -> Service {
    match kind {
        ConsumerKind::FrameExport => Service {
            status: RuntimeStatus { frame_export_error: Some(detail), ..s.status },
            slots: Slots { frame_export: false, ..s.slots },
            ..s
        },
        ConsumerKind::Ai => Service {
            status: RuntimeStatus { ai_error: Some(detail), ..s.status },
            slots: Slots { ai: false, ..s.slots },
            ..s
        },
        _ => Service {
            status: RuntimeStatus {
                recording_active: false,
                recording_started_at: None,
                recording_error: Some(detail),
                ..s.status
            },
            slots: Slots { recording: None, ..s.slots },
            ..s
        },
    }
}

/// What an element's failure is reported as.
pub open spec fn failure_text(source: Seq<char>, reason: Seq<char>) -> Seq<char> {
    if source.len() == 0 {
        reason
    } else {
        source + ": "@ + reason
    }
}

/// Put a failure into words.
pub fn failure_detail(source: &str, reason: &str) -> (s: String)
    ensures
        s@ == failure_text(source@, reason@),
{
    if source.unicode_len() == 0 {
        return reason.to_owned();
    }
    let mut s: String = source.to_owned();
    s.append(": ");
    s.append(reason);
    s
}

/// A stream or recording that carried nothing.
pub open spec fn stalled_text(head: Seq<char>, grace_s: u64, tail: Seq<char>) -> Seq<char> {
    head + text::decimal(grace_s as nat) + tail
}

fn stalled(head: &str, grace_s: u64, tail: &str) -> (s: String)
    ensures
        s@ == stalled_text(head@, grace_s, tail@),
{
    let mut s: String = head.to_owned();
    text::push_decimal(&mut s, grace_s);
    s.append(tail);
    s
}

pub const STREAM_STALLED_HEAD: &'static str = "stream_flvmux emitted 0 buffers in ";

pub const STREAM_STALLED_TAIL: &'static str = "s - probable GStreamer state issue (rtmpsink connected but muxer not producing, or producer-side intervideosink not publishing)";

pub const RECORDING_STALLED_HEAD: &'static str = "rec_encoder received 0 buffers in ";

pub const RECORDING_STALLED_TAIL: &'static str = "s - probable GStreamer state issue (valve opened but inter-pipeline source not delivering to rec consumer)";

/// What a replay reports.
#[derive(Debug, Clone, PartialEq, Eq)]
pub struct ReplayReport {
    pub active: bool,
    pub path: Option<String>,
    pub position_ns: u64,
    pub duration_ns: u64,
}

/// How far a replay has come: the time since its start, at most its length.
pub open spec fn replay_position(r: ReplayState, now_ns: u64) -> u64 {
    if !r.active {
        0
    } else {
        match r.started_ns {
            Some(t) => {
                let elapsed = if now_ns >= t {
                    (now_ns - t) as u64
                } else {
                    0
                };
                if elapsed < r.duration_ns {
                    elapsed
                } else {
                    r.duration_ns
                }
            },
            None => 0,
        }
    }
}

/// Why a file cannot be played; nothing if it can. Tried in this order: no
/// recording may be under way, the file has to be an MP4 file that exists, and
/// the speed has to be zero or positive. The answer names the file that is not
/// there, and the speed that will not do.
pub open spec fn is_replay_answer(
    r: Option<Refusal>,
    recording_active: bool,
    path: Seq<char>,
    exists_on_disk: bool,
    speed: Binary64,
) -> bool {
    if recording_active {
        r matches Some(f) && is_refusal(f, 409, "recording active"@, None)
    } else if !scan::ends_with(path, ".mp4"@) {
        r matches Some(f) && is_refusal(f, 400, "path must end with .mp4"@, None)
    } else if !exists_on_disk {
        r matches Some(f) && is_refusal(
            Refusal { path: None, ..f },
            400,
            "file not found"@,
            None,
        ) && session::text_of(f.path) == Some(path)
    } else if producer::pace_spec(speed) is None {
        r matches Some(f) && is_refusal(
            Refusal { got: None, ..f },
            400,
            "speed must be 0 (max) or a positive finite number"@,
            None,
        ) && f.got == Some(speed)
    } else {
        r is None
    }
}

/// What is shown of a model. The files that it runs from are not.
#[derive(Debug, Clone, PartialEq, Eq)]
pub struct ModelSummary {
    pub display_name: String,
    pub input_width: u32,
    pub input_height: u32,
    pub input_format: String,
    pub output_format: String,
    pub labels: Option<String>,
    pub notes: Option<String>,
}

pub open spec fn is_summary(s: ModelSummary, m: ResolvedModel) -> bool {
    &&& s.display_name@ == m.display_name@
    &&& s.input_width == m.input_width
    &&& s.input_height == m.input_height
    &&& s.input_format@ == m.input_format@
    &&& s.output_format@ == m.output_format@
    &&& session::text_of(s.labels) == session::text_of(m.labels_display)
    &&& session::text_of(s.notes) == session::text_of(m.notes)
}

fn copied(s: &Option<String>) -> (r: Option<String>)
    ensures
        session::text_of(r) == session::text_of(*s),
{
    match s {
        Some(t) => Some(t.clone()),
        None => None,
    }
}

fn summary(m: &ResolvedModel) -> (s: ModelSummary)
    ensures
        is_summary(s, *m),
{
    ModelSummary {
        display_name: m.display_name.clone(),
        input_width: m.input_width,
        input_height: m.input_height,
        input_format: m.input_format.clone(),
        output_format: m.output_format.clone(),
        labels: copied(&m.labels_display),
        notes: copied(&m.notes),
    }
}

/// What is reported of detection.
#[derive(Debug, Clone, PartialEq, Eq)]
pub struct DetectionStatus {
    pub active: bool,
    pub object_detection: Option<ModelSummary>,
}

impl Service {
    /// A recording that is reported has pipelines that record.
    pub open spec fn wf(self) -> bool {
        self.status.recording_active ==> (self.slots.recording matches Some(r) && r.active)
    }

    pub fn new(status: RuntimeStatus) -> (s: Service)
        requires
            is_fresh(status),
        ensures
            s.wf(),
            s.status == status,
            s.slots == no_slots(),
            !s.ai_dirty,
            s.replay == no_replay(),
    {
        Service {
            status,
            slots: Slots {
                live: None,
                frame_export: false,
                streaming: false,
                recording: None,
                ai: false,
            },
            ai_dirty: false,
            replay: ReplayState::default(),
        }
    }

    /// Forget all pipelines. Gives those to stop, in order.
    pub fn teardown_pipelines(&mut self) -> (list: Vec<PipelineKind>)
        ensures
            list@ == stop_order(old(self).slots),
            *final(self) == torn_down(*old(self)),
            old(self).wf() ==> final(self).wf(),
    {
        let list: Vec<PipelineKind> = stop_list(&self.slots);
        if self.slots.streaming {
            self.status.streaming_enabled = false;
        }
        if self.slots.recording.is_some() {
            self.status.recording_active = false;
        }
        self.slots = Slots {
            live: None,
            frame_export: false,
            streaming: false,
            recording: None,
            ai: false,
        };
        list
    }

    /// Stop everything. Gives the pipelines to stop, in order.
    pub fn stop_pipeline(&mut self) -> (list: Vec<PipelineKind>)
        ensures
            list@ == stop_order(old(self).slots),
            *final(self) == ({
                let t = idled(torn_down(*old(self)));
                Service {
                    status: RuntimeStatus {
                        recording_active: false,
                        recording_started_at: None,
                        ..t.status
                    },
                    ..t
                }
            }),
            final(self).wf(),
    {
        let list: Vec<PipelineKind> = self.teardown_pipelines();
        self.status.state = MediaState::Idle;
        self.status.recording_active = false;
        self.status.recording_started_at = None;
        list
    }

    /// Take note that another model was selected. Running pipelines are built
    /// anew, but never under a recording.
    pub fn invalidate_ai_config(&mut self) -> (r: Invalidation)
        requires
            old(self).wf(),
        ensures
            final(self).wf(),
            match r {
                Invalidation::NextStart => old(self).slots.live is None && invalidated(*old(self))
                    == (*final(self), None::<Seq<PipelineKind>>),
                Invalidation::Deferred => old(self).slots.live is Some && invalidated(*old(self))
                    == (*final(self), None::<Seq<PipelineKind>>),
                Invalidation::Rebuild(list) => invalidated(*old(self)) == (
                    *final(self),
                    Some(list@),
                ),
            },
    {
        self.ai_dirty = true;
        if self.slots.live.is_none() {
            return Invalidation::NextStart;
        }
        if self.status.recording_active {
            return Invalidation::Deferred;
        }
        let list: Vec<PipelineKind> = self.teardown_pipelines();
        self.status.state = MediaState::Idle;
        Invalidation::Rebuild(list)
    }

    // Recording.

    /// Judge a request to record.
    pub fn request_recording(&self, name: Option<&str>) -> (r: RecordingRequest)
        ensures
            if self.status.recording_active {
                r is AlreadyActive
            } else {
                is_name_choice(r, session::given(name))
            },
    {
        if self.status.recording_active {
            return RecordingRequest::AlreadyActive;
        }
        match name {
            Some(n) => {
                if n.unicode_len() == 0 {
                    return RecordingRequest::Prepare(None);
                }
                if !is_valid_session_name(n) {
                    let mut detail: String = "only [a-zA-Z0-9 _-] allowed, got: ".to_owned();
                    detail.append(n);
                    return RecordingRequest::Refused(
                        refuse(400, "invalid session name", Some(detail)),
                    );
                }
                RecordingRequest::Prepare(Some(sanitize_session_name(n)))
            },
            None => RecordingRequest::Prepare(None),
        }
    }

    /// Judge whether a recording can be made, once the live producer was asked
    /// for and came up, or did not.
    pub fn admit_recording(&self, producer_up: bool) -> (r: RecordingGate)
        ensures
            if !producer_up {
                r matches RecordingGate::Refused(f) && is_refusal(
                    f,
                    500,
                    "live producer pipeline unavailable"@,
                    Some("ensure_live_producer() failed - see service logs"@),
                )
            } else {
                match self.slots.recording {
                    None => r matches RecordingGate::Refused(f) && is_refusal(
                        f,
                        500,
                        "recording pipelines unavailable"@,
                        Some(
                            "build_recording_*_consumer_pipeline failed at service start - see service logs"@,
                        ),
                    ),
                    Some(p) => if p.active {
                        r is AlreadyActive
                    } else {
                        r == RecordingGate::Record(p.audio)
                    },
                }
            },
    {
        if !producer_up {
            return RecordingGate::Refused(
                refuse(
                    500,
                    "live producer pipeline unavailable",
                    Some("ensure_live_producer() failed - see service logs".to_owned()),
                ),
            );
        }
        match self.slots.recording {
            None => RecordingGate::Refused(
                refuse(
                    500,
                    "recording pipelines unavailable",
                    Some(
                        "build_recording_*_consumer_pipeline failed at service start - see service logs".to_owned(),
                    ),
                ),
            ),
            Some(p) => {
                if p.active {
                    RecordingGate::AlreadyActive
                } else {
                    RecordingGate::Record(p.audio)
                }
            },
        }
    }

    /// A recording started.
    pub fn recording_started(&mut self, started_at: String)
        requires
            old(self).slots.recording is Some,
        ensures
            final(self).wf(),
            *final(self) == (Service {
                status: RuntimeStatus {
                    recording_active: true,
                    recording_started_at: Some(started_at),
                    recording_error: None,
                    ..old(self).status
                },
                slots: Slots {
                    recording: Some(
                        RecordingPipelines { active: true, ..old(self).slots.recording->0 },
                    ),
                    ..old(self).slots
                },
                ..*old(self)
            }),
    {
        match self.slots.recording {
            Some(p) => {
                self.slots.recording = Some(RecordingPipelines { audio: p.audio, active: true });
            },
            None => {},
        }
        self.status.recording_active = true;
        self.status.recording_started_at = Some(started_at);
        self.status.recording_error = None;
    }

    /// A recording is to end. A model that was selected meanwhile now asks for
    /// new pipelines.
    pub fn stop_recording(&mut self) -> (r: RecordingStop)
        ensures
            final(self).wf(),
            r.close == (old(self).slots.recording matches Some(p) && p.active),
            r.rebuild == old(self).ai_dirty,
            *final(self) == stopped_recording(*old(self)),
    {
        let mut close: bool = false;
        match self.slots.recording {
            Some(p) => {
                close = p.active;
                self.slots.recording = Some(RecordingPipelines { audio: p.audio, active: false });
            },
            None => {},
        }
        self.status.recording_active = false;
        self.status.recording_started_at = None;
        if self.slots.live.is_none() {
            self.status.state = MediaState::Idle;
        }
        RecordingStop { close, rebuild: self.ai_dirty }
    }

    /// Forget all pipelines because new ones are to be built. Gives those to
    /// stop, in order.
    pub fn rebuild(&mut self) -> (list: Vec<PipelineKind>)
        ensures
            list@ == stop_order(old(self).slots),
            *final(self) == idled(torn_down(*old(self))),
            old(self).wf() ==> final(self).wf(),
    {
        let list: Vec<PipelineKind> = self.teardown_pipelines();
        self.status.state = MediaState::Idle;
        list
    }

    /// Judge a recording some time after its start, by the frames that it has
    /// taken in. True if it has to be stopped because there were none.
    pub fn check_recording_flow(&mut self, frames: u64, grace_s: u64) -> (stop: bool)
        ensures
            old(self).wf() ==> final(self).wf(),
            stop == (frames == 0 && (old(self).slots.recording matches Some(p) && p.active)),
            !stop ==> *final(self) == *old(self),
            stop ==> {
                &&& final(self).status.recording_error matches Some(e)
                &&& e@ == stalled_text(RECORDING_STALLED_HEAD@, grace_s, RECORDING_STALLED_TAIL@)
                &&& *final(self) == (Service {
                    status: RuntimeStatus {
                        recording_active: false,
                        recording_started_at: None,
                        recording_error: Some(e),
                        ..old(self).status
                    },
                    slots: Slots {
                        recording: Some(
                            RecordingPipelines { active: false, ..old(self).slots.recording->0 },
                        ),
                        ..old(self).slots
                    },
                    ..*old(self)
                })
            },
    {
        if frames > 0 {
            return false;
        }
        match self.slots.recording {
            Some(p) => {
                if !p.active {
                    return false;
                }
                self.slots.recording = Some(RecordingPipelines { audio: p.audio, active: false });
                self.status.recording_active = false;
                self.status.recording_started_at = None;
                self.status.recording_error = Some(
                    stalled(RECORDING_STALLED_HEAD, grace_s, RECORDING_STALLED_TAIL),
                );
                true
            },
            None => false,
        }
    }

    // Streaming.

    /// Judge a request to stream. The request's bitrate counts unless it is
    /// very low. The microphone is on the stream where it is published and
    /// either the settings or the environment ask for it.
    pub fn request_streaming(
        &self,
        config: &MediaConfig,
        bitrate_kbps: Option<u32>,
        env_audio: bool,
    ) -> (r: StreamingGate)
        ensures
            if self.status.streaming_enabled {
                r is AlreadyActive
            } else {
                match self.slots.live {
                    None => r matches StreamingGate::Refused(f) && is_refusal(
                        f,
                        500,
                        "live producer pipeline not running"@,
                        Some("call POST /start first or wait for auto-start"@),
                    ),
                    Some(sound) => if self.slots.streaming {
                        r is AlreadyActive
                    } else {
                        &&& r matches StreamingGate::Stream(kbps, has_audio)
                        &&& has_audio == (sound && (config.streaming_audio_enabled || env_audio))
                        &&& kbps == (match bitrate_kbps {
                            Some(b) => if b >= STREAMING_BITRATE_FLOOR_KBPS {
                                b as int
                            } else {
                                crate::service::config::scaled_kbps(
                                    config.bitrate_kbps,
                                    config.width,
                                    config.height,
                                ) % 0x1_0000_0000
                            },
                            None => crate::service::config::scaled_kbps(
                                config.bitrate_kbps,
                                config.width,
                                config.height,
                            ) % 0x1_0000_0000,
                        })
                    },
                }
            },
    {
        if self.status.streaming_enabled {
            return StreamingGate::AlreadyActive;
        }
        match self.slots.live {
            None => StreamingGate::Refused(
                refuse(
                    500,
                    "live producer pipeline not running",
                    Some("call POST /start first or wait for auto-start".to_owned()),
                ),
            ),
            Some(sound) => {
                if self.slots.streaming {
                    return StreamingGate::AlreadyActive;
                }
                let has_audio: bool = sound && (config.streaming_audio_enabled || env_audio);
                let kbps: u32 = match bitrate_kbps {
                    Some(b) => if b >= STREAMING_BITRATE_FLOOR_KBPS {
                        b
                    } else {
                        config.scaled_bitrate()
                    },
                    None => config.scaled_bitrate(),
                };
                StreamingGate::Stream(kbps, has_audio)
            },
        }
    }

    /// The stream started.
    pub fn streaming_started(&mut self)
        ensures
            old(self).wf() ==> final(self).wf(),
            *final(self) == (Service {
                status: RuntimeStatus {
                    streaming_enabled: true,
                    streaming_error: None,
                    ..old(self).status
                },
                slots: Slots { streaming: true, ..old(self).slots },
                ..*old(self)
            }),
    {
        self.slots.streaming = true;
        self.status.streaming_enabled = true;
        self.status.streaming_error = None;
    }

    /// The stream is to end. True if there is a pipeline to stop.
    pub fn stop_streaming(&mut self) -> (stop: bool)
        ensures
            old(self).wf() ==> final(self).wf(),
            stop == old(self).slots.streaming,
            *final(self) == (Service {
                status: RuntimeStatus { streaming_enabled: false, ..old(self).status },
                slots: Slots { streaming: false, ..old(self).slots },
                ..*old(self)
            }),
    {
        let stop: bool = self.slots.streaming;
        self.slots.streaming = false;
        self.status.streaming_enabled = false;
        stop
    }

    /// The stream failed. True if there is a pipeline to stop.
    pub fn streaming_failed(&mut self, source: &str, reason: &str) -> (stop: bool)
        ensures
            old(self).wf() ==> final(self).wf(),
            stop == old(self).slots.streaming,
            ({
                &&& final(self).status.streaming_error matches Some(e)
                &&& e@ == source@ + ": "@ + reason@
                &&& *final(self) == (Service {
                    status: RuntimeStatus {
                        streaming_enabled: false,
                        streaming_error: Some(e),
                        ..old(self).status
                    },
                    slots: Slots { streaming: false, ..old(self).slots },
                    ..*old(self)
                })
            }),
    {
        let stop: bool = self.slots.streaming;
        let mut detail: String = source.to_owned();
        detail.append(": ");
        detail.append(reason);
        self.slots.streaming = false;
        self.status.streaming_enabled = false;
        self.status.streaming_error = Some(detail);
        stop
    }

    /// Judge a stream some time after its start, by the buffers that it has
    /// sent. True if it has to be stopped because there were none.
    pub fn check_streaming_flow(&mut self, buffers: u64, grace_s: u64) -> (stop: bool)
        ensures
            old(self).wf() ==> final(self).wf(),
            stop == (buffers == 0 && old(self).slots.streaming),
            !stop ==> *final(self) == *old(self),
            stop ==> {
                &&& final(self).status.streaming_error matches Some(e)
                &&& e@ == stalled_text(STREAM_STALLED_HEAD@, grace_s, STREAM_STALLED_TAIL@)
                &&& *final(self) == (Service {
                    status: RuntimeStatus {
                        streaming_enabled: false,
                        streaming_error: Some(e),
                        ..old(self).status
                    },
                    slots: Slots { streaming: false, ..old(self).slots },
                    ..*old(self)
                })
            },
    {
        if buffers > 0 || !self.slots.streaming {
            return false;
        }
        self.slots.streaming = false;
        self.status.streaming_enabled = false;
        self.status.streaming_error = Some(
            stalled(STREAM_STALLED_HEAD, grace_s, STREAM_STALLED_TAIL),
        );
        true
    }

    // Failures.

    /// Whether the pipeline of a kind is there.
    pub fn consumer_slot_present(&self, kind: ConsumerKind) -> (b: bool)
        ensures
            b == (match kind {
                ConsumerKind::FrameExport => self.slots.frame_export,
                ConsumerKind::Ai => self.slots.ai,
                _ => self.slots.recording is Some,
            }),
    {
        match kind {
            ConsumerKind::FrameExport => self.slots.frame_export,
            ConsumerKind::Ai => self.slots.ai,
            _ => self.slots.recording.is_some(),
        }
    }

    /// A pipeline failed, or ended though it never should. Either side of a
    /// recording takes the other with it. Gives the pipelines to stop.
    pub fn tear_down_consumer(&mut self, kind: ConsumerKind, detail: String) -> (list: Vec<
        PipelineKind,
    >)
        ensures
            old(self).wf() ==> final(self).wf(),
            list@ == lost_with(old(self).slots, kind),
            *final(self) == after_failure(*old(self), kind, detail),
    {
        let mut list: Vec<PipelineKind> = Vec::new();
        match kind {
            ConsumerKind::FrameExport => {
                push_if(&mut list, self.slots.frame_export, PipelineKind::FrameExport);
                self.slots.frame_export = false;
                self.status.frame_export_error = Some(detail);
            },
            ConsumerKind::Ai => {
                push_if(&mut list, self.slots.ai, PipelineKind::Ai);
                self.slots.ai = false;
                self.status.ai_error = Some(detail);
            },
            _ => {
                push_recording(&mut list, &self.slots);
                self.slots.recording = None;
                self.status.recording_active = false;
                self.status.recording_started_at = None;
                self.status.recording_error = Some(detail);
            },
        }
        assert(list@ =~= lost_with(old(self).slots, kind));
        list
    }

    /// The live producer failed, which is fatal.
    pub fn handle_bus_error(&mut self)
        ensures
            old(self).wf() ==> final(self).wf(),
            *final(self) == (Service {
                status: RuntimeStatus { state: MediaState::Error, ..old(self).status },
                ..*old(self)
            }),
    {
        self.status.state = MediaState::Error;
    }

    // Replay.

    /// Judge a request to play a file.
    pub fn request_replay(&self, path: &str, exists_on_disk: bool, speed: Binary64) -> (r: Option<
        Refusal,
    >)
        ensures
            is_replay_answer(r, self.status.recording_active, path@, exists_on_disk, speed),
    {
        if self.status.recording_active {
            return Some(refuse(409, "recording active", None));
        }
        if !scan::has_suffix(path, ".mp4") {
            return Some(refuse(400, "path must end with .mp4", None));
        }
        if !exists_on_disk {
            let f: Refusal = refuse(400, "file not found", None);
            return Some(Refusal { path: Some(path.to_owned()), ..f });
        }
        let pace: Option<Pace> = pace_of(speed);
        if pace.is_none() {
            let f: Refusal = refuse(
                400,
                "speed must be 0 (max) or a positive finite number",
                None,
            );
            return Some(Refusal { got: Some(speed), ..f });
        }
        None
    }

    /// A file is being played from now on.
    pub fn replay_started(&mut self, path: String, now_ns: u64, duration_ns: u64)
        ensures
            old(self).wf() ==> final(self).wf(),
            *final(self) == (Service {
                status: RuntimeStatus { input_source: InputSource::ReplayFile, ..old(self).status },
                replay: ReplayState {
                    active: true,
                    path: Some(path),
                    started_ns: Some(now_ns),
                    duration_ns,
                },
                ..*old(self)
            }),
    {
        self.replay = ReplayState {
            active: true,
            path: Some(path),
            started_ns: Some(now_ns),
            duration_ns,
        };
        self.status.input_source = InputSource::ReplayFile;
    }

    /// End the replay. True if there was one, and the producer has to be
    /// switched back.
    pub fn do_stop_replay(&mut self) -> (stop: bool)
        ensures
            old(self).wf() ==> final(self).wf(),
            stop == old(self).replay.active,
            !stop ==> *final(self) == *old(self),
            stop ==> *final(self) == (Service {
                status: RuntimeStatus { input_source: InputSource::Camera, ..old(self).status },
                replay: no_replay(),
                ..*old(self)
            }),
    {
        if !self.replay.active {
            return false;
        }
        self.replay = ReplayState { active: false, path: None, started_ns: None, duration_ns: 0 };
        self.status.input_source = InputSource::Camera;
        true
    }

    /// Report on the replay.
    pub fn replay_status(&self, now_ns: u64) -> (r: ReplayReport)
        ensures
            r.active == self.replay.active,
            session::text_of(r.path) == session::text_of(self.replay.path),
            r.position_ns == replay_position(self.replay, now_ns),
            r.duration_ns == self.replay.duration_ns,
    {
        let position_ns: u64 = if !self.replay.active {
            0
        } else {
            match self.replay.started_ns {
                Some(t) => {
                    let elapsed: u64 = if now_ns >= t {
                        now_ns - t
                    } else {
                        0
                    };
                    if elapsed < self.replay.duration_ns {
                        elapsed
                    } else {
                        self.replay.duration_ns
                    }
                },
                None => 0,
            }
        };
        ReplayReport {
            active: self.replay.active,
            path: copied(&self.replay.path),
            position_ns,
            duration_ns: self.replay.duration_ns,
        }
    }

    // The rest.

    /// Switch features.
    pub fn update_features(&mut self, request: FeatureToggleRequest)
        ensures
            old(self).wf() ==> final(self).wf(),
            *final(self) == (match request.streaming_enabled {
                Some(b) => Service {
                    status: RuntimeStatus { streaming_enabled: b, ..old(self).status },
                    ..*old(self)
                },
                None => *old(self),
            }),
    {
        match request.streaming_enabled {
            Some(b) => {
                self.status.streaming_enabled = b;
            },
            None => {},
        }
    }

    /// Report on detection. It runs where the accelerator is there, the pipelines
    /// run, and a model is selected.
    pub fn get_detection_status(&self, resolved: &AiConfig) -> (d: DetectionStatus)
        ensures
            d.active == (self.status.hailo_available && self.status.state == MediaState::Running
                && resolved.object_detection is Some),
            match (d.object_detection, resolved.object_detection) {
                (Some(shown), Some(m)) => is_summary(shown, m),
                (None, None) => true,
                _ => false,
            },
    {
        let shown: Option<ModelSummary> = match &resolved.object_detection {
            Some(m) => Some(summary(m)),
            None => None,
        };
        DetectionStatus {
            active: self.status.hailo_available && self.status.state == MediaState::Running
                && shown.is_some(),
            object_detection: shown,
        }
    }
}

// What holds across requests.

/// The producer is the last pipeline to be stopped, after all that read from
/// it.
pub proof fn law_consumers_stop_first(s: Slots, i: int)
    requires
        0 <= i < stop_order(s).len(),
        stop_order(s)[i] == PipelineKind::Live,
    ensures
        i == stop_order(s).len() - 1,
{
}

/// Selecting a model while a recording is under way leaves every pipeline
/// alone. The end of the recording then asks for new ones.
pub proof fn law_model_change_waits_for_recording(s: Service)
    requires
        s.wf(),
        s.status.recording_active,
    ensures
        invalidated(s).1 is None,
        invalidated(s).0.slots == s.slots,
        invalidated(s).0.status == s.status,
        stopped_recording(invalidated(s).0).ai_dirty,
{
}

/// Stopping all pipelines leaves none, and stopping again does nothing.
pub proof fn law_teardown_is_final(s: Service)
    ensures
        stop_order(torn_down(s).slots).len() == 0,
        torn_down(torn_down(s)) == torn_down(s),
{
}

/// When a side of the recording fails, the recording is over, the reason is
/// reported, and a later stop finds nothing to close.
pub proof fn law_failed_recording_is_over(s: Service, kind: ConsumerKind, detail: String)
    requires
        kind == ConsumerKind::RecordingVideo || kind == ConsumerKind::RecordingAudio,
    ensures
        ({
            let f = after_failure(s, kind, detail);
            &&& !f.status.recording_active
            &&& f.status.recording_error == Some(detail)
            &&& f.slots.recording is None
            &&& stopped_recording(f).slots == f.slots
        }),
{
}

/// The position of a replay never passes its length, and never goes back.
pub proof fn law_replay_position(r: ReplayState, earlier_ns: u64, later_ns: u64)
    requires
        earlier_ns <= later_ns,
    ensures
        replay_position(r, earlier_ns) <= replay_position(r, later_ns),
        r.active ==> replay_position(r, later_ns) <= r.duration_ns,
{
}

} // verus!
