//! The pipelines that feed the channels, and which of them runs.
//!
//! Only one producer feeds the channels at a time: the channels do not
//! arbitrate, so frames of two producers would interleave.
use crate::consumers;
use crate::consumers::{make_filter, make_plain};
use crate::floats::{Binary64, ONE_BITS};
use crate::graph;
use crate::graph::{Candidate, Element, Make, Node, PipelinePlan, Plan, Setting, Val};
use crate::text;
use vstd::prelude::*;
use vstd::string::StringExecFns;

verus! {

/// The channel that carries the picture.
pub const VIDEO_CHANNEL: &'static str = "aicam-main";

/// The channel that carries the sound to recordings. Readers drain a sound
/// channel, so each has one of its own.
pub const AUDIO_CHANNEL_RECORDING: &'static str = "aicam-audio-rec";

/// The channel that carries the sound to the stream.
pub const AUDIO_CHANNEL_STREAMING: &'static str = "aicam-audio-stream";

/// The form of all sound.
pub const AUDIO_CAPS: &'static str = "audio/x-raw,format=S16LE,rate=48000,channels=2,layout=interleaved";

// Camera settings.

/// Which source element the live producer uses.
#[derive(Debug, Clone, Copy, PartialEq, Eq, Structural)]
pub enum CameraBackend {
    Libcamera,
    Nvargus,
    V4l2,
}

/// The backend that a name stands for. Unknown names stand for `libcamera`.
pub open spec fn backend_of(s: Seq<char>) -> CameraBackend {
    if s == "nvargus"@ {
        CameraBackend::Nvargus
    } else if s == "v4l2"@ {
        CameraBackend::V4l2
    } else {
        CameraBackend::Libcamera
    }
}

impl CameraBackend {
    /// Read the configured backend name.
    pub fn parse(s: &str) -> (b: CameraBackend)
        ensures
            b == backend_of(s@),
    {
        if text::same_text(s, "nvargus") {
            CameraBackend::Nvargus
        } else if text::same_text(s, "v4l2") {
            CameraBackend::V4l2
        } else {
            CameraBackend::Libcamera
        }
    }

    /// The factory of the backend's source element.
    pub open spec fn source(self) -> Seq<char> {
        match self {
            CameraBackend::Libcamera => "libcamerasrc"@,
            CameraBackend::Nvargus => "nvarguscamerasrc"@,
            CameraBackend::V4l2 => "v4l2src"@,
        }
    }

    pub fn source_factory(self) -> (s: &'static str)
        ensures
            s@ == self.source(),
    {
        match self {
            CameraBackend::Libcamera => "libcamerasrc",
            CameraBackend::Nvargus => "nvarguscamerasrc",
            CameraBackend::V4l2 => "v4l2src",
        }
    }
}

/// How the camera's picture is turned.
#[derive(Debug, Clone, Copy, PartialEq, Eq, Structural)]
pub enum Orientation {
    Identity,
    /// Left and right exchanged.
    HorizontalFlip,
    Rotate180,
    /// Top and bottom exchanged.
    VerticalFlip,
}

/// Where an orientation puts the pixel at `(x, y)` of a picture of the given
/// size.
pub open spec fn turned(o: Orientation, width: int, height: int, x: int, y: int) -> (int, int) {
    match o {
        Orientation::Identity => (x, y),
        Orientation::HorizontalFlip => (width - 1 - x, y),
        Orientation::Rotate180 => (width - 1 - x, height - 1 - y),
        Orientation::VerticalFlip => (x, height - 1 - y),
    }
}

/// The orientation that two flags stand for.
pub open spec fn orientation_of(flip_horizontal: bool, rotate_180: bool) -> Orientation {
    match (rotate_180, flip_horizontal) {
        (false, false) => Orientation::Identity,
        (false, true) => Orientation::HorizontalFlip,
        (true, false) => Orientation::Rotate180,
        (true, true) => Orientation::VerticalFlip,
    }
}

impl Orientation {
    /// The one orientation that does what the two flags ask for.
    pub fn from_flags(flip_horizontal: bool, rotate_180: bool) -> (o: Orientation)
        ensures
            o == orientation_of(flip_horizontal, rotate_180),
            o == (match (rotate_180, flip_horizontal) {
                (false, false) => Orientation::Identity,
                (false, true) => Orientation::HorizontalFlip,
                (true, false) => Orientation::Rotate180,
                (true, true) => Orientation::VerticalFlip,
            }),
    {
        match (rotate_180, flip_horizontal) {
            (false, false) => Orientation::Identity,
            (false, true) => Orientation::HorizontalFlip,
            (true, false) => Orientation::Rotate180,
            (true, true) => Orientation::VerticalFlip,
        }
    }

    /// The nickname that the turning elements know an orientation by.
    pub open spec fn method(self) -> Option<Seq<char>> {
        match self {
            Orientation::Identity => None,
            Orientation::HorizontalFlip => Some("horizontal-flip"@),
            Orientation::Rotate180 => Some("rotate-180"@),
            Orientation::VerticalFlip => Some("vertical-flip"@),
        }
    }

    pub fn method_str(self) -> (m: Option<&'static str>)
        ensures
            match m {
                Some(s) => self.method() == Some(s@),
                None => self.method() is None,
            },
    {
        match self {
            Orientation::Identity => None,
            Orientation::HorizontalFlip => Some("horizontal-flip"),
            Orientation::Rotate180 => Some("rotate-180"),
            Orientation::VerticalFlip => Some("vertical-flip"),
        }
    }
}

/// The orientation that two flags stand for is the half turn, if asked for,
/// after the mirroring, if asked for.
pub proof fn law_orientation_composes(
    flip_horizontal: bool,
    rotate_180: bool,
    width: int,
    height: int,
    x: int,
    y: int,
)
    ensures
        ({
            let both = orientation_of(flip_horizontal, rotate_180);
            let mirrored = if flip_horizontal {
                (width - 1 - x, y)
            } else {
                (x, y)
            };
            turned(both, width, height, x, y) == if rotate_180 {
                (width - 1 - mirrored.0, height - 1 - mirrored.1)
            } else {
                mirrored
            }
        }),
{
}

// Elements that both producers share.

/// A sink that publishes to a channel on the clock, keeps no last sample, and
/// does not wait for a first buffer.
pub open spec fn publisher(factory: Seq<char>, channel: Seq<char>) -> Make {
    graph::bare(factory).with("channel"@, Val::Text(channel)).with("sync"@, Val::Flag(true)).with(
        "async"@,
        Val::Flag(false),
    ).with("enable-last-sample"@, Val::Flag(false))
}

fn make_publisher(factory: &str, channel: &str) -> (c: Candidate)
    ensures
        c@ == publisher(factory@, channel@),
{
    Candidate::new(factory).text("channel", channel).flag("sync", true).flag("async", false).flag(
        "enable-last-sample",
        false,
    )
}

pub open spec fn video_publisher(name: Seq<char>) -> Node {
    graph::named(name, publisher("intervideosink"@, VIDEO_CHANNEL@))
}

fn make_intervideosink(name: &str) -> (e: Element)
    ensures
        e@ == video_publisher(name@),
{
    Element::new(name, make_publisher("intervideosink", VIDEO_CHANNEL))
}

/// A queue of a fifth of a second. It drops sound that nobody reads, so that
/// one idle reader does not hold up the other.
pub open spec fn relief_queue(name: Seq<char>) -> Node {
    graph::named(
        name,
        graph::bare("queue"@).with("leaky"@, Val::Nick("downstream"@)).with(
            "max-size-time"@,
            Val::U64(200_000_000),
        ).with("max-size-buffers"@, Val::U32(0)).with("max-size-bytes"@, Val::U32(0)),
    )
}

fn make_relief_queue(name: &str) -> (e: Element)
    ensures
        e@ == relief_queue(name@),
{
    Element::new(
        name,
        Candidate::new("queue").nick("leaky", "downstream").u64("max-size-time", 200_000_000).u32(
            "max-size-buffers",
            0,
        ).u32("max-size-bytes", 0),
    )
}

pub open spec fn splitter(name: Seq<char>) -> Node {
    graph::named(name, graph::bare("tee"@).with("allow-not-linked"@, Val::Flag(true)))
}

/// Sound split over the two sound channels, from the plan's last element on,
/// which is its converter.
pub open spec fn with_fan_out(
    plan: Plan,
    caps: Seq<char>,
    tee: Seq<char>,
    rec_queue: Seq<char>,
    rec_sink: Seq<char>,
    stream_queue: Seq<char>,
    stream_sink: Seq<char>,
) -> Plan {
    let split = plan.append(consumers::filter(caps, AUDIO_CAPS@)).append(splitter(tee));
    split.append(relief_queue(rec_queue)).append(
        graph::named(rec_sink, publisher("interaudiosink"@, AUDIO_CHANNEL_RECORDING@)),
    ).add(relief_queue(stream_queue)).link(
        split.nodes.len() - 1,
        (split.nodes.len() + 2) as int,
    ).append(
        graph::named(stream_sink, publisher("interaudiosink"@, AUDIO_CHANNEL_STREAMING@)),
    )
}

/// Split the sound of a plan whose last element is its sound converter.
fn build_audio_fanout(
    plan: &mut PipelinePlan,
    caps: &str,
    tee: &str,
    rec_queue: &str,
    rec_sink: &str,
    stream_queue: &str,
    stream_sink: &str,
)
    requires
        0 < old(plan)@.nodes.len() < 1000,
    ensures
        final(plan)@ == with_fan_out(
            old(plan)@,
            caps@,
            tee@,
            rec_queue@,
            rec_sink@,
            stream_queue@,
            stream_sink@,
        ),
{
    plan.append(make_filter(caps, AUDIO_CAPS));
    plan.append(Element::new(tee, Candidate::new("tee").flag("allow-not-linked", true)));
    let at: usize = plan.elements.len();
    plan.append(make_relief_queue(rec_queue));
    plan.append(Element::new(rec_sink, make_publisher("interaudiosink", AUDIO_CHANNEL_RECORDING)));
    plan.add(make_relief_queue(stream_queue));
    plan.link(at - 1, at + 2);
    plan.append(Element::new(stream_sink, make_publisher("interaudiosink", AUDIO_CHANNEL_STREAMING)));
}

// The live producer.

/// Raw frames of a size and rate, after a prefix that names where they lie.
pub open spec fn frame_caps(prefix: Seq<char>, width: u32, height: u32, fps: u32) -> Seq<char> {
    prefix + ",format=NV12,width="@ + text::decimal(width as nat) + ",height="@ + text::decimal(
        height as nat,
    ) + ",framerate="@ + text::decimal(fps as nat) + "/1"@
}

fn frame_caps_text(prefix: &str, width: u32, height: u32, fps: u32) -> (s: String)
    ensures
        s@ == frame_caps(prefix@, width, height, fps),
{
    let mut s: String = prefix.to_owned();
    s.append(",format=NV12,width=");
    text::push_decimal(&mut s, width as u64);
    s.append(",height=");
    text::push_decimal(&mut s, height as u64);
    s.append(",framerate=");
    text::push_decimal(&mut s, fps as u64);
    s.append("/1");
    s
}

/// A moving test picture.
pub open spec fn test_picture() -> Make {
    graph::bare("videotestsrc"@).with("pattern"@, Val::Nick("ball"@)).with(
        "is-live"@,
        Val::Flag(true),
    )
}

fn make_test_picture() -> (c: Candidate)
    ensures
        c@ == test_picture(),
{
    Candidate::new("videotestsrc").nick("pattern", "ball").flag("is-live", true)
}

/// A source, the frame filter, the turning element if one is needed, and a
/// converter.
pub open spec fn simple_head(
    source: Node,
    width: u32,
    height: u32,
    fps: u32,
    orientation: Orientation,
) -> Plan {
    let raw = graph::empty_plan("live_producer_pipeline"@).add(source).append(
        consumers::filter(
            "live_producer_video_caps"@,
            frame_caps("video/x-raw"@, width, height, fps),
        ),
    );
    let turned = match orientation.method() {
        Some(m) => raw.append(
            graph::named(
                "live_producer_video_flip"@,
                graph::bare("videoflip"@).with("method"@, Val::Nick(m)),
            ),
        ),
        None => raw,
    };
    turned.append(consumers::plain("live_producer_videoconvert"@, "videoconvert"@)).append(
        video_publisher("live_producer_intervideosink"@),
    )
}

fn plan_simple_head(
    source: Element,
    width: u32,
    height: u32,
    fps: u32,
    orientation: Orientation,
) -> (plan: PipelinePlan)
    ensures
        plan@ == simple_head(source@, width, height, fps, orientation),
{
    let caps: String = frame_caps_text("video/x-raw", width, height, fps);
    let mut plan: PipelinePlan = PipelinePlan::new("live_producer_pipeline");
    plan.add(source);
    plan.append(make_filter("live_producer_video_caps", caps.as_str()));
    match orientation.method_str() {
        Some(m) => {
            plan.append(
                Element::new(
                    "live_producer_video_flip",
                    Candidate::new("videoflip").nick("method", m),
                ),
            );
        },
        None => {},
    }
    plan.append(make_plain("live_producer_videoconvert", "videoconvert"));
    plan.append(make_intervideosink("live_producer_intervideosink"));
    plan
}

/// The head for frames in the graphics unit's own memory: the element that
/// fetches them from there turns them as well.
pub open spec fn fetching_head(width: u32, height: u32, fps: u32, orientation: Orientation) -> Plan {
    let fetch = graph::bare("nvvidconv"@);
    graph::empty_plan("live_producer_pipeline"@).add(
        consumers::plain("live_producer_video_src"@, "nvarguscamerasrc"@),
    ).append(
        consumers::filter(
            "live_producer_video_nvmm_caps"@,
            frame_caps("video/x-raw(memory:NVMM)"@, width, height, fps),
        ),
    ).append(
        graph::named(
            "live_producer_video_nvvidconv"@,
            match orientation.method() {
                Some(m) => fetch.with("flip-method"@, Val::Nick(m)),
                None => fetch,
            },
        ),
    ).append(
        consumers::filter(
            "live_producer_video_caps"@,
            frame_caps("video/x-raw"@, width, height, fps),
        ),
    ).append(video_publisher("live_producer_intervideosink"@))
}

fn plan_fetching_head(width: u32, height: u32, fps: u32, orientation: Orientation) -> (plan:
    PipelinePlan)
    ensures
        plan@ == fetching_head(width, height, fps, orientation),
{
    let device_caps: String = frame_caps_text("video/x-raw(memory:NVMM)", width, height, fps);
    let raw_caps: String = frame_caps_text("video/x-raw", width, height, fps);
    let mut plan: PipelinePlan = PipelinePlan::new("live_producer_pipeline");
    plan.add(make_plain("live_producer_video_src", "nvarguscamerasrc"));
    plan.append(make_filter("live_producer_video_nvmm_caps", device_caps.as_str()));
    let fetch: Candidate = Candidate::new("nvvidconv");
    let fetch: Candidate = match orientation.method_str() {
        Some(m) => fetch.nick("flip-method", m),
        None => fetch,
    };
    plan.append(Element::new("live_producer_video_nvvidconv", fetch));
    plan.append(make_filter("live_producer_video_caps", raw_caps.as_str()));
    plan.append(make_intervideosink("live_producer_intervideosink"));
    plan
}

/// The picture side of the live producer. A camera that cannot be opened is
/// replaced by a test picture. `nvargus_present` says whether the source of
/// the `nvargus` backend can be made.
pub open spec fn live_video(
    backend: CameraBackend,
    nvargus_present: bool,
    width: u32,
    height: u32,
    fps: u32,
    orientation: Orientation,
) -> Plan {
    if backend == CameraBackend::Nvargus {
        if nvargus_present {
            fetching_head(width, height, fps, orientation)
        } else {
            simple_head(
                graph::named("live_producer_video_src"@, test_picture()),
                width,
                height,
                fps,
                orientation,
            )
        }
    } else {
        simple_head(
            consumers::plain("live_producer_video_src"@, backend.source()).or(test_picture()),
            width,
            height,
            fps,
            orientation,
        )
    }
}

/// Plan the picture side of the live producer.
pub fn build_live_video_head(
    backend: CameraBackend,
    nvargus_present: bool,
    width: u32,
    height: u32,
    fps: u32,
    orientation: Orientation,
) -> (plan: PipelinePlan)
    ensures
        plan@ == live_video(backend, nvargus_present, width, height, fps, orientation),
{
    if backend == CameraBackend::Nvargus {
        if nvargus_present {
            plan_fetching_head(width, height, fps, orientation)
        } else {
            plan_simple_head(
                Element::new("live_producer_video_src", make_test_picture()),
                width,
                height,
                fps,
                orientation,
            )
        }
    } else {
        plan_simple_head(
            make_plain("live_producer_video_src", backend.source_factory()).or(make_test_picture()),
            width,
            height,
            fps,
            orientation,
        )
    }
}

/// A microphone, or silence where there is none.
pub open spec fn microphone(name: Seq<char>, device: Option<Seq<char>>) -> Node {
    let alsa = graph::bare("alsasrc"@);
    graph::named(
        name,
        match device {
            Some(d) => alsa.with("device"@, Val::Text(d)),
            None => alsa,
        },
    ).or(
        graph::bare("audiotestsrc"@).with("is-live"@, Val::Flag(true)).with(
            "wave"@,
            Val::Nick("silence"@),
        ),
    )
}

pub open spec fn device_view(device: Option<&str>) -> Option<Seq<char>> {
    match device {
        Some(d) => Some(d@),
        None => None,
    }
}

fn make_audio_source(name: &str, audio_device: Option<&str>) -> (e: Element)
    ensures
        e@ == microphone(name@, device_view(audio_device)),
{
    let alsa: Candidate = Candidate::new("alsasrc");
    let alsa: Candidate = match audio_device {
        Some(d) => alsa.text("device", d),
        None => alsa,
    };
    Element::new(name, alsa).or(
        Candidate::new("audiotestsrc").flag("is-live", true).nick("wave", "silence"),
    )
}

/// The live producer, with or without sound.
pub open spec fn live_plan(video: Plan, audio_enabled: bool, device: Option<Seq<char>>) -> Plan {
    if audio_enabled {
        with_fan_out(
            video.add(microphone("live_producer_audio_src"@, device)).append(
                consumers::plain("live_producer_audioconvert"@, "audioconvert"@),
            ),
            "live_producer_audio_caps"@,
            "live_producer_audio_tee"@,
            "live_producer_audio_rec_queue"@,
            "live_producer_audio_rec_sink"@,
            "live_producer_audio_stream_queue"@,
            "live_producer_audio_stream_sink"@,
        )
    } else {
        video
    }
}

/// Plan the live producer: the camera, and the microphone where sound is
/// wanted.
pub fn build_live_producer_pipeline(
    width: u32,
    height: u32,
    fps: u32,
    audio_enabled: bool,
    audio_device: Option<&str>,
    camera_backend: CameraBackend,
    orientation: Orientation,
    nvargus_present: bool,
) -> (plan: PipelinePlan)
    ensures
        plan@ == live_plan(
            live_video(camera_backend, nvargus_present, width, height, fps, orientation),
            audio_enabled,
            device_view(audio_device),
        ),
{
    let mut plan: PipelinePlan = build_live_video_head(
        camera_backend,
        nvargus_present,
        width,
        height,
        fps,
        orientation,
    );
    if audio_enabled {
        plan.add(make_audio_source("live_producer_audio_src", audio_device));
        plan.append(make_plain("live_producer_audioconvert", "audioconvert"));
        build_audio_fanout(
            &mut plan,
            "live_producer_audio_caps",
            "live_producer_audio_tee",
            "live_producer_audio_rec_queue",
            "live_producer_audio_rec_sink",
            "live_producer_audio_stream_queue",
            "live_producer_audio_stream_sink",
        );
    }
    plan
}

/// The live producer, and whether it publishes sound.
#[derive(Debug, Clone)]
pub struct LiveProducer {
    pub plan: PipelinePlan,
    pub audio_available: bool,
}

/// Plan the live producer from the configured flags.
pub fn build_live_producer(
    width: u32,
    height: u32,
    fps: u32,
    audio_enabled: bool,
    audio_device: Option<&str>,
    camera_backend: CameraBackend,
    flip_horizontal: bool,
    rotate_180: bool,
    nvargus_present: bool,
) -> (p: LiveProducer)
    ensures
        p.audio_available == audio_enabled,
        p.plan@ == live_plan(
            live_video(
                camera_backend,
                nvargus_present,
                width,
                height,
                fps,
                orientation_of(flip_horizontal, rotate_180),
            ),
            audio_enabled,
            device_view(audio_device),
        ),
{
    let orientation: Orientation = Orientation::from_flags(flip_horizontal, rotate_180);
    let plan: PipelinePlan = build_live_producer_pipeline(
        width,
        height,
        fps,
        audio_enabled,
        audio_device,
        camera_backend,
        orientation,
        nvargus_present,
    );
    LiveProducer { plan, audio_available: audio_enabled }
}

// The playback producer.

/// How fast a file is played.
#[derive(Debug, Clone, Copy, PartialEq, Eq, Structural)]
pub enum Pace {
    /// As fast as it decodes.
    Unpaced,
    Realtime,
    /// At a multiple of real time.
    Scaled(Binary64),
}

/// The pace that a speed asks for: zero is unpaced, one is real time.
/// Negative and non-finite speeds ask for nothing.
pub open spec fn pace_spec(speed: Binary64) -> Option<Pace> {
    if !speed.finite() || (speed.sign_set() && !speed.zero()) {
        None
    } else if speed.zero() {
        Some(Pace::Unpaced)
    } else if speed.about_one() {
        Some(Pace::Realtime)
    } else {
        Some(Pace::Scaled(speed))
    }
}

/// Read a playback speed.
pub fn pace_of(speed: Binary64) -> (p: Option<Pace>)
    ensures
        p == pace_spec(speed),
{
    let magnitude: u64 = speed.bits % 0x8000_0000_0000_0000;
    if magnitude >= 0x7ff0_0000_0000_0000 {
        return None;
    }
    if magnitude == 0 {
        return Some(Pace::Unpaced);
    }
    if speed.bits >= 0x8000_0000_0000_0000 {
        return None;
    }
    if speed.bits >= ONE_BITS - 2 && speed.bits <= ONE_BITS + 1 {
        Some(Pace::Realtime)
    } else {
        Some(Pace::Scaled(speed))
    }
}

/// Where the decoded picture enters the playback plan.
pub const PLAYBACK_VIDEO_HEAD: usize = 2;

/// Where the decoded sound enters the playback plan.
pub const PLAYBACK_AUDIO_HEAD: usize = 8;

/// The element that brings the picture to the channels' frame rate, and
/// stretches time for other paces.
pub open spec fn pacer(pace: Pace) -> Node {
    let steady = graph::bare("videorate"@).with("skip-to-first"@, Val::Flag(true));
    graph::named(
        "playback_producer_videorate"@,
        match pace {
            Pace::Scaled(speed) => steady.with("rate"@, Val::Double(speed.bits)),
            _ => steady,
        },
    )
}

/// The playback producer: a file, a decoder whose outputs are linked as they
/// appear, a picture chain, and a sound chain split over both sound channels.
pub open spec fn playback_plan(path: Seq<char>, pace: Pace) -> Plan {
    let video = graph::empty_plan("playback_producer_pipeline"@).add(
        graph::named(
            "playback_producer_filesrc"@,
            graph::bare("filesrc"@).with("location"@, Val::Text(path)),
        ),
    ).append(consumers::plain("playback_producer_decodebin"@, "decodebin"@)).add(
        consumers::plain("playback_producer_videoscale"@, "videoscale"@),
    ).append(consumers::plain("playback_producer_videoconvert"@, "videoconvert"@)).append(
        pacer(pace),
    ).append(
        consumers::filter(
            "playback_producer_video_caps"@,
            "video/x-raw,format=NV12,width=1920,height=1080,framerate=30/1"@,
        ),
    ).append(
        graph::named(
            "playback_producer_identity"@,
            graph::bare("identity"@).with("sync"@, Val::Flag(pace != Pace::Unpaced)),
        ),
    ).append(video_publisher("playback_producer_intervideosink"@));
    with_fan_out(
        video.add(consumers::plain("playback_producer_audioconvert"@, "audioconvert"@)),
        "playback_producer_audio_caps"@,
        "playback_producer_audio_tee"@,
        "playback_producer_audio_rec_queue"@,
        "playback_producer_audio_rec_sink"@,
        "playback_producer_audio_stream_queue"@,
        "playback_producer_audio_stream_sink"@,
    )
}

/// A file cannot be played at the speed that was given.
#[derive(Debug, Clone, PartialEq, Eq)]
pub struct BadSpeed {
    pub reason: String,
    pub got: Binary64,
}

/// Plan the playback of a file. A speed that is negative or not finite is refused.
pub fn build_playback_producer_pipeline(path: &str, speed: Binary64) -> (r: Result<
    PipelinePlan,
    BadSpeed,
>)
    ensures
        match pace_spec(speed) {
            Some(pace) => r matches Ok(plan) && plan@ == playback_plan(path@, pace),
            None => r matches Err(e) && e.reason@
                == "playback speed must be 0 or a positive finite number"@ && e.got == speed,
        },
{
    let pace: Pace = match pace_of(speed) {
        Some(p) => p,
        None => {
            return Err(
                BadSpeed {
                    reason: "playback speed must be 0 or a positive finite number".to_owned(),
                    got: speed,
                },
            );
        },
    };
    let mut plan: PipelinePlan = PipelinePlan::new("playback_producer_pipeline");
    plan.add(
        Element::new("playback_producer_filesrc", Candidate::new("filesrc").text("location", path)),
    );
    plan.append(make_plain("playback_producer_decodebin", "decodebin"));
    plan.add(make_plain("playback_producer_videoscale", "videoscale"));
    plan.append(make_plain("playback_producer_videoconvert", "videoconvert"));
    let steady: Candidate = Candidate::new("videorate").flag("skip-to-first", true);
    let steady: Candidate = match pace {
        Pace::Scaled(s) => steady.with("rate", Setting::Double(s.bits)),
        _ => steady,
    };
    plan.append(Element::new("playback_producer_videorate", steady));
    plan.append(
        make_filter(
            "playback_producer_video_caps",
            "video/x-raw,format=NV12,width=1920,height=1080,framerate=30/1",
        ),
    );
    let on_clock: bool = pace != Pace::Unpaced;
    plan.append(
        Element::new("playback_producer_identity", Candidate::new("identity").flag("sync", on_clock)),
    );
    plan.append(make_intervideosink("playback_producer_intervideosink"));
    plan.add(make_plain("playback_producer_audioconvert", "audioconvert"));
    build_audio_fanout(
        &mut plan,
        "playback_producer_audio_caps",
        "playback_producer_audio_tee",
        "playback_producer_audio_rec_queue",
        "playback_producer_audio_rec_sink",
        "playback_producer_audio_stream_queue",
        "playback_producer_audio_stream_sink",
    );
    Ok(plan)
}

/// Where a decoded stream goes: to the chain of its kind, unless that is fed
/// already.
pub open spec fn decoded_target(
    media_type: Seq<char>,
    video_linked: bool,
    audio_linked: bool,
) -> Option<usize> {
    if "video/"@.is_prefix_of(media_type) {
        if video_linked {
            None
        } else {
            Some(PLAYBACK_VIDEO_HEAD)
        }
    } else if "audio/"@.is_prefix_of(media_type) {
        if audio_linked {
            None
        } else {
            Some(PLAYBACK_AUDIO_HEAD)
        }
    } else {
        None
    }
}

/// Decide which element of the playback plan a decoded stream is linked to.
pub fn link_decoded(media_type: &str, video_linked: bool, audio_linked: bool) -> (r: Option<usize>)
    ensures
        r == decoded_target(media_type@, video_linked, audio_linked),
{
    if text::has_prefix(media_type, "video/") {
        if video_linked {
            None
        } else {
            Some(PLAYBACK_VIDEO_HEAD)
        }
    } else if text::has_prefix(media_type, "audio/") {
        if audio_linked {
            None
        } else {
            Some(PLAYBACK_AUDIO_HEAD)
        }
    } else {
        None
    }
}

/// The chains that the file does not feed, the sound first. Each is told that
/// its stream has ended, or the pipeline would wait for it forever.
pub fn unfed_chains(video_linked: bool, audio_linked: bool) -> (heads: Vec<usize>)
    ensures
        heads@ == (if audio_linked {
            Seq::<usize>::empty()
        } else {
            seq![PLAYBACK_AUDIO_HEAD]
        }) + (if video_linked {
            Seq::<usize>::empty()
        } else {
            seq![PLAYBACK_VIDEO_HEAD]
        }),
{
    let mut heads: Vec<usize> = Vec::new();
    if !audio_linked {
        heads.push(PLAYBACK_AUDIO_HEAD);
    }
    if !video_linked {
        heads.push(PLAYBACK_VIDEO_HEAD);
    }
    heads
}

} // verus!
