//! What holds of settings, models, requests and starts.
use crate::consumers;
use crate::floats;
use crate::floats::{Binary32, Binary64};
use crate::json::Json;
use crate::model_registry;
use crate::model_registry::{
    FamilyFill, Malformed, ModelDef, ModelLabels, ModelScope, Sidecar,
};
use crate::pipeline::ResolvedModel;
use crate::producer;
use crate::producer::{CameraBackend, Pace};
use crate::service::config;
use crate::service::config::MediaConfig;
use crate::service::startup::{Startup, StartupStep};
use crate::service::state;
use crate::service::state::{
    MediaState, ModelSummary, PipelineKind, RecordingRequest, Refusal, ReplayState, Service, Slots,
};
use crate::service::watch;
use crate::service::watch::BusEvent;
use crate::session;
use vstd::prelude::*;

verus! {

// Settings.

/// A number of a settings file counts as it is, and a default where it is missing.
pub open spec fn counts(v: Option<u64>, c: u32, default: u32) -> bool {
    match v {
        Some(n) => n <= u32::MAX ==> c == n,
        None => c == default,
    }
}

/// The section that a settings file keeps inside of another.
pub open spec fn holds_section(tree: Json, outer: Seq<char>, inner: Seq<char>, s: Json) -> bool {
    tree.member(outer) matches Some(v) && v.member(inner) == Some(s)
}

/// Each setting is read from its own place: width, height and rate from the camera's
/// section, directory and sound from the recording's, sound and patience from the
/// stream's.
pub proof fn law_settings_read_from_their_places(c: MediaConfig, tree: Json, s: Json)
    requires
        config::is_config(c, config::settings_of(tree)),
    ensures
        holds_section(tree, "video"@, "camera"@, s) ==> {
            &&& counts(s.unsigned_member("width"@), c.width, 1920)
            &&& counts(s.unsigned_member("height"@), c.height, 1080)
            &&& counts(s.unsigned_member("fps"@), c.fps, 30)
        },
        holds_section(tree, "video"@, "recording"@, s) ==> {
            &&& match s.text_member("directory"@) {
                Some(d) => c.recording_dir@ == d,
                None => c.recording_dir@ == "recordings"@,
            }
            &&& match s.boolean_member("audio_enabled"@) {
                Some(b) => c.audio_enabled == b,
                None => c.audio_enabled,
            }
        },
        holds_section(tree, "video"@, "streaming"@, s) ==> {
            &&& match s.boolean_member("audio_enabled"@) {
                Some(b) => c.streaming_audio_enabled == b,
                None => !c.streaming_audio_enabled,
            }
            &&& match s.unsigned_member("flow_check_grace_s"@) {
                Some(n) => c.streaming_flow_check_grace_s == n,
                None => c.streaming_flow_check_grace_s == 10,
            }
        },
        tree.member("ai"@) == Some(s) ==> match s.text_member("object_detection_model"@) {
            Some(m) => c.ai.object_detection_model matches Some(n) && n@ == m,
            None => c.ai.object_detection_model is None,
        },
        c.bitrate_kbps == 8192,
{
}

/// Settings that a file does not have are the defaults.
pub proof fn law_default_settings(c: MediaConfig)
    requires
        config::is_config(c, config::no_settings()),
    ensures
        c.width == 1920,
        c.height == 1080,
        c.fps == 30,
        c.bitrate_kbps == 8192,
        c.recording_dir@ == "recordings"@,
        c.audio_enabled,
        !c.streaming_audio_enabled,
        c.streaming_flow_check_grace_s == 10,
        c.ai.object_detection_model is None,
{
}

/// The bitrate is in proportion to the pixels: it leaves out less than one kilobit per
/// second of what the configured bitrate gives for as many pixels.
pub proof fn law_bitrate_per_pixel(kbps: u32, width: u32, height: u32)
    ensures
        ({
            let s = config::scaled_kbps(kbps, width, height);
            let exact = kbps * (width * height);
            &&& s >= 512
            &&& s > 512 ==> 0 <= exact - 2_073_600 * s < 2_073_600
            &&& s == 512 ==> exact < 2_073_600 * 513
        }),
{
    let exact = kbps * (width * height);
    assert(config::scaled_kbps(kbps, width, height) == if exact / 2_073_600 < 512 {
        512
    } else {
        exact / 2_073_600
    });
}

// Models.

/// A model that runs is the one that its file describes, entry by entry.
pub proof fn law_model_as_described(m: ResolvedModel, d: ModelDef)
    requires
        model_registry::is_resolved(m, d),
    ensures
        m.display_name@ == d.display_name@,
        d.hef_path matches Some(p) ==> m.hef_path@ == p@,
        m.input_width == d.input.width,
        m.input_height == d.input.height,
        m.input_format@ == d.input.format@,
        m.postprocess_so@ == d.postprocess.so_path@,
        m.postprocess_fn@ == d.postprocess.function_name@,
        m.output_format@ == d.postprocess.output_format@,
        m.inference_fps == d.inference_fps,
        m.publish_detections == d.publish_detections,
        d.labels matches Some(ModelLabels::Named(s)) ==> m.label_map is None && (
        m.labels_display matches Some(t) && t@ == s@),
        d.labels matches Some(ModelLabels::IndexMap(v)) ==> m.labels_display is None && (
        m.label_map matches Some(list) && list@.len() == v@.len() && forall|i: int|
            #![trigger list@[i]]
            0 <= i < v@.len() ==> list@[i]@ == v@[i]@),
        d.labels is None ==> m.label_map is None && m.labels_display is None,
        d.notes is Some <==> m.notes is Some,
        d.notes matches Some(n) ==> (m.notes matches Some(o) && o@ == n@),
        d.class_map is Some <==> m.class_map is Some,
{
    if let Some(ModelLabels::IndexMap(v)) = d.labels {
        let list = m.label_map->0;
        assert(crate::scan::texts(list@) == crate::scan::texts(v@));
        assert(crate::scan::texts(list@).len() == list@.len());
        assert(crate::scan::texts(v@).len() == v@.len());
        assert forall|i: int| #![trigger list@[i]] 0 <= i < v@.len() implies list@[i]@ == v@[i]@ by {
            assert(crate::scan::texts(list@)[i] == list@[i]@);
            assert(crate::scan::texts(v@)[i] == v@[i]@);
        }
    }
}

/// Which library and function a family of models uses by itself.
pub proof fn law_model_families()
    ensures
        forall|f: Seq<char>|
            f == "yolov5"@ || f == "yolov8"@ || f == "yolox"@ ==> #[trigger] model_registry::family_of(
                f,
            ) == Some(
                (
                    "/usr/lib/aarch64-linux-gnu/hailo/tappas/post_processes/libyolo_hailortpp_post.so"@,
                    "filter_letterbox"@,
                ),
            ),
        model_registry::family_of("yolo26"@) == Some(
            ("/opt/robocup-ai-camera/apps/hailo_postprocess/libyolo26_post.so"@, "yolo26"@),
        ),
        forall|f: Seq<char>|
            f != "yolov5"@ && f != "yolov8"@ && f != "yolox"@ && f != "yolo26"@
                ==> #[trigger] model_registry::family_of(f) is None,
{
    reveal_strlit("yolov5");
    reveal_strlit("yolov8");
    reveal_strlit("yolox");
    reveal_strlit("yolo26");
    assert("yolo26"@[4] != "yolov5"@[4]);
    assert("yolo26"@[4] != "yolov8"@[4]);
    assert("yolo26"@.len() != "yolox"@.len());
}

/// What is shown of a model is the model's own, without the files that it runs from.
pub proof fn law_summary_of_model(s: ModelSummary, m: ResolvedModel)
    requires
        state::is_summary(s, m),
    ensures
        s.display_name@ == m.display_name@,
        s.input_width == m.input_width,
        s.input_height == m.input_height,
        s.input_format@ == m.input_format@,
        s.output_format@ == m.output_format@,
        s.labels is Some <==> m.labels_display is Some,
        s.labels matches Some(t) ==> (m.labels_display matches Some(o) && t@ == o@),
        s.notes is Some <==> m.notes is Some,
        s.notes matches Some(t) ==> (m.notes matches Some(o) && t@ == o@),
{
}

/// A class map lists number and label, with a colon between the two and a comma between
/// pairs; labels have commas between them.
pub proof fn law_detection_texts(
    pairs: Seq<(String, String)>,
    p: (String, String),
    labels: Seq<String>,
    l: String,
)
    ensures
        pairs.len() > 0 ==> consumers::class_map_text(pairs.push(p)) == consumers::class_map_text(
            pairs,
        ) + ","@ + (p.0@ + ":"@ + p.1@),
        consumers::class_map_text(seq![p]) == p.0@ + ":"@ + p.1@,
        consumers::class_map_text(Seq::empty()).len() == 0,
        labels.len() > 0 ==> consumers::labels_text(labels.push(l)) == consumers::labels_text(
            labels,
        ) + ","@ + l@,
        consumers::labels_text(seq![l]) == l@,
        consumers::labels_text(Seq::empty()).len() == 0,
{
    assert(pairs.push(p).drop_last() =~= pairs);
    assert(labels.push(l).drop_last() =~= labels);
}

/// A model that names no rate runs at three frames per second. Otherwise it runs at the
/// whole rate nearest to the one that it names, at least one and at most what a pipeline
/// can be asked for. The rate is a fraction `a` over `b`.
pub proof fn law_inference_rate(fps: Option<Binary32>)
    ensures
        consumers::inference_rate(None) == 3,
        1 <= consumers::inference_rate(fps) <= 0x7fff_ffff,
        fps matches Some(x) ==> (x.is_nan() || x.negative() ==> consumers::inference_rate(fps)
            == 1),
        fps matches Some(x) ==> {
            let (a, b) = floats::magnitude(x);
            let n = consumers::inference_rate(fps);
            !x.is_nan() && !x.is_infinite() && !x.negative() && 1 < n < 0x7fff_ffff ==> 2 * (n * b)
                - b <= 2 * a <= 2 * (n * b) + b
        },
{
    if let Some(x) = fps {
        let (a, b) = floats::magnitude(x);
        let n = consumers::inference_rate(fps) as int;
        if x.scale() < 0 {
            vstd::arithmetic::power2::lemma_pow2_pos((-x.scale()) as nat);
            if !x.is_nan() && !x.is_infinite() && !x.negative() && 1 < n < 0x7fff_ffff {
                assert(n == (2 * a + b) / (2 * b));
                assert(2 * (n * b) - b <= 2 * a <= 2 * (n * b) + b) by (nonlinear_arith)
                    requires
                        n == (2 * a + b) / (2 * b),
                        b >= 1,
                ;
            }
        } else if !x.is_nan() && !x.is_infinite() && !x.negative() && 1 < n < 0x7fff_ffff {
            assert(n == a && b == 1);
            assert(n * b == n);
        }
    }
    vstd::arithmetic::power2::lemma2_to64();
    let three = Binary32 { bits: 0x4040_0000 };
    assert(three.exponent() == 128);
    assert(three.fraction() == 0x40_0000);
    assert(three.scale() == -22);
    assert(three.significand() == 12_582_912);
    assert((-three.scale()) as nat == 22);
    assert(vstd::arithmetic::power2::pow2(22) == 4_194_304);
    assert(three.rounded() == (2 * 12_582_912 + 4_194_304) / (2 * 4_194_304));
    assert(29_360_128int / 8_388_608 == 3);
    assert(three.rounded() == 3);
    assert(!three.is_nan() && !three.is_infinite() && !three.negative());
    assert(consumers::inference_rate(None) == floats::nearest(three, 0x7fff_ffff));
}

// Cameras and playback.

/// The backend of a name, and the source that it uses.
pub proof fn law_camera_backends(s: Seq<char>)
    ensures
        s == "nvargus"@ ==> producer::backend_of(s).source() == "nvarguscamerasrc"@,
        s == "v4l2"@ ==> producer::backend_of(s).source() == "v4l2src"@,
        s == "libcamera"@ ==> producer::backend_of(s).source() == "libcamerasrc"@,
        s != "nvargus"@ && s != "v4l2"@ ==> producer::backend_of(s).source() == "libcamerasrc"@,
{
    reveal_strlit("nvargus");
    reveal_strlit("v4l2");
    reveal_strlit("libcamera");
    assert("nvargus"@.len() != "v4l2"@.len());
    assert("nvargus"@.len() != "libcamera"@.len());
    assert("v4l2"@.len() != "libcamera"@.len());
}

/// At speed zero a file is not paced, at speed one it plays in real time, and a speed
/// that is negative, infinite or not a number is none. Any other is kept as it is.
pub proof fn law_playback_speeds(speed: Binary64)
    ensures
        speed.bits == 0 ==> producer::pace_spec(speed) == Some(Pace::Unpaced),
        speed.bits == 0x8000_0000_0000_0000 ==> producer::pace_spec(speed) == Some(Pace::Unpaced),
        speed.bits == 0x3ff0_0000_0000_0000 ==> producer::pace_spec(speed) == Some(Pace::Realtime),
        0x7ff0_0000_0000_0000 <= speed.bits < 0x8000_0000_0000_0000 ==> producer::pace_spec(speed)
            is None,
        speed.bits > 0x8000_0000_0000_0000 ==> producer::pace_spec(speed) is None,
        0 < speed.bits < 0x3fef_0000_0000_0000 || 0x3ff1_0000_0000_0000 <= speed.bits
            < 0x7ff0_0000_0000_0000 ==> producer::pace_spec(speed) == Some(Pace::Scaled(speed)),
{
}

/// A decoded picture is linked to the head of the picture's chain and a decoded sound to
/// the head of the sound's, each once.
pub proof fn law_decoded_streams(
    path: Seq<char>,
    pace: Pace,
    kind: Seq<char>,
    video_linked: bool,
    audio_linked: bool,
)
    ensures
        ({
            let p = producer::playback_plan(path, pace);
            let picture = producer::decoded_target("video/"@ + kind, video_linked, audio_linked);
            let sound = producer::decoded_target("audio/"@ + kind, video_linked, audio_linked);
            &&& picture is None <==> video_linked
            &&& sound is None <==> audio_linked
            &&& picture matches Some(n) ==> n < p.nodes.len() && p.nodes[n as int].name
                == "playback_producer_videoscale"@
            &&& sound matches Some(n) ==> n < p.nodes.len() && p.nodes[n as int].name
                == "playback_producer_audioconvert"@
        }),
{
    reveal_strlit("video/");
    reveal_strlit("audio/");
    let (v, a) = ("video/"@ + kind, "audio/"@ + kind);
    assert(v.subrange(0, 6) =~= "video/"@);
    assert(a.subrange(0, 6) =~= "audio/"@);
    assert(a[0] == 'a' && "video/"@[0] == 'v');
    assert(!"video/"@.is_prefix_of(a)) by {
        assert(a.subrange(0, 6)[0] == 'a');
    }
}

// Requests.

/// A recording is named as asked for, with underscores for spaces; a name with any other
/// character than letters, digits, spaces, underscores and hyphens is refused as a bad
/// request.
pub proof fn law_recording_names(r: RecordingRequest, name: Seq<char>)
    requires
        state::is_name_choice(r, Some(name)),
        name.len() > 0,
    ensures
        r matches RecordingRequest::Prepare(Some(c)) ==> c@.len() == name.len() && forall|i: int|
            #![trigger c@[i]]
            0 <= i < name.len() ==> c@[i] == if name[i] == ' ' {
                '_'
            } else {
                name[i]
            },
        r matches RecordingRequest::Refused(f) ==> f.code == 400,
        r is Prepare <==> forall|i: int|
            #![trigger name[i]]
            0 <= i < name.len() ==> ('a' <= name[i] <= 'z' || 'A' <= name[i] <= 'Z' || '0' <= name[i]
                <= '9' || name[i] == ' ' || name[i] == '_' || name[i] == '-'),
        !(r is AlreadyActive),
{
    if session::valid_name(name) {
        assert forall|i: int| #![trigger name[i]] 0 <= i < name.len() implies ('a' <= name[i] <= 'z'
            || 'A' <= name[i] <= 'Z' || '0' <= name[i] <= '9' || name[i] == ' ' || name[i] == '_'
            || name[i] == '-') by {
            assert(session::name_char(name[i]));
        }
    } else {
        let i = choose|i: int| 0 <= i < name.len() && !session::name_char(#[trigger] name[i]);
        assert(!session::name_char(name[i]));
    }
}

/// A file can be played if no recording is under way, its name ends in `.mp4`, it exists
/// and its speed will do. Otherwise the answer is a conflict under a recording, and a bad
/// request in the other cases.
pub proof fn law_replay_answers(
    r: Option<Refusal>,
    recording: bool,
    path: Seq<char>,
    there: bool,
    speed: Binary64,
)
    requires
        state::is_replay_answer(r, recording, path, there, speed),
    ensures
        r is None <==> !recording && crate::scan::ends_with(path, ".mp4"@) && there
            && producer::pace_spec(speed) is Some,
        recording ==> (r matches Some(f) && f.code == 409),
        !recording ==> (r matches Some(f) ==> f.code == 400),
        !recording && crate::scan::ends_with(path, ".mp4"@) && !there ==> (r matches Some(f)
            && f.error@ == "file not found"@ && (f.path matches Some(p) && p@ == path)),
        !recording && crate::scan::ends_with(path, ".mp4"@) && there && producer::pace_spec(speed)
            is None ==> (r matches Some(f) && f.got == Some(speed)),
{
}

/// A replay stands where the time since its start has brought it, until it is at its
/// end.
pub proof fn law_replay_moves_with_time(r: ReplayState, elapsed_ns: u64)
    requires
        r.active,
        r.started_ns is Some,
        r.started_ns->0 + elapsed_ns <= u64::MAX,
    ensures
        ({
            let now = (r.started_ns->0 + elapsed_ns) as u64;
            &&& elapsed_ns <= r.duration_ns ==> state::replay_position(r, now) == elapsed_ns
            &&& elapsed_ns >= r.duration_ns ==> state::replay_position(r, now) == r.duration_ns
        }),
{
}

/// How early a pipeline is stopped: first the stream, then the recording's picture and
/// its sound, then detection, then frame export, and the producer last.
pub open spec fn stop_rank(k: PipelineKind) -> int {
    match k {
        PipelineKind::Streaming => 0,
        PipelineKind::RecordingVideo => 1,
        PipelineKind::RecordingAudio => 2,
        PipelineKind::Ai => 3,
        PipelineKind::FrameExport => 4,
        PipelineKind::Live => 5,
    }
}

/// In the order of stopping, and each once.
pub open spec fn in_stop_order(list: Seq<PipelineKind>) -> bool {
    forall|i: int, j: int|
        #![trigger list[i], list[j]]
        0 <= i < j < list.len() ==> stop_rank(list[i]) < stop_rank(list[j])
}

/// One more pipeline, which is stopped after all those before it.
proof fn lemma_one_more(a: Seq<PipelineKind>, there: bool, kind: PipelineKind)
    requires
        in_stop_order(a),
        forall|i: int| 0 <= i < a.len() ==> stop_rank(#[trigger] a[i]) < stop_rank(kind),
    ensures
        ({
            let b = a + state::only(there, kind);
            &&& in_stop_order(b)
            &&& forall|i: int| 0 <= i < b.len() ==> stop_rank(#[trigger] b[i]) <= stop_rank(kind)
            &&& forall|k: PipelineKind| #[trigger]
                b.contains(k) <==> a.contains(k) || there && k == kind
        }),
{
    let o = state::only(there, kind);
    let b = a + o;
    assert forall|i: int, j: int|
        #![trigger b[i], b[j]]
        0 <= i < j < b.len() implies stop_rank(b[i]) < stop_rank(b[j]) by {
        assert(b[i] == a[i]);
        if j < a.len() {
            assert(b[j] == a[j]);
        }
    }
    assert forall|k: PipelineKind| #[trigger] b.contains(k) <==> a.contains(k) || there && k == kind by {
        if a.contains(k) {
            let i = choose|i: int| 0 <= i < a.len() && a[i] == k;
            assert(b[i] == k);
        }
        if there && k == kind {
            assert(b[a.len() as int] == k);
        }
        if b.contains(k) {
            let i = choose|i: int| 0 <= i < b.len() && b[i] == k;
            if i < a.len() {
                assert(a[i] == k);
            }
        }
    }
}

/// The pipelines to stop are those that exist, each once: first the stream, then the
/// recording's picture and its sound, then detection, then frame export, and the producer
/// last.
pub proof fn law_everything_is_stopped(s: Slots)
    ensures
        ({
            let list = state::stop_order(s);
            &&& in_stop_order(list)
            &&& list.contains(PipelineKind::Streaming) <==> s.streaming
            &&& list.contains(PipelineKind::RecordingVideo) <==> s.recording is Some
            &&& list.contains(PipelineKind::RecordingAudio) <==> (s.recording matches Some(r)
                && r.audio)
            &&& list.contains(PipelineKind::Ai) <==> s.ai
            &&& list.contains(PipelineKind::FrameExport) <==> s.frame_export
            &&& list.contains(PipelineKind::Live) <==> s.live is Some
        }),
{
    let none = Seq::<PipelineKind>::empty();
    let sound = s.recording matches Some(r) && r.audio;
    lemma_one_more(none, s.streaming, PipelineKind::Streaming);
    let a = state::only(s.streaming, PipelineKind::Streaming);
    assert(none + a =~= a);
    lemma_one_more(a, s.recording is Some, PipelineKind::RecordingVideo);
    let b = a + state::only(s.recording is Some, PipelineKind::RecordingVideo);
    lemma_one_more(b, sound, PipelineKind::RecordingAudio);
    let c = b + state::only(sound, PipelineKind::RecordingAudio);
    assert(c =~= a + state::recording_part(s));
    lemma_one_more(c, s.ai, PipelineKind::Ai);
    let d = c + state::only(s.ai, PipelineKind::Ai);
    lemma_one_more(d, s.frame_export, PipelineKind::FrameExport);
    let e = d + state::only(s.frame_export, PipelineKind::FrameExport);
    lemma_one_more(e, s.live is Some, PipelineKind::Live);
}

/// Stopping all pipelines ends a stream and a recording that had one, and leaves the rest
/// of the status.
pub proof fn law_teardown_ends_stream_and_recording(s: Service)
    requires
        s.wf(),
    ensures
        ({
            let t = state::torn_down(s);
            &&& s.slots.streaming ==> !t.status.streaming_enabled
            &&& !s.slots.streaming ==> t.status.streaming_enabled == s.status.streaming_enabled
            &&& !t.status.recording_active
            &&& t.status.state == s.status.state
            &&& t.status.input_source == s.status.input_source
            &&& t.slots.live is None && t.slots.recording is None
            &&& !t.slots.streaming && !t.slots.ai && !t.slots.frame_export
            &&& t.ai_dirty == s.ai_dirty && t.replay == s.replay
        }),
{
}

/// A new model is taken note of, and has the pipelines that run built anew, unless a
/// recording is under way.
pub proof fn law_new_model_rebuilds(s: Service)
    requires
        s.wf(),
    ensures
        ({
            let (after, list) = state::invalidated(s);
            &&& after.ai_dirty
            &&& list is Some <==> s.slots.live is Some && !s.status.recording_active
            &&& list is Some ==> after.status.state == MediaState::Idle && after.slots.live is None
                && list == Some(state::stop_order(s.slots))
            &&& list is None ==> after.slots == s.slots && after.status == s.status
        }),
{
}

/// The end of a recording is the end of it alone.
pub proof fn law_stopped_recording(s: Service)
    ensures
        ({
            let t = state::stopped_recording(s);
            &&& !t.status.recording_active
            &&& t.status.recording_started_at is None
            &&& t.slots.recording is Some <==> s.slots.recording is Some
            &&& t.slots.recording matches Some(p) ==> !p.active && p.audio
                == s.slots.recording->0.audio
            &&& t.slots.live == s.slots.live && t.slots.streaming == s.slots.streaming
            &&& t.slots.ai == s.slots.ai && t.slots.frame_export == s.slots.frame_export
            &&& s.slots.live is Some ==> t.status.state == s.status.state
            &&& s.slots.live is None ==> t.status.state == MediaState::Idle
            &&& t.status.streaming_enabled == s.status.streaming_enabled
        }),
{
}

/// A failure is reported by the element that failed and why, and for its own pipeline
/// alone; a pipeline that ends though it never should is given up as well.
pub proof fn law_failures_are_told(source: String, reason: String)
    ensures
        watch::reason_of(BusEvent::Quiet) is None,
        source@.len() > 0 ==> watch::reason_of(BusEvent::Failed { source, reason }) == Some(
            source@ + ": "@ + reason@,
        ),
        source@.len() == 0 ==> watch::reason_of(BusEvent::Failed { source, reason }) == Some(
            reason@,
        ),
        watch::reason_of(BusEvent::Ended) == Some("unexpected EOS on long-lived consumer"@),
{
}

/// The reason is reported where it belongs, and the other reports stay.
pub proof fn law_failure_reported_for_its_pipeline(
    s: Service,
    kind: state::ConsumerKind,
    detail: String,
)
    ensures
        ({
            let f = state::after_failure(s, kind, detail).status;
            &&& kind is FrameExport ==> f.frame_export_error == Some(detail) && f.ai_error
                == s.status.ai_error && f.recording_error == s.status.recording_error
            &&& kind is Ai ==> f.ai_error == Some(detail) && f.frame_export_error
                == s.status.frame_export_error && f.recording_error == s.status.recording_error
            &&& kind is RecordingVideo || kind is RecordingAudio ==> f.recording_error == Some(
                detail,
            ) && f.ai_error == s.status.ai_error && f.frame_export_error
                == s.status.frame_export_error
            &&& f.streaming_error == s.status.streaming_error
        }),
        ({
            let f = state::after_failure(s, kind, detail).slots;
            &&& kind is FrameExport ==> !f.frame_export
            &&& kind is Ai ==> !f.ai
            &&& kind is RecordingVideo || kind is RecordingAudio ==> f.recording is None
        }),
        ({
            let lost = state::lost_with(s.slots, kind);
            &&& kind is FrameExport ==> (lost.len() > 0 <==> s.slots.frame_export)
            &&& kind is FrameExport && lost.len() > 0 ==> lost == seq![PipelineKind::FrameExport]
            &&& kind is Ai ==> (lost.len() > 0 <==> s.slots.ai)
            &&& kind is Ai && lost.len() > 0 ==> lost == seq![PipelineKind::Ai]
            &&& kind is RecordingVideo || kind is RecordingAudio ==> match s.slots.recording {
                None => lost.len() == 0,
                Some(r) => lost[0] == PipelineKind::RecordingVideo && (r.audio ==> lost.len() == 2
                    && lost[1] == PipelineKind::RecordingAudio) && (!r.audio ==> lost.len() == 1),
            }
        }),
{
}

// Starts.

/// A pipeline that was started is there afterwards, and its earlier failure is forgotten;
/// one that was not is no more there than before. The recording has sound exactly where
/// its sound pipeline was built.
pub proof fn law_started_pipelines_are_there(u: Startup, ok: bool, s: Service)
    requires
        u.wf(),
    ensures
        ({
            let (v, t) = u.after(ok, s);
            &&& u.step is StartFrameExport ==> t.slots.frame_export == (ok || s.slots.frame_export)
            &&& u.step is StartFrameExport && ok ==> t.status.frame_export_error is None
            &&& !(u.step is StartFrameExport) ==> t.slots.frame_export == s.slots.frame_export
            &&& u.step is StartAi ==> t.slots.ai == (ok || s.slots.ai)
            &&& u.step is StartAi && ok ==> t.status.ai_error is None
            &&& !(u.step is StartAi) ==> t.slots.ai == s.slots.ai
            &&& u.step is StartRecordingVideo && !u.audio_built && ok ==> (
            t.slots.recording matches Some(r) && !r.audio && !r.active)
                && t.status.recording_error is None
            &&& u.step is StartRecordingVideo && (u.audio_built || !ok) ==> t.slots.recording
                == s.slots.recording
            &&& u.step is StartRecordingAudio && u.video_started ==> (
            t.slots.recording matches Some(r) && r.audio == u.audio_built && !r.active)
            &&& u.step is StartRecordingAudio && !u.video_started ==> t.slots.recording
                == s.slots.recording
            &&& t.slots.streaming == s.slots.streaming
        }),
{
}

/// Detection is built only where it is wanted, sound is recorded only where it is
/// published, and what was built is started.
pub proof fn law_steps_follow(u: Startup, ok: bool, s: Service)
    requires
        u.wf(),
    ensures
        ({
            let next = u.after(ok, s).0.step;
            &&& u.step is BuildLive && ok ==> (next is BuildAi <==> u.wants_ai)
            &&& u.step is BuildLive && ok && !u.wants_ai ==> next is BuildFrameExport
            &&& u.step is BuildAi ==> next is BuildFrameExport && u.after(ok, s).0.ai_built == ok
            &&& u.step is BuildFrameExport ==> next is StartLive && u.after(
                ok,
                s,
            ).0.frame_export_built == ok
            &&& u.step is StartLive && ok ==> (next is StartFrameExport <==> u.frame_export_built)
            &&& u.step is StartFrameExport ==> next is BuildRecordingVideo
            &&& u.step is BuildRecordingVideo && ok ==> (next is BuildRecordingAudio
                <==> u.live_audio)
            &&& u.step is BuildRecordingVideo && ok && !u.live_audio ==> next is StartRecordingVideo
            &&& u.step is BuildRecordingVideo && !ok ==> (next is StartAi <==> u.ai_built)
            &&& u.step is BuildRecordingAudio ==> next is StartRecordingVideo && u.after(
                ok,
                s,
            ).0.audio_built == ok
            &&& u.step is StartRecordingVideo && u.audio_built ==> next is StartRecordingAudio
            &&& u.step is StartRecordingVideo && !u.audio_built && !ok ==> next is DiscardRecording
            &&& u.step is StartRecordingAudio && !u.video_started ==> next is DiscardRecording
            &&& u.step is StartRecordingAudio && u.video_started ==> (next is StartAi
                <==> u.ai_built)
            &&& u.step is DiscardRecording ==> (next is StartAi <==> u.ai_built)
            &&& u.step is StartAi ==> (ok ==> next == StartupStep::Finished(true)) && (!ok
                ==> next is DiscardAi)
            &&& u.step is DiscardAi ==> next == StartupStep::Finished(true)
        }),
{
}

/// A model is listed if and only if it is switched on, is of the scope that is asked
/// for, has a name that no other of its scope has, and has its files.
pub proof fn law_listed_models(
    all: Seq<Sidecar>,
    scope: Option<ModelScope>,
    list: Seq<usize>,
    i: usize,
)
    requires
        model_registry::is_listing(all, scope, list),
        i < all.len(),
    ensures
        ({
            let m = all[i as int];
            list.contains(i) <==> {
                &&& m.def.active
                &&& scope matches Some(s) ==> m.def.scope == s
                &&& m.def.runtime@ == "hailo"@ ==> m.hef_exists && m.so_exists && m.def.hef_path is
                    Some && m.def.postprocess.so_path@.len() > 0
                    && m.def.postprocess.function_name@.len() > 0
                &&& m.def.runtime@ != "hailo"@ ==> m.model_exists && m.def.model_path is Some
                &&& forall|j: int|
                    #![trigger all[j]]
                    0 <= j < all.len() && j != i && all[j].def.scope == m.def.scope
                        ==> all[j].def.display_name@ != m.def.display_name@
            }
        }),
{
    assert(list.contains(i) <==> model_registry::listed(all, scope, i as int));
}

/// The list is by name: of two names the one with the lower character at the first
/// place where they differ comes first.
pub proof fn law_models_by_name(
    all: Seq<Sidecar>,
    scope: Option<ModelScope>,
    list: Seq<usize>,
    a: int,
    b: int,
    common: Seq<char>,
    c: char,
    d: char,
    after_c: Seq<char>,
    after_d: Seq<char>,
)
    requires
        model_registry::is_listing(all, scope, list),
        0 <= a < list.len(),
        0 <= b < list.len(),
        all[list[a] as int].def.display_name@ == common.push(c) + after_c,
        all[list[b] as int].def.display_name@ == common.push(d) + after_d,
        c < d,
    ensures
        a < b,
{
    crate::host_laws::law_order_of_texts(common, c, d, after_c, after_d);
    if a > b {
        assert(!crate::scan::precedes(
            all[list[a] as int].def.display_name@,
            all[list[b] as int].def.display_name@,
        ));
    }
    if a == b {
        assert((common.push(c) + after_c)[common.len() as int] == c);
        assert((common.push(d) + after_d)[common.len() as int] == d);
    }
}

/// A model file of a known family that names no library or no function has the
/// family's. What it names itself stays.
pub proof fn law_family_fills_in(tree: Json, post: Json, format: Seq<char>, f: FamilyFill)
    requires
        model_registry::tree_fill(tree, f),
        tree.member("postprocess"@) == Some(post),
        post.text_member("output_format"@) == Some(format),
    ensures
        model_registry::family_of(format) matches Some((library, function)) ==> {
            &&& post.member("so_path"@) is None ==> (f.so_path matches Some(p) && p@ == library)
            &&& post.member("function_name"@) is None ==> (f.function_name matches Some(n) && n@
                == function)
        },
        model_registry::family_of(format) is None ==> f.so_path is None && f.function_name is None,
        post.member("so_path"@) is Some ==> f.so_path is None,
        post.member("function_name"@) is Some ==> f.function_name is None,
{
}

/// The labels of a model file are read in their order.
pub proof fn law_labels_in_order(
    tree: Json,
    items: Seq<Json>,
    r: Result<Option<ModelLabels>, Malformed>,
    i: int,
)
    requires
        model_registry::is_labels(tree, r),
        tree.member("labels"@) == Some(Json::List(items)),
        forall|k: int| 0 <= k < items.len() ==> (#[trigger] items[k]) is Text,
        0 <= i < items.len(),
    ensures
        r matches Ok(Some(ModelLabels::IndexMap(v))) && v@.len() == items.len() && items[i]
            == Json::Text(v@[i]@),
{
    let v = r->Ok_0->Some_0->IndexMap_0;
    assert(crate::scan::texts(v@).len() == v@.len());
    assert(crate::scan::texts(v@)[i] == v@[i]@);
    assert(items[i] is Text);
}

/// Each class of a model file has the label that the file gives for it.
pub proof fn law_labels_by_class(
    tree: Json,
    m: Map<Seq<char>, Json>,
    r: Result<Option<Vec<(String, String)>>, Malformed>,
    class: Seq<char>,
    label: Seq<char>,
)
    requires
        model_registry::is_class_map(tree, r),
        tree.member("class_map"@) == Some(Json::Object(m)),
        forall|k: Seq<char>| #[trigger] m.contains_key(k) ==> m[k] is Text,
    ensures
        r matches Ok(Some(pairs)) && ((m.contains_key(class) && m[class] == Json::Text(label))
            <==> exists|i: int|
            #![trigger pairs@[i]]
            0 <= i < pairs@.len() && pairs@[i].0@ == class && pairs@[i].1@ == label),
{
    let pairs = r->Ok_0->Some_0;
    assert(model_registry::are_members(pairs@, m));
    if m.contains_key(class) && m[class] == Json::Text(label) {
        let i = choose|i: int| 0 <= i < pairs@.len() && (#[trigger] pairs@[i]).0@ == class;
        assert(m[pairs@[i].0@] == Json::Text(pairs@[i].1@));
    }
}

} // verus!
