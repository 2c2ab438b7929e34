//! The pipelines that read the producer's channels: frame export, streaming,
//! recording and detection.
//!
//! Each is a pipeline of its own, so that one that stalls holds up neither the
//! producer nor the others.
use crate::floats;
use crate::floats::{nearest_whole, Binary32};
use crate::graph;
use crate::graph::{Candidate, Element, Make, Node, PipelinePlan, Plan, Setting, Val};
use crate::pipeline::ResolvedModel;
use crate::producer;
use crate::producer::{AUDIO_CHANNEL_RECORDING, AUDIO_CHANNEL_STREAMING, VIDEO_CHANNEL};
use crate::text;
use vstd::prelude::*;
use vstd::string::StringExecFns;

verus! {

/// The sink from which exported frames are taken.
pub const FRAME_EXPORT_APPSINK_NAME: &'static str = "frame_export_sink";

/// The sink from which annotated frames are taken.
pub const AI_APPSINK_NAME: &'static str = "ai_sink";

// Elements that several pipelines share.

/// A reader of the video channel. It keeps the producer's time stamps unless
/// it is told to stamp anew.
pub open spec fn video_reader(name: Seq<char>, restamp: bool) -> Node {
    graph::named(
        name,
        graph::bare("intervideosrc"@).with("channel"@, Val::Text(VIDEO_CHANNEL@)).with(
            "do-timestamp"@,
            Val::Flag(restamp),
        ),
    )
}

fn make_video_reader(name: &str, restamp: bool) -> (e: Element)
    ensures
        e@ == video_reader(name@, restamp),
{
    Element::new(
        name,
        Candidate::new("intervideosrc").text("channel", VIDEO_CHANNEL).flag("do-timestamp", restamp),
    )
}

/// A reader of an audio channel.
pub open spec fn audio_reader(name: Seq<char>, channel: Seq<char>, restamp: bool) -> Node {
    graph::named(
        name,
        graph::bare("interaudiosrc"@).with("channel"@, Val::Text(channel)).with(
            "do-timestamp"@,
            Val::Flag(restamp),
        ),
    )
}

fn make_audio_reader(name: &str, channel: &str, restamp: bool) -> (e: Element)
    ensures
        e@ == audio_reader(name@, channel@, restamp),
{
    Element::new(
        name,
        Candidate::new("interaudiosrc").text("channel", channel).flag("do-timestamp", restamp),
    )
}

/// A queue bounded by its count of buffers, which drops the oldest when full.
pub open spec fn counted_queue(name: Seq<char>, buffers: u32) -> Node {
    graph::named(
        name,
        graph::bare("queue"@).with("max-size-buffers"@, Val::U32(buffers)).with(
            "max-size-bytes"@,
            Val::U32(0),
        ).with("max-size-time"@, Val::U64(0)).with("leaky"@, Val::Nick("downstream"@)),
    )
}

fn make_counted_queue(name: &str, buffers: u32) -> (e: Element)
    ensures
        e@ == counted_queue(name@, buffers),
{
    Element::new(
        name,
        Candidate::new("queue").u32("max-size-buffers", buffers).u32("max-size-bytes", 0).u64(
            "max-size-time",
            0,
        ).nick("leaky", "downstream"),
    )
}

/// An element with every property at its default.
pub open spec fn plain(name: Seq<char>, factory: Seq<char>) -> Node {
    graph::named(name, graph::bare(factory))
}

pub(crate) fn make_plain(name: &str, factory: &str) -> (e: Element)
    ensures
        e@ == plain(name@, factory@),
{
    Element::new(name, Candidate::new(factory))
}

/// A filter that lets only the given capabilities through.
pub open spec fn filter(name: Seq<char>, caps: Seq<char>) -> Node {
    graph::named(name, graph::bare("capsfilter"@).with("caps"@, Val::Caps(caps)))
}

pub(crate) fn make_filter(name: &str, caps: &str) -> (e: Element)
    ensures
        e@ == filter(name@, caps@),
{
    Element::new(name, Candidate::new("capsfilter").caps(caps))
}

/// A gate that starts closed.
pub open spec fn closed_valve(name: Seq<char>) -> Node {
    graph::named(name, graph::bare("valve"@).with("drop"@, Val::Flag(true)))
}

fn make_closed_valve(name: &str) -> (e: Element)
    ensures
        e@ == closed_valve(name@),
{
    Element::new(name, Candidate::new("valve").flag("drop", true))
}

/// A file sink that discards what it gets until a recording gives it a path,
/// and that never waits for a first buffer.
pub open spec fn idle_file_sink(name: Seq<char>) -> Node {
    graph::named(
        name,
        graph::bare("filesink"@).with("location"@, Val::Text("/dev/null"@)).with(
            "async"@,
            Val::Flag(false),
        ).with("sync"@, Val::Flag(false)),
    )
}

fn make_idle_file_sink(name: &str) -> (e: Element)
    ensures
        e@ == idle_file_sink(name@),
{
    Element::new(
        name,
        Candidate::new("filesink").text("location", "/dev/null").flag("async", false).flag(
            "sync",
            false,
        ),
    )
}

// Frame export.

/// The frame export pipeline.
pub open spec fn frame_export_plan() -> Plan {
    graph::empty_plan("frame_export_consumer_pipeline"@).add(
        video_reader("frame_export_intervideosrc"@, false),
    ).append(counted_queue("frame_export_queue"@, 2)).append(
        graph::named(
            FRAME_EXPORT_APPSINK_NAME@,
            graph::bare("appsink"@).with("max-buffers"@, Val::U32(2)).with(
                "drop"@,
                Val::Flag(true),
            ).with("sync"@, Val::Flag(false)),
        ),
    )
}

/// Plan the frame export pipeline: channel, leaky queue, application sink.
pub fn build_frame_export_consumer_pipeline() -> (plan: PipelinePlan)
    ensures
        plan@ == frame_export_plan(),
{
    let mut plan: PipelinePlan = PipelinePlan::new("frame_export_consumer_pipeline");
    plan.add(make_video_reader("frame_export_intervideosrc", false));
    plan.append(make_counted_queue("frame_export_queue", 2));
    plan.append(
        Element::new(
            FRAME_EXPORT_APPSINK_NAME,
            Candidate::new("appsink").u32("max-buffers", 2).flag("drop", true).flag("sync", false),
        ),
    );
    plan
}

// Streaming.

/// A queue of two seconds, which drops the oldest when full.
pub open spec fn two_second_queue(name: Seq<char>) -> Node {
    graph::named(
        name,
        graph::bare("queue"@).with("leaky"@, Val::Nick("downstream"@)).with(
            "max-size-time"@,
            Val::U64(2_000_000_000),
        ).with("max-size-buffers"@, Val::U32(0)).with("max-size-bytes"@, Val::U32(0)),
    )
}

fn make_two_second_queue(name: &str) -> (e: Element)
    ensures
        e@ == two_second_queue(name@),
{
    Element::new(
        name,
        Candidate::new("queue").nick("leaky", "downstream").u64(
            "max-size-time",
            2_000_000_000,
        ).u32("max-size-buffers", 0).u32("max-size-bytes", 0),
    )
}

/// The same rate in bits per second, as far as a 32-bit number holds it.
pub open spec fn bits_per_second(kbps: u32) -> u32 {
    if kbps * 1000 <= u32::MAX {
        (kbps * 1000) as u32
    } else {
        u32::MAX
    }
}

/// The stream's encoder. The fallback takes its rate in bits per second.
pub open spec fn stream_encoder(kbps: u32, fps: u32) -> Node {
    graph::named(
        "stream_encoder"@,
        graph::bare("x264enc"@).with("speed-preset"@, Val::Nick("ultrafast"@)).with(
            "threads"@,
            Val::U32(1),
        ).with("bitrate"@, Val::U32(kbps)).with("key-int-max"@, Val::U32(fps)).with(
            "tune"@,
            Val::Nick("zerolatency"@),
        ),
    ).or(graph::bare("openh264enc"@).with("bitrate"@, Val::U32(bits_per_second(kbps))))
}

fn make_stream_encoder(kbps: u32, fps: u32) -> (e: Element)
    ensures
        e@ == stream_encoder(kbps, fps),
{
    let bps: u32 = match kbps.checked_mul(1000) {
        Some(b) => b,
        None => u32::MAX,
    };
    Element::new(
        "stream_encoder",
        Candidate::new("x264enc").nick("speed-preset", "ultrafast").u32("threads", 1).u32(
            "bitrate",
            kbps,
        ).u32("key-int-max", fps).nick("tune", "zerolatency"),
    ).or(Candidate::new("openh264enc").u32("bitrate", bps))
}

/// A sink that sends to `url` without waiting for the clock.
pub open spec fn rtmp_sink(factory: Seq<char>, url: Seq<char>) -> Make {
    graph::bare(factory).with("location"@, Val::Text(url)).with("sync"@, Val::Flag(false)).with(
        "async"@,
        Val::Flag(false),
    )
}

/// Where the stream goes. A benchmark discards it.
pub open spec fn stream_sink(url: Seq<char>, benchmark: bool) -> Node {
    if benchmark {
        graph::named(
            "stream_sink"@,
            graph::bare("fakesink"@).with("sync"@, Val::Flag(false)).with(
                "async"@,
                Val::Flag(false),
            ),
        )
    } else {
        graph::named("stream_sink"@, rtmp_sink("rtmpsink"@, url)).or(
            rtmp_sink("rtmp2sink"@, url),
        )
    }
}

/// Plan the stream's sink.
pub fn make_stream_sink(rtmp_url: &str, benchmark: bool) -> (e: Element)
    ensures
        e@ == stream_sink(rtmp_url@, benchmark),
{
    if benchmark {
        Element::new(
            "stream_sink",
            Candidate::new("fakesink").flag("sync", false).flag("async", false),
        )
    } else {
        Element::new(
            "stream_sink",
            Candidate::new("rtmpsink").text("location", rtmp_url).flag("sync", false).flag(
                "async",
                false,
            ),
        ).or(
            Candidate::new("rtmp2sink").text("location", rtmp_url).flag("sync", false).flag(
                "async",
                false,
            ),
        )
    }
}

/// The picture side of the stream, up to the sink: scaled down and slowed down
/// first, then painted over, encoded and multiplexed.
pub open spec fn stream_video(url: Seq<char>, kbps: u32, fps: u32, benchmark: bool) -> Plan {
    graph::empty_plan("streaming_consumer_pipeline"@).add(
        video_reader("stream_intervideosrc"@, true),
    ).append(two_second_queue("stream_queue"@)).append(
        plain("stream_videoscale"@, "videoscale"@),
    ).append(
        graph::named(
            "stream_videorate"@,
            graph::bare("videorate"@).with("skip-to-first"@, Val::Flag(true)),
        ),
    ).append(
        filter(
            "stream_downscale_caps"@,
            "video/x-raw,width=1280,height=720,framerate=15/1"@,
        ),
    ).append(plain("stream_pre_convert"@, "videoconvert"@)).append(
        plain("stream_cairooverlay"@, "cairooverlay"@),
    ).append(plain("stream_post_convert"@, "videoconvert"@)).append(
        stream_encoder(kbps, fps),
    ).append(
        graph::named(
            "stream_h264parse"@,
            graph::bare("h264parse"@).with("config-interval"@, Val::I32((-1) as i32)),
        ),
    ).append(
        filter("stream_avc_capsfilter"@, "video/x-h264,stream-format=avc,alignment=au"@),
    ).add(
        graph::named(
            "stream_flvmux"@,
            graph::bare("flvmux"@).with("streamable"@, Val::Flag(true)).with(
                "latency"@,
                Val::U64(1_000_000_000),
            ),
        ),
    ).add(stream_sink(url, benchmark)).link_pad(10, 11, "video"@).link(11, 12)
}

fn plan_stream_video(rtmp_url: &str, kbps: u32, fps: u32, benchmark: bool) -> (plan: PipelinePlan)
    ensures
        plan@ == stream_video(rtmp_url@, kbps, fps, benchmark),
{
    let mut plan: PipelinePlan = PipelinePlan::new("streaming_consumer_pipeline");
    plan.add(make_video_reader("stream_intervideosrc", true));
    plan.append(make_two_second_queue("stream_queue"));
    plan.append(make_plain("stream_videoscale", "videoscale"));
    plan.append(
        Element::new("stream_videorate", Candidate::new("videorate").flag("skip-to-first", true)),
    );
    plan.append(
        make_filter("stream_downscale_caps", "video/x-raw,width=1280,height=720,framerate=15/1"),
    );
    plan.append(make_plain("stream_pre_convert", "videoconvert"));
    plan.append(make_plain("stream_cairooverlay", "cairooverlay"));
    plan.append(make_plain("stream_post_convert", "videoconvert"));
    plan.append(make_stream_encoder(kbps, fps));
    plan.append(
        Element::new("stream_h264parse", Candidate::new("h264parse").i32("config-interval", -1)),
    );
    plan.append(
        make_filter("stream_avc_capsfilter", "video/x-h264,stream-format=avc,alignment=au"),
    );
    plan.add(
        Element::new(
            "stream_flvmux",
            Candidate::new("flvmux").flag("streamable", true).u64("latency", 1_000_000_000),
        ),
    );
    plan.add(make_stream_sink(rtmp_url, benchmark));
    plan.link_pad(10, 11, "video");
    plan.link(11, 12);
    plan
}

/// The streaming pipeline. Its sound comes from the streaming audio channel;
/// without a microphone it is silence, for receivers drop a stream that has no
/// sound track.
pub open spec fn streaming_plan(
    url: Seq<char>,
    kbps: u32,
    fps: u32,
    has_audio: bool,
    benchmark: bool,
) -> Plan {
    let encoded = stream_video(url, kbps, fps, benchmark).add(
        two_second_queue("audio_stream_queue"@),
    ).add(plain("audio_stream_encoder"@, "voaacenc"@).or(graph::bare("avenc_aac"@))).add(
        plain("audio_stream_aacparse"@, "aacparse"@),
    );
    let fed = if has_audio {
        encoded.add(
            audio_reader("stream_interaudiosrc"@, AUDIO_CHANNEL_STREAMING@, true),
        ).link(16, 13)
    } else {
        encoded.add(
            graph::named(
                "audio_silence_src"@,
                graph::bare("audiotestsrc"@).with("wave"@, Val::Nick("silence"@)).with(
                    "is-live"@,
                    Val::Flag(true),
                ),
            ),
        ).append(filter("audio_silence_capsfilter"@, producer::AUDIO_CAPS@)).link(17, 13)
    };
    fed.link(13, 14).link(14, 15).link_pad(15, 11, "audio"@)
}

/// Plan the streaming pipeline.
pub fn build_streaming_consumer_pipeline(
    rtmp_url: &str,
    stream_bitrate_kbps: u32,
    fps: u32,
    has_audio: bool,
    benchmark: bool,
) -> (plan: PipelinePlan)
    ensures
        plan@ == streaming_plan(rtmp_url@, stream_bitrate_kbps, fps, has_audio, benchmark),
{
    let mut plan: PipelinePlan = plan_stream_video(rtmp_url, stream_bitrate_kbps, fps, benchmark);
    plan.add(make_two_second_queue("audio_stream_queue"));
    plan.add(make_plain("audio_stream_encoder", "voaacenc").or(Candidate::new("avenc_aac")));
    plan.add(make_plain("audio_stream_aacparse", "aacparse"));
    if has_audio {
        plan.add(make_audio_reader("stream_interaudiosrc", AUDIO_CHANNEL_STREAMING, true));
        plan.link(16, 13);
    } else {
        plan.add(
            Element::new(
                "audio_silence_src",
                Candidate::new("audiotestsrc").nick("wave", "silence").flag("is-live", true),
            ),
        );
        plan.append(make_filter("audio_silence_capsfilter", producer::AUDIO_CAPS));
        plan.link(17, 13);
    }
    plan.link(13, 14);
    plan.link(14, 15);
    plan.link_pad(15, 11, "audio");
    plan
}

// Recording.

/// The picture side of a recording, gated until a recording runs.
pub open spec fn recording_video_plan(fps: u32, kbps: u32) -> Plan {
    graph::empty_plan("recording_video_consumer_pipeline"@).add(
        video_reader("rec_intervideosrc"@, false),
    ).append(closed_valve("rec_valve"@)).append(counted_queue("rec_queue"@, 60)).append(
        plain("rec_videoconvert"@, "videoconvert"@),
    ).append(
        graph::named(
            "rec_encoder"@,
            graph::bare("x264enc"@).with("speed-preset"@, Val::Nick("ultrafast"@)).with(
                "tune"@,
                Val::Nick("zerolatency"@),
            ).with("threads"@, Val::U32(0)).with("bitrate"@, Val::U32(kbps)).with(
                "key-int-max"@,
                Val::U32(fps),
            ),
        ),
    ).append(idle_file_sink("rec_filesink"@))
}

/// Plan the picture side of a recording. The encoder has no fallback.
pub fn build_recording_video_consumer_pipeline(fps: u32, bitrate_kbps: u32) -> (plan: PipelinePlan)
    ensures
        plan@ == recording_video_plan(fps, bitrate_kbps),
{
    let mut plan: PipelinePlan = PipelinePlan::new("recording_video_consumer_pipeline");
    plan.add(make_video_reader("rec_intervideosrc", false));
    plan.append(make_closed_valve("rec_valve"));
    plan.append(make_counted_queue("rec_queue", 60));
    plan.append(make_plain("rec_videoconvert", "videoconvert"));
    plan.append(
        Element::new(
            "rec_encoder",
            Candidate::new("x264enc").nick("speed-preset", "ultrafast").nick(
                "tune",
                "zerolatency",
            ).u32("threads", 0).u32("bitrate", bitrate_kbps).u32("key-int-max", fps),
        ),
    );
    plan.append(make_idle_file_sink("rec_filesink"));
    plan
}

/// The sound side of a recording.
pub open spec fn recording_audio_plan() -> Plan {
    graph::empty_plan("recording_audio_consumer_pipeline"@).add(
        audio_reader("rec_interaudiosrc"@, AUDIO_CHANNEL_RECORDING@, false),
    ).append(closed_valve("audio_rec_valve"@)).append(plain("audio_rec_queue"@, "queue"@)).append(
        plain("audio_rec_encoder"@, "flacenc"@),
    ).append(idle_file_sink("audio_rec_filesink"@))
}

/// Plan the sound side of a recording.
pub fn build_recording_audio_consumer_pipeline() -> (plan: PipelinePlan)
    ensures
        plan@ == recording_audio_plan(),
{
    let mut plan: PipelinePlan = PipelinePlan::new("recording_audio_consumer_pipeline");
    plan.add(make_audio_reader("rec_interaudiosrc", AUDIO_CHANNEL_RECORDING, false));
    plan.append(make_closed_valve("audio_rec_valve"));
    plan.append(make_plain("audio_rec_queue", "queue"));
    plan.append(make_plain("audio_rec_encoder", "flacenc"));
    plan.append(make_idle_file_sink("audio_rec_filesink"));
    plan
}

// Detection.

/// The bits of three, the rate at which a model runs when it names none.
pub const DEFAULT_INFERENCE_BITS: u32 = 0x4040_0000;

/// The highest rate that a pipeline can be asked for.
pub const MOST_INFERENCE_FPS: u32 = 0x7fff_ffff;

/// The rate at which a model runs, in whole frames per second.
pub open spec fn inference_rate(fps: Option<Binary32>) -> u32 {
    floats::nearest(
        match fps {
            Some(f) => f,
            None => (Binary32 { bits: DEFAULT_INFERENCE_BITS }),
        },
        MOST_INFERENCE_FPS,
    )
}

/// What a model wants to see.
pub open spec fn model_caps(format: Seq<char>, width: u32, height: u32) -> Seq<char> {
    "video/x-raw,format="@ + format + ",width="@ + text::decimal(width as nat) + ",height="@
        + text::decimal(height as nat)
}

fn model_caps_text(format: &str, width: u32, height: u32) -> (s: String)
    ensures
        s@ == model_caps(format@, width, height),
{
    let mut s: String = "video/x-raw,format=".to_owned();
    s.append(format);
    s.append(",width=");
    text::push_decimal(&mut s, width as u64);
    s.append(",height=");
    text::push_decimal(&mut s, height as u64);
    s
}

/// A frame rate as capabilities.
pub open spec fn rate_caps(rate: u32) -> Seq<char> {
    "video/x-raw,framerate="@ + text::decimal(rate as nat) + "/1"@
}

fn rate_caps_text(rate: u32) -> (s: String)
    ensures
        s@ == rate_caps(rate),
{
    let mut s: String = "video/x-raw,framerate=".to_owned();
    text::push_decimal(&mut s, rate as u64);
    s.append("/1");
    s
}

/// A stage that runs a function of a shared library on each frame.
pub open spec fn post_stage(name: Seq<char>, library: Seq<char>, function: Seq<char>) -> Node {
    graph::named(
        name,
        graph::bare("hailofilter"@).with("so-path"@, Val::Nick(library)).with(
            "function-name"@,
            Val::Nick(function),
        ).with("qos"@, Val::Flag(false)),
    )
}

fn make_post_stage(name: &str, library: &str, function: &str) -> (e: Element)
    ensures
        e@ == post_stage(name@, library@, function@),
{
    Element::new(
        name,
        Candidate::new("hailofilter").nick("so-path", library).nick("function-name", function).flag(
            "qos",
            false,
        ),
    )
}

/// The detection pipeline up to the model's own post-processing.
pub open spec fn detection_head(model: ResolvedModel) -> Plan {
    graph::empty_plan("ai_consumer_pipeline"@).add(
        video_reader("ai_intervideosrc"@, false),
    ).append(
        graph::named(
            "ai_queue"@,
            graph::bare("queue"@).with("max-size-buffers"@, Val::U32(2)).with(
                "leaky"@,
                Val::Nick("downstream"@),
            ),
        ),
    ).append(plain("ai_videoscale"@, "videoscale"@)).append(
        graph::named(
            "ai_videoconvert"@,
            graph::bare("videoconvert"@).with("n-threads"@, Val::U32(2)),
        ),
    ).append(
        filter(
            "ai_caps"@,
            model_caps(model.input_format@, model.input_width, model.input_height),
        ),
    ).append(plain("ai_videorate"@, "videorate"@)).append(
        filter("ai_fps_caps"@, rate_caps(inference_rate(model.inference_fps))),
    ).append(
        graph::named(
            "ai_hailonet"@,
            graph::bare("hailonet"@).with("hef-path"@, Val::Nick(model.hef_path@)).with(
                "is-active"@,
                Val::Flag(true),
            ),
        ),
    ).append(
        post_stage("ai_hailofilter"@, model.postprocess_so@, model.postprocess_fn@),
    )
}

fn plan_detection_head(model: &ResolvedModel) -> (plan: PipelinePlan)
    ensures
        plan@ == detection_head(*model),
{
    let rate: u32 = nearest_whole(
        match model.inference_fps {
            Some(f) => f,
            None => (Binary32 { bits: DEFAULT_INFERENCE_BITS }),
        },
        MOST_INFERENCE_FPS,
    );
    let input: String = model_caps_text(
        model.input_format.as_str(),
        model.input_width,
        model.input_height,
    );
    let pace: String = rate_caps_text(rate);
    let mut plan: PipelinePlan = PipelinePlan::new("ai_consumer_pipeline");
    plan.add(make_video_reader("ai_intervideosrc", false));
    plan.append(
        Element::new(
            "ai_queue",
            Candidate::new("queue").u32("max-size-buffers", 2).nick("leaky", "downstream"),
        ),
    );
    plan.append(make_plain("ai_videoscale", "videoscale"));
    plan.append(Element::new("ai_videoconvert", Candidate::new("videoconvert").u32("n-threads", 2)));
    plan.append(make_filter("ai_caps", input.as_str()));
    plan.append(make_plain("ai_videorate", "videorate"));
    plan.append(make_filter("ai_fps_caps", pace.as_str()));
    plan.append(
        Element::new(
            "ai_hailonet",
            Candidate::new("hailonet").nick("hef-path", model.hef_path.as_str()).flag(
                "is-active",
                true,
            ),
        ),
    );
    plan.append(
        make_post_stage(
            "ai_hailofilter",
            model.postprocess_so.as_str(),
            model.postprocess_fn.as_str(),
        ),
    );
    plan
}

/// The bits of six, the radius of a painted landmark.
pub const LANDMARK_RADIUS_BITS: u32 = 0x40c0_0000;

/// The detection pipeline. Models that publish get one more stage, which
/// exports what was found; then the boxes are painted and the frame is handed
/// over as an image.
pub open spec fn detection_plan(model: ResolvedModel, exporter: Seq<char>) -> Plan {
    let head = detection_head(model);
    let published = if model.publish_detections {
        head.append(post_stage("ai_meta_export"@, exporter, "export_metadata"@))
    } else {
        head
    };
    published.append(
        graph::named(
            "ai_hailooverlay"@,
            graph::bare("hailooverlay"@).with("qos"@, Val::Flag(false)).with(
                "line-thickness"@,
                Val::I32(2),
            ).with("font-thickness"@, Val::I32(2)).with(
                "landmark-point-radius"@,
                Val::Single(LANDMARK_RADIUS_BITS),
            ),
        ),
    ).append(plain("ai_post_convert"@, "videoconvert"@)).append(
        graph::named("ai_jpegenc"@, graph::bare("jpegenc"@).with("quality"@, Val::I32(80))),
    ).append(
        graph::named(
            AI_APPSINK_NAME@,
            graph::bare("appsink"@).with("max-buffers"@, Val::U32(1)).with(
                "drop"@,
                Val::Flag(true),
            ).with("sync"@, Val::Flag(false)),
        ),
    )
}

/// Plan the detection pipeline. `exporter` is the shared library that exports
/// detections.
pub fn build_ai_consumer_pipeline(detector: &ResolvedModel, exporter: &str) -> (plan: PipelinePlan)
    ensures
        plan@ == detection_plan(*detector, exporter@),
{
    let mut plan: PipelinePlan = plan_detection_head(detector);
    if detector.publish_detections {
        plan.append(make_post_stage("ai_meta_export", exporter, "export_metadata"));
    }
    plan.append(
        Element::new(
            "ai_hailooverlay",
            Candidate::new("hailooverlay").flag("qos", false).i32("line-thickness", 2).i32(
                "font-thickness",
                2,
            ).with("landmark-point-radius", Setting::Single(LANDMARK_RADIUS_BITS)),
        ),
    );
    plan.append(make_plain("ai_post_convert", "videoconvert"));
    plan.append(Element::new("ai_jpegenc", Candidate::new("jpegenc").i32("quality", 80)));
    plan.append(
        Element::new(
            AI_APPSINK_NAME,
            Candidate::new("appsink").u32("max-buffers", 1).flag("drop", true).flag("sync", false),
        ),
    );
    plan
}

// What the detection stages read from the environment.

/// A change of an environment variable.
#[derive(Debug, Clone, PartialEq, Eq)]
pub enum EnvChange {
    Assign(String, String),
    Remove(String),
}

/// A change as contracts speak of it.
pub enum EnvEdit {
    Assign(Seq<char>, Seq<char>),
    Remove(Seq<char>),
}

impl View for EnvChange {
    type V = EnvEdit;

    open spec fn view(&self) -> EnvEdit {
        match *self {
            EnvChange::Assign(n, v) => EnvEdit::Assign(n@, v@),
            EnvChange::Remove(n) => EnvEdit::Remove(n@),
        }
    }
}

/// Set a variable, or remove it where there is no value.
pub open spec fn set_or_remove(name: Seq<char>, value: Option<Seq<char>>) -> EnvEdit {
    match value {
        Some(v) => EnvEdit::Assign(name, v),
        None => EnvEdit::Remove(name),
    }
}

/// Class numbers and labels, as in `0:human,32:ball`.
pub open spec fn class_map_text(pairs: Seq<(String, String)>) -> Seq<char>
    decreases pairs.len(),
{
    if pairs.len() == 0 {
        Seq::empty()
    } else {
        let last = pairs.last().0@ + ":"@ + pairs.last().1@;
        if pairs.len() == 1 {
            last
        } else {
            class_map_text(pairs.drop_last()) + ","@ + last
        }
    }
}

fn join_class_map(pairs: &Vec<(String, String)>) -> (s: String)
    ensures
        s@ == class_map_text(pairs@),
{
    let mut s: String = String::new();
    let mut i: usize = 0;
    assert(pairs@.take(0) =~= Seq::empty());
    while i < pairs.len()
        invariant
            i <= pairs@.len(),
            s@ == class_map_text(pairs@.take(i as int)),
        decreases pairs@.len() - i,
    {
        let ghost before = s@;
        if i > 0 {
            s.append(",");
        }
        s.append(pairs[i].0.as_str());
        s.append(":");
        s.append(pairs[i].1.as_str());
        proof {
            let t = pairs@.take(i + 1);
            assert(t.drop_last() =~= pairs@.take(i as int));
            assert(t.last() == pairs@[i as int]);
            let last = t.last().0@ + ":"@ + t.last().1@;
            if i > 0 {
                assert(s@ =~= before + ","@ + last);
            } else {
                assert(s@ =~= last);
            }
        }
        i = i + 1;
    }
    assert(pairs@.take(i as int) =~= pairs@);
    s
}

/// Labels with commas between them.
pub open spec fn labels_text(labels: Seq<String>) -> Seq<char>
    decreases labels.len(),
{
    if labels.len() == 0 {
        Seq::empty()
    } else if labels.len() == 1 {
        labels[0]@
    } else {
        labels_text(labels.drop_last()) + ","@ + labels.last()@
    }
}

fn join_labels(labels: &Vec<String>) -> (s: String)
    ensures
        s@ == labels_text(labels@),
{
    let mut s: String = String::new();
    let mut i: usize = 0;
    assert(labels@.take(0) =~= Seq::empty());
    while i < labels.len()
        invariant
            i <= labels@.len(),
            s@ == labels_text(labels@.take(i as int)),
        decreases labels@.len() - i,
    {
        let ghost before = s@;
        if i > 0 {
            s.append(",");
        }
        s.append(labels[i].as_str());
        proof {
            let t = labels@.take(i + 1);
            assert(t.drop_last() =~= labels@.take(i as int));
            assert(t.last() == labels@[i as int]);
            if i > 0 {
                assert(s@ =~= before + ","@ + t.last()@);
            } else {
                assert(s@ =~= t[0]@);
            }
        }
        i = i + 1;
    }
    assert(labels@.take(i as int) =~= labels@);
    s
}

/// What the detection stages find in the environment: the camera's frame size,
/// no labels of second-stage classifiers, and the model's class map and labels
/// where it has them.
pub open spec fn detection_env(model: ResolvedModel, width: u32, height: u32) -> Seq<EnvEdit> {
    seq![
        EnvEdit::Assign("AICAM_META_EXPORT_WIDTH"@, text::decimal(width as nat)),
        EnvEdit::Assign("AICAM_META_EXPORT_HEIGHT"@, text::decimal(height as nat)),
        EnvEdit::Remove("AICAM_META_EXPORT_CLS1_LABELS"@),
        EnvEdit::Remove("AICAM_META_EXPORT_CLS2_LABELS"@),
        set_or_remove(
            "AICAM_META_EXPORT_DET_CLASS_MAP"@,
            match model.class_map {
                Some(pairs) => Some(class_map_text(pairs@)),
                None => None,
            },
        ),
        set_or_remove(
            "AICAM_YOLO26_POST_LABELS"@,
            match model.label_map {
                Some(labels) => Some(labels_text(labels@)),
                None => None,
            },
        ),
    ]
}

/// The environment to set up before the detection pipeline is built.
pub fn ai_environment(detector: &ResolvedModel, frame_width: u32, frame_height: u32) -> (env: Vec<
    EnvChange,
>)
    ensures
        env@.len() == detection_env(*detector, frame_width, frame_height).len(),
        forall|i: int|
            0 <= i < env@.len() ==> #[trigger] env@[i]@ == detection_env(
                *detector,
                frame_width,
                frame_height,
            )[i],
{
    let classes: EnvChange = match &detector.class_map {
        Some(pairs) => EnvChange::Assign(
            "AICAM_META_EXPORT_DET_CLASS_MAP".to_owned(),
            join_class_map(pairs),
        ),
        None => EnvChange::Remove("AICAM_META_EXPORT_DET_CLASS_MAP".to_owned()),
    };
    let labels: EnvChange = match &detector.label_map {
        Some(list) => EnvChange::Assign("AICAM_YOLO26_POST_LABELS".to_owned(), join_labels(list)),
        None => EnvChange::Remove("AICAM_YOLO26_POST_LABELS".to_owned()),
    };
    let mut env: Vec<EnvChange> = Vec::new();
    env.push(
        EnvChange::Assign(
            "AICAM_META_EXPORT_WIDTH".to_owned(),
            text::decimal_string(frame_width as u64),
        ),
    );
    env.push(
        EnvChange::Assign(
            "AICAM_META_EXPORT_HEIGHT".to_owned(),
            text::decimal_string(frame_height as u64),
        ),
    );
    env.push(EnvChange::Remove("AICAM_META_EXPORT_CLS1_LABELS".to_owned()));
    env.push(EnvChange::Remove("AICAM_META_EXPORT_CLS2_LABELS".to_owned()));
    env.push(classes);
    env.push(labels);
    env
}

} // verus!
