//! What the elements of a finished pipeline are set to, and in which order they
//! pass data on.
use crate::consumers;
use crate::consumers::EnvEdit;
use crate::graph::{Make, Plan, Val};
use crate::pipeline::ResolvedModel;
use crate::producer;
use crate::producer::{CameraBackend, Orientation, Pace};
use crate::text;
use vstd::prelude::*;

verus! {

// How laws speak of a plan.

/// The plan has an element of that name whose candidate `k` is of that factory.
pub open spec fn makes(p: Plan, element: Seq<char>, k: int, factory: Seq<char>) -> bool {
    exists|n: int|
        #![trigger p.nodes[n]]
        0 <= n < p.nodes.len() && p.nodes[n].name == element && 0 <= k
            < p.nodes[n].candidates.len() && p.nodes[n].candidates[k].factory == factory
}

/// The plan has an element of that name whose candidate `k` sets a property to a
/// value.
pub open spec fn sets(p: Plan, element: Seq<char>, k: int, property: Seq<char>, value: Val) -> bool {
    exists|n: int|
        #![trigger p.nodes[n]]
        0 <= n < p.nodes.len() && p.nodes[n].name == element && 0 <= k
            < p.nodes[n].candidates.len() && p.nodes[n].candidates[k].get(property) == Some(value)
}

/// The plan has an element of that name whose candidate `k` leaves a property at
/// its default.
pub open spec fn leaves(p: Plan, element: Seq<char>, k: int, property: Seq<char>) -> bool {
    exists|n: int|
        #![trigger p.nodes[n]]
        0 <= n < p.nodes.len() && p.nodes[n].name == element && 0 <= k
            < p.nodes[n].candidates.len() && p.nodes[n].candidates[k].get(property) is None
}

/// The plan has an element of that name with that many candidates.
pub open spec fn offers(p: Plan, element: Seq<char>, count: int) -> bool {
    exists|n: int|
        #![trigger p.nodes[n]]
        0 <= n < p.nodes.len() && p.nodes[n].name == element && p.nodes[n].candidates.len() == count
}

/// The plan has no element of that name.
pub open spec fn lacks(p: Plan, element: Seq<char>) -> bool {
    forall|n: int| 0 <= n < p.nodes.len() ==> (#[trigger] p.nodes[n]).name != element
}

/// An element of one name passes its data on to an element of another.
pub open spec fn leads(p: Plan, from: Seq<char>, to: Seq<char>) -> bool {
    exists|i: int|
        #![trigger p.edges[i]]
        0 <= i < p.edges.len() && 0 <= p.edges[i].from < p.nodes.len() && 0 <= p.edges[i].to
            < p.nodes.len() && p.nodes[p.edges[i].from].name == from
            && p.nodes[p.edges[i].to].name == to
}

/// Data passes through the elements of these names in this order.
pub open spec fn flows(p: Plan, names: Seq<Seq<char>>) -> bool {
    forall|k: int|
        #![trigger names[k]]
        0 <= k < names.len() - 1 ==> leads(p, names[k], names[k + 1])
}

/// A field of capabilities, between commas.
pub open spec fn says(caps: Seq<char>, field: Seq<char>, value: Seq<char>) -> bool {
    exists|start: int, end: int|
        #![trigger caps.subrange(start, end)]
        0 < start <= end <= caps.len() && caps[start - 1] == ',' && (end == caps.len() || caps[end]
            == ',') && caps.subrange(start, end) == field + seq!['='] + value
}

// Reading a plan.

/// The last of the properties of a name is what the property is set to.
proof fn lemma_get_at(m: Make, i: int)
    requires
        0 <= i < m.properties.len(),
        forall|j: int|
            i < j < m.properties.len() ==> (#[trigger] m.properties[j]).name
                != m.properties[i].name,
    ensures
        m.get(m.properties[i].name) == Some(m.properties[i].value),
    decreases m.properties.len(),
{
    if i < m.properties.len() - 1 {
        let less = Make { factory: m.factory, properties: m.properties.drop_last() };
        lemma_get_at(less, i);
    }
}

/// A property that is not among those set is at its default.
proof fn lemma_get_none(m: Make, property: Seq<char>)
    requires
        forall|j: int|
            0 <= j < m.properties.len() ==> (#[trigger] m.properties[j]).name != property,
    ensures
        m.get(property) is None,
    decreases m.properties.len(),
{
    if m.properties.len() > 0 {
        let less = Make { factory: m.factory, properties: m.properties.drop_last() };
        lemma_get_none(less, property);
    }
}

/// Different names, for up to five properties.
spec fn told_apart(m: Make) -> bool {
    let (q, n) = (m.properties, m.properties.len());
    &&& n <= 5
    &&& n > 1 ==> q[0].name != q[1].name
    &&& n > 2 ==> q[0].name != q[2].name && q[1].name != q[2].name
    &&& n > 3 ==> q[0].name != q[3].name && q[1].name != q[3].name && q[2].name != q[3].name
    &&& n > 4 ==> q[0].name != q[4].name && q[1].name != q[4].name && q[2].name != q[4].name
        && q[3].name != q[4].name
}

/// What candidate `k` of element `n` is and sets.
proof fn lemma_sets(p: Plan, n: int, k: int)
    requires
        0 <= n < p.nodes.len(),
        0 <= k < p.nodes[n].candidates.len(),
        told_apart(p.nodes[n].candidates[k]),
    ensures
        makes(p, p.nodes[n].name, k, p.nodes[n].candidates[k].factory),
        offers(p, p.nodes[n].name, p.nodes[n].candidates.len() as int),
        ({
            let q = p.nodes[n].candidates[k].properties;
            &&& q.len() > 0 ==> sets(p, p.nodes[n].name, k, q[0].name, q[0].value)
            &&& q.len() > 1 ==> sets(p, p.nodes[n].name, k, q[1].name, q[1].value)
            &&& q.len() > 2 ==> sets(p, p.nodes[n].name, k, q[2].name, q[2].value)
            &&& q.len() > 3 ==> sets(p, p.nodes[n].name, k, q[3].name, q[3].value)
            &&& q.len() > 4 ==> sets(p, p.nodes[n].name, k, q[4].name, q[4].value)
        }),
{
    let m = p.nodes[n].candidates[k];
    let q = m.properties;
    assert forall|i: int| 0 <= i < q.len() implies m.get((#[trigger] q[i]).name) == Some(
        q[i].value,
    ) by {
        assert forall|j: int| i < j < q.len() implies (#[trigger] q[j]).name != q[i].name by {
            assert(i == 0 || i == 1 || i == 2 || i == 3);
            assert(j == 1 || j == 2 || j == 3 || j == 4);
        }
        lemma_get_at(m, i);
    }
}

proof fn lemma_leads(p: Plan, i: int)
    requires
        0 <= i < p.edges.len(),
        0 <= p.edges[i].from < p.nodes.len(),
        0 <= p.edges[i].to < p.nodes.len(),
    ensures
        leads(p, p.nodes[p.edges[i].from].name, p.nodes[p.edges[i].to].name),
{
}

/// What is set on the stream's encoder and sink.
///
/// The encoder takes its rate in kilobits per second and puts a key frame into
/// every second; the one that stands in for it takes its rate in bits per second,
/// as far as a 32-bit number holds it. Both sinks send to the address, off the
/// clock; a benchmark sends nowhere.
pub proof fn law_stream_settings(url: Seq<char>, kbps: u32, fps: u32, has_audio: bool, benchmark: bool)
    ensures
        ({
            let p = consumers::streaming_plan(url, kbps, fps, has_audio, benchmark);
            let bps: u32 = if kbps <= 4_294_967 {
                (1000 * kbps) as u32
            } else {
                0xffff_ffff
            };
            &&& offers(p, "stream_encoder"@, 2)
            &&& makes(p, "stream_encoder"@, 0, "x264enc"@)
            &&& sets(p, "stream_encoder"@, 0, "bitrate"@, Val::U32(kbps))
            &&& sets(p, "stream_encoder"@, 0, "key-int-max"@, Val::U32(fps))
            &&& sets(p, "stream_encoder"@, 0, "threads"@, Val::U32(1))
            &&& sets(p, "stream_encoder"@, 0, "speed-preset"@, Val::Nick("ultrafast"@))
            &&& sets(p, "stream_encoder"@, 0, "tune"@, Val::Nick("zerolatency"@))
            &&& makes(p, "stream_encoder"@, 1, "openh264enc"@)
            &&& sets(p, "stream_encoder"@, 1, "bitrate"@, Val::U32(bps))
            &&& benchmark ==> {
                &&& offers(p, "stream_sink"@, 1)
                &&& makes(p, "stream_sink"@, 0, "fakesink"@)
                &&& sets(p, "stream_sink"@, 0, "sync"@, Val::Flag(false))
                &&& sets(p, "stream_sink"@, 0, "async"@, Val::Flag(false))
                &&& leaves(p, "stream_sink"@, 0, "location"@)
            }
            &&& !benchmark ==> {
                &&& offers(p, "stream_sink"@, 2)
                &&& makes(p, "stream_sink"@, 0, "rtmpsink"@)
                &&& makes(p, "stream_sink"@, 1, "rtmp2sink"@)
                &&& sets(p, "stream_sink"@, 0, "location"@, Val::Text(url))
                &&& sets(p, "stream_sink"@, 1, "location"@, Val::Text(url))
                &&& sets(p, "stream_sink"@, 0, "sync"@, Val::Flag(false))
                &&& sets(p, "stream_sink"@, 1, "sync"@, Val::Flag(false))
                &&& sets(p, "stream_sink"@, 0, "async"@, Val::Flag(false))
                &&& sets(p, "stream_sink"@, 1, "async"@, Val::Flag(false))
            }
        }),
{
    let p = consumers::streaming_plan(url, kbps, fps, has_audio, benchmark);
    reveal_strlit("bitrate");
    reveal_strlit("key-int-max");
    reveal_strlit("threads");
    reveal_strlit("speed-preset");
    reveal_strlit("tune");
    reveal_strlit("location");
    reveal_strlit("sync");
    reveal_strlit("async");
    assert("threads"@[0] != "bitrate"@[0]);
    assert(p.nodes[8] == consumers::stream_encoder(kbps, fps));
    let m = p.nodes[8].candidates[0];
    assert(m.properties[0].name == "speed-preset"@);
    assert(m.properties[1].name == "threads"@);
    assert(m.properties[2].name == "bitrate"@);
    assert(m.properties[3].name == "key-int-max"@);
    assert(m.properties[4].name == "tune"@);
    lemma_sets(p, 8, 0);
    lemma_sets(p, 8, 1);
    assert(p.nodes[12] == consumers::stream_sink(url, benchmark));
    let sink = p.nodes[12].candidates[0];
    if benchmark {
        assert(sink.properties[0].name == "sync"@);
        assert(sink.properties[1].name == "async"@);
        lemma_sets(p, 12, 0);
        lemma_get_none(p.nodes[12].candidates[0], "location"@);
    } else {
        let other = p.nodes[12].candidates[1];
        assert(sink.properties[0].name == "location"@);
        assert(sink.properties[1].name == "sync"@);
        assert(sink.properties[2].name == "async"@);
        assert(other.properties[0].name == "location"@);
        assert(other.properties[1].name == "sync"@);
        assert(other.properties[2].name == "async"@);
        lemma_sets(p, 12, 0);
        lemma_sets(p, 12, 1);
    }
}

/// How the other elements of the stream are set: a reader that stamps frames anew,
/// a queue of two seconds that drops the oldest, and the size and rate of the stream.
#[verifier::rlimit(60)]
pub proof fn law_stream_elements(url: Seq<char>, kbps: u32, fps: u32, has_audio: bool, benchmark: bool)
    ensures
        ({
            let p = consumers::streaming_plan(url, kbps, fps, has_audio, benchmark);
            &&& offers(p, "stream_intervideosrc"@, 1)
            &&& makes(p, "stream_intervideosrc"@, 0, "intervideosrc"@)
            &&& sets(p, "stream_intervideosrc"@, 0, "channel"@, Val::Text("aicam-main"@))
            &&& sets(p, "stream_intervideosrc"@, 0, "do-timestamp"@, Val::Flag(true))
            &&& offers(p, "stream_queue"@, 1)
            &&& makes(p, "stream_queue"@, 0, "queue"@)
            &&& sets(p, "stream_queue"@, 0, "leaky"@, Val::Nick("downstream"@))
            &&& sets(p, "stream_queue"@, 0, "max-size-time"@, Val::U64(2_000_000_000))
            &&& sets(p, "stream_queue"@, 0, "max-size-buffers"@, Val::U32(0))
            &&& sets(p, "stream_queue"@, 0, "max-size-bytes"@, Val::U32(0))
            &&& offers(p, "stream_videoscale"@, 1)
            &&& makes(p, "stream_videoscale"@, 0, "videoscale"@)
            &&& offers(p, "stream_videorate"@, 1)
            &&& makes(p, "stream_videorate"@, 0, "videorate"@)
            &&& sets(p, "stream_videorate"@, 0, "skip-to-first"@, Val::Flag(true))
            &&& offers(p, "stream_downscale_caps"@, 1)
            &&& makes(p, "stream_downscale_caps"@, 0, "capsfilter"@)
            &&& sets(p, "stream_downscale_caps"@, 0, "caps"@, Val::Caps("video/x-raw,width=1280,height=720,framerate=15/1"@))
            &&& offers(p, "stream_pre_convert"@, 1)
            &&& makes(p, "stream_pre_convert"@, 0, "videoconvert"@)
            &&& offers(p, "stream_cairooverlay"@, 1)
            &&& makes(p, "stream_cairooverlay"@, 0, "cairooverlay"@)
            &&& offers(p, "stream_post_convert"@, 1)
            &&& makes(p, "stream_post_convert"@, 0, "videoconvert"@)
        }),
{
    let p = consumers::streaming_plan(url, kbps, fps, has_audio, benchmark);
    reveal_strlit("channel");
    reveal_strlit("do-timestamp");
    reveal_strlit("leaky");
    reveal_strlit("max-size-buffers");
    reveal_strlit("max-size-bytes");
    reveal_strlit("max-size-time");
    assert("channel"@.len() != "do-timestamp"@.len());
    assert("leaky"@.len() != "max-size-time"@.len());
    assert("leaky"@.len() != "max-size-buffers"@.len());
    assert("leaky"@.len() != "max-size-bytes"@.len());
    assert("max-size-time"@.len() != "max-size-buffers"@.len());
    assert("max-size-time"@.len() != "max-size-bytes"@.len());
    assert("max-size-buffers"@.len() != "max-size-bytes"@.len());
    assert(p.nodes[0].candidates[0].properties[0].name == "channel"@);
    assert(p.nodes[0].candidates[0].properties[1].name == "do-timestamp"@);
    assert(p.nodes[0].candidates[0].properties.len() == 2);
    lemma_sets(p, 0, 0);
    assert(p.nodes[1].candidates[0].properties[0].name == "leaky"@);
    assert(p.nodes[1].candidates[0].properties[1].name == "max-size-time"@);
    assert(p.nodes[1].candidates[0].properties[2].name == "max-size-buffers"@);
    assert(p.nodes[1].candidates[0].properties[3].name == "max-size-bytes"@);
    assert(p.nodes[1].candidates[0].properties.len() == 4);
    lemma_sets(p, 1, 0);
    lemma_sets(p, 2, 0);
    assert(p.nodes[3].candidates[0].properties[0].name == "skip-to-first"@);
    lemma_sets(p, 3, 0);
    assert(p.nodes[4].candidates[0].properties[0].name == "caps"@);
    lemma_sets(p, 4, 0);
    lemma_sets(p, 5, 0);
    lemma_sets(p, 6, 0);
    lemma_sets(p, 7, 0);
}

/// A parser repeats the decoder's setup in front of every key frame, and the
/// multiplexer waits a second for the slower side.
#[verifier::rlimit(60)]
pub proof fn law_stream_multiplexing(url: Seq<char>, kbps: u32, fps: u32, has_audio: bool, benchmark: bool)
    ensures
        ({
            let p = consumers::streaming_plan(url, kbps, fps, has_audio, benchmark);
            &&& offers(p, "stream_h264parse"@, 1)
            &&& makes(p, "stream_h264parse"@, 0, "h264parse"@)
            &&& sets(p, "stream_h264parse"@, 0, "config-interval"@, Val::I32(-1i32))
            &&& offers(p, "stream_avc_capsfilter"@, 1)
            &&& makes(p, "stream_avc_capsfilter"@, 0, "capsfilter"@)
            &&& sets(p, "stream_avc_capsfilter"@, 0, "caps"@, Val::Caps("video/x-h264,stream-format=avc,alignment=au"@))
            &&& offers(p, "stream_flvmux"@, 1)
            &&& makes(p, "stream_flvmux"@, 0, "flvmux"@)
            &&& sets(p, "stream_flvmux"@, 0, "streamable"@, Val::Flag(true))
            &&& sets(p, "stream_flvmux"@, 0, "latency"@, Val::U64(1_000_000_000))
            &&& offers(p, "audio_stream_queue"@, 1)
            &&& makes(p, "audio_stream_queue"@, 0, "queue"@)
            &&& sets(p, "audio_stream_queue"@, 0, "leaky"@, Val::Nick("downstream"@))
            &&& sets(p, "audio_stream_queue"@, 0, "max-size-time"@, Val::U64(2_000_000_000))
            &&& sets(p, "audio_stream_queue"@, 0, "max-size-buffers"@, Val::U32(0))
            &&& sets(p, "audio_stream_queue"@, 0, "max-size-bytes"@, Val::U32(0))
            &&& offers(p, "audio_stream_encoder"@, 2)
            &&& makes(p, "audio_stream_encoder"@, 0, "voaacenc"@)
            &&& makes(p, "audio_stream_encoder"@, 1, "avenc_aac"@)
            &&& offers(p, "audio_stream_aacparse"@, 1)
            &&& makes(p, "audio_stream_aacparse"@, 0, "aacparse"@)
        }),
{
    let p = consumers::streaming_plan(url, kbps, fps, has_audio, benchmark);
    reveal_strlit("latency");
    reveal_strlit("leaky");
    reveal_strlit("max-size-buffers");
    reveal_strlit("max-size-bytes");
    reveal_strlit("max-size-time");
    reveal_strlit("streamable");
    assert("streamable"@.len() != "latency"@.len());
    assert("leaky"@.len() != "max-size-time"@.len());
    assert("leaky"@.len() != "max-size-buffers"@.len());
    assert("leaky"@.len() != "max-size-bytes"@.len());
    assert("max-size-time"@.len() != "max-size-buffers"@.len());
    assert("max-size-time"@.len() != "max-size-bytes"@.len());
    assert("max-size-buffers"@.len() != "max-size-bytes"@.len());
    assert(p.nodes[9].candidates[0].properties[0].name == "config-interval"@);
    lemma_sets(p, 9, 0);
    assert(p.nodes[10].candidates[0].properties[0].name == "caps"@);
    lemma_sets(p, 10, 0);
    assert(p.nodes[11].candidates[0].properties[0].name == "streamable"@);
    assert(p.nodes[11].candidates[0].properties[1].name == "latency"@);
    assert(p.nodes[11].candidates[0].properties.len() == 2);
    lemma_sets(p, 11, 0);
    assert(p.nodes[13].candidates[0].properties[0].name == "leaky"@);
    assert(p.nodes[13].candidates[0].properties[1].name == "max-size-time"@);
    assert(p.nodes[13].candidates[0].properties[2].name == "max-size-buffers"@);
    assert(p.nodes[13].candidates[0].properties[3].name == "max-size-bytes"@);
    assert(p.nodes[13].candidates[0].properties.len() == 4);
    lemma_sets(p, 13, 0);
    lemma_sets(p, 14, 0);
    lemma_sets(p, 14, 1);
    lemma_sets(p, 15, 0);
}

/// The stream's sound comes from its own channel.
pub proof fn law_stream_sound(url: Seq<char>, kbps: u32, fps: u32, benchmark: bool)
    ensures
        ({
            let p = consumers::streaming_plan(url, kbps, fps, true, benchmark);
            &&& offers(p, "stream_interaudiosrc"@, 1)
            &&& makes(p, "stream_interaudiosrc"@, 0, "interaudiosrc"@)
            &&& sets(p, "stream_interaudiosrc"@, 0, "channel"@, Val::Text("aicam-audio-stream"@))
            &&& sets(p, "stream_interaudiosrc"@, 0, "do-timestamp"@, Val::Flag(true))
        }),
{
    let p = consumers::streaming_plan(url, kbps, fps, true, benchmark);
    reveal_strlit("channel");
    reveal_strlit("do-timestamp");
    assert("channel"@.len() != "do-timestamp"@.len());
    assert(p.nodes[16].candidates[0].properties[0].name == "channel"@);
    assert(p.nodes[16].candidates[0].properties[1].name == "do-timestamp"@);
    assert(p.nodes[16].candidates[0].properties.len() == 2);
    lemma_sets(p, 16, 0);
}

/// Without a microphone the stream's sound is silence, in the form of all sound.
pub proof fn law_stream_silence(url: Seq<char>, kbps: u32, fps: u32, benchmark: bool)
    ensures
        ({
            let p = consumers::streaming_plan(url, kbps, fps, false, benchmark);
            &&& offers(p, "audio_silence_src"@, 1)
            &&& makes(p, "audio_silence_src"@, 0, "audiotestsrc"@)
            &&& sets(p, "audio_silence_src"@, 0, "wave"@, Val::Nick("silence"@))
            &&& sets(p, "audio_silence_src"@, 0, "is-live"@, Val::Flag(true))
            &&& offers(p, "audio_silence_capsfilter"@, 1)
            &&& makes(p, "audio_silence_capsfilter"@, 0, "capsfilter"@)
            &&& sets(p, "audio_silence_capsfilter"@, 0, "caps"@, Val::Caps("audio/x-raw,format=S16LE,rate=48000,channels=2,layout=interleaved"@))
        }),
{
    let p = consumers::streaming_plan(url, kbps, fps, false, benchmark);
    reveal_strlit("is-live");
    reveal_strlit("wave");
    assert("wave"@.len() != "is-live"@.len());
    assert(p.nodes[16].candidates[0].properties[0].name == "wave"@);
    assert(p.nodes[16].candidates[0].properties[1].name == "is-live"@);
    assert(p.nodes[16].candidates[0].properties.len() == 2);
    lemma_sets(p, 16, 0);
    assert(p.nodes[17].candidates[0].properties[0].name == "caps"@);
    lemma_sets(p, 17, 0);
}

/// The picture is scaled and slowed down before it is painted over, and painted
/// over before it is encoded; its sound is encoded beside it and joins it in front
/// of the sink.
#[verifier::rlimit(60)]
pub proof fn law_stream_order(url: Seq<char>, kbps: u32, fps: u32, benchmark: bool)
    ensures
        ({
            let p = consumers::streaming_plan(url, kbps, fps, true, benchmark);
            &&& flows(p, seq!["stream_intervideosrc"@, "stream_queue"@, "stream_videoscale"@, "stream_videorate"@, "stream_downscale_caps"@, "stream_pre_convert"@, "stream_cairooverlay"@, "stream_post_convert"@, "stream_encoder"@, "stream_h264parse"@, "stream_avc_capsfilter"@, "stream_flvmux"@, "stream_sink"@])
            &&& flows(p, seq!["stream_interaudiosrc"@, "audio_stream_queue"@, "audio_stream_encoder"@, "audio_stream_aacparse"@, "stream_flvmux"@])
        }),
{
    let p = consumers::streaming_plan(url, kbps, fps, true, benchmark);
    assert(p.edges[0].from == 0 && p.edges[0].to == 1);
    assert(p.nodes[0].name == "stream_intervideosrc"@ && p.nodes[1].name == "stream_queue"@);
    lemma_leads(p, 0);
    assert(p.edges[1].from == 1 && p.edges[1].to == 2);
    assert(p.nodes[1].name == "stream_queue"@ && p.nodes[2].name == "stream_videoscale"@);
    lemma_leads(p, 1);
    assert(p.edges[2].from == 2 && p.edges[2].to == 3);
    assert(p.nodes[2].name == "stream_videoscale"@ && p.nodes[3].name == "stream_videorate"@);
    lemma_leads(p, 2);
    assert(p.edges[3].from == 3 && p.edges[3].to == 4);
    assert(p.nodes[3].name == "stream_videorate"@ && p.nodes[4].name == "stream_downscale_caps"@);
    lemma_leads(p, 3);
    assert(p.edges[4].from == 4 && p.edges[4].to == 5);
    assert(p.nodes[4].name == "stream_downscale_caps"@ && p.nodes[5].name == "stream_pre_convert"@);
    lemma_leads(p, 4);
    assert(p.edges[5].from == 5 && p.edges[5].to == 6);
    assert(p.nodes[5].name == "stream_pre_convert"@ && p.nodes[6].name == "stream_cairooverlay"@);
    lemma_leads(p, 5);
    assert(p.edges[6].from == 6 && p.edges[6].to == 7);
    assert(p.nodes[6].name == "stream_cairooverlay"@ && p.nodes[7].name == "stream_post_convert"@);
    lemma_leads(p, 6);
    assert(p.edges[7].from == 7 && p.edges[7].to == 8);
    assert(p.nodes[7].name == "stream_post_convert"@ && p.nodes[8].name == "stream_encoder"@);
    lemma_leads(p, 7);
    assert(p.edges[8].from == 8 && p.edges[8].to == 9);
    assert(p.nodes[8].name == "stream_encoder"@ && p.nodes[9].name == "stream_h264parse"@);
    lemma_leads(p, 8);
    assert(p.edges[9].from == 9 && p.edges[9].to == 10);
    assert(p.nodes[9].name == "stream_h264parse"@ && p.nodes[10].name == "stream_avc_capsfilter"@);
    lemma_leads(p, 9);
    assert(p.edges[10].from == 10 && p.edges[10].to == 11);
    assert(p.nodes[10].name == "stream_avc_capsfilter"@ && p.nodes[11].name == "stream_flvmux"@);
    lemma_leads(p, 10);
    assert(p.edges[11].from == 11 && p.edges[11].to == 12);
    assert(p.nodes[11].name == "stream_flvmux"@ && p.nodes[12].name == "stream_sink"@);
    lemma_leads(p, 11);
    assert(p.edges[12].from == 16 && p.edges[12].to == 13);
    assert(p.nodes[16].name == "stream_interaudiosrc"@ && p.nodes[13].name == "audio_stream_queue"@);
    lemma_leads(p, 12);
    assert(p.edges[13].from == 13 && p.edges[13].to == 14);
    assert(p.nodes[13].name == "audio_stream_queue"@ && p.nodes[14].name == "audio_stream_encoder"@);
    lemma_leads(p, 13);
    assert(p.edges[14].from == 14 && p.edges[14].to == 15);
    assert(p.nodes[14].name == "audio_stream_encoder"@ && p.nodes[15].name == "audio_stream_aacparse"@);
    lemma_leads(p, 14);
    assert(p.edges[15].from == 15 && p.edges[15].to == 11);
    assert(p.nodes[15].name == "audio_stream_aacparse"@ && p.nodes[11].name == "stream_flvmux"@);
    lemma_leads(p, 15);
}

/// The same without a microphone.
#[verifier::rlimit(60)]
pub proof fn law_silent_stream_order(url: Seq<char>, kbps: u32, fps: u32, benchmark: bool)
    ensures
        ({
            let p = consumers::streaming_plan(url, kbps, fps, false, benchmark);
            &&& flows(p, seq!["stream_intervideosrc"@, "stream_queue"@, "stream_videoscale"@, "stream_videorate"@, "stream_downscale_caps"@, "stream_pre_convert"@, "stream_cairooverlay"@, "stream_post_convert"@, "stream_encoder"@, "stream_h264parse"@, "stream_avc_capsfilter"@, "stream_flvmux"@, "stream_sink"@])
            &&& flows(p, seq!["audio_silence_src"@, "audio_silence_capsfilter"@, "audio_stream_queue"@, "audio_stream_encoder"@, "audio_stream_aacparse"@, "stream_flvmux"@])
        }),
{
    let p = consumers::streaming_plan(url, kbps, fps, false, benchmark);
    assert(p.edges[0].from == 0 && p.edges[0].to == 1);
    assert(p.nodes[0].name == "stream_intervideosrc"@ && p.nodes[1].name == "stream_queue"@);
    lemma_leads(p, 0);
    assert(p.edges[1].from == 1 && p.edges[1].to == 2);
    assert(p.nodes[1].name == "stream_queue"@ && p.nodes[2].name == "stream_videoscale"@);
    lemma_leads(p, 1);
    assert(p.edges[2].from == 2 && p.edges[2].to == 3);
    assert(p.nodes[2].name == "stream_videoscale"@ && p.nodes[3].name == "stream_videorate"@);
    lemma_leads(p, 2);
    assert(p.edges[3].from == 3 && p.edges[3].to == 4);
    assert(p.nodes[3].name == "stream_videorate"@ && p.nodes[4].name == "stream_downscale_caps"@);
    lemma_leads(p, 3);
    assert(p.edges[4].from == 4 && p.edges[4].to == 5);
    assert(p.nodes[4].name == "stream_downscale_caps"@ && p.nodes[5].name == "stream_pre_convert"@);
    lemma_leads(p, 4);
    assert(p.edges[5].from == 5 && p.edges[5].to == 6);
    assert(p.nodes[5].name == "stream_pre_convert"@ && p.nodes[6].name == "stream_cairooverlay"@);
    lemma_leads(p, 5);
    assert(p.edges[6].from == 6 && p.edges[6].to == 7);
    assert(p.nodes[6].name == "stream_cairooverlay"@ && p.nodes[7].name == "stream_post_convert"@);
    lemma_leads(p, 6);
    assert(p.edges[7].from == 7 && p.edges[7].to == 8);
    assert(p.nodes[7].name == "stream_post_convert"@ && p.nodes[8].name == "stream_encoder"@);
    lemma_leads(p, 7);
    assert(p.edges[8].from == 8 && p.edges[8].to == 9);
    assert(p.nodes[8].name == "stream_encoder"@ && p.nodes[9].name == "stream_h264parse"@);
    lemma_leads(p, 8);
    assert(p.edges[9].from == 9 && p.edges[9].to == 10);
    assert(p.nodes[9].name == "stream_h264parse"@ && p.nodes[10].name == "stream_avc_capsfilter"@);
    lemma_leads(p, 9);
    assert(p.edges[10].from == 10 && p.edges[10].to == 11);
    assert(p.nodes[10].name == "stream_avc_capsfilter"@ && p.nodes[11].name == "stream_flvmux"@);
    lemma_leads(p, 10);
    assert(p.edges[11].from == 11 && p.edges[11].to == 12);
    assert(p.nodes[11].name == "stream_flvmux"@ && p.nodes[12].name == "stream_sink"@);
    lemma_leads(p, 11);
    assert(p.edges[12].from == 16 && p.edges[12].to == 17);
    assert(p.nodes[16].name == "audio_silence_src"@ && p.nodes[17].name == "audio_silence_capsfilter"@);
    lemma_leads(p, 12);
    assert(p.edges[13].from == 17 && p.edges[13].to == 13);
    assert(p.nodes[17].name == "audio_silence_capsfilter"@ && p.nodes[13].name == "audio_stream_queue"@);
    lemma_leads(p, 13);
    assert(p.edges[14].from == 13 && p.edges[14].to == 14);
    assert(p.nodes[13].name == "audio_stream_queue"@ && p.nodes[14].name == "audio_stream_encoder"@);
    lemma_leads(p, 14);
    assert(p.edges[15].from == 14 && p.edges[15].to == 15);
    assert(p.nodes[14].name == "audio_stream_encoder"@ && p.nodes[15].name == "audio_stream_aacparse"@);
    lemma_leads(p, 15);
    assert(p.edges[16].from == 15 && p.edges[16].to == 11);
    assert(p.nodes[15].name == "audio_stream_aacparse"@ && p.nodes[11].name == "stream_flvmux"@);
    lemma_leads(p, 16);
}

/// A recording's encoder takes its rate in kilobits per second and puts a key frame
/// into every second. Frames wait at a closed gate, and the file sink discards what
/// it gets, until a recording runs.
#[verifier::rlimit(40)]
pub proof fn law_recording_settings(fps: u32, kbps: u32)
    ensures
        ({
            let p = consumers::recording_video_plan(fps, kbps);
            &&& offers(p, "rec_intervideosrc"@, 1)
            &&& makes(p, "rec_intervideosrc"@, 0, "intervideosrc"@)
            &&& sets(p, "rec_intervideosrc"@, 0, "channel"@, Val::Text("aicam-main"@))
            &&& sets(p, "rec_intervideosrc"@, 0, "do-timestamp"@, Val::Flag(false))
            &&& offers(p, "rec_valve"@, 1)
            &&& makes(p, "rec_valve"@, 0, "valve"@)
            &&& sets(p, "rec_valve"@, 0, "drop"@, Val::Flag(true))
            &&& offers(p, "rec_queue"@, 1)
            &&& makes(p, "rec_queue"@, 0, "queue"@)
            &&& sets(p, "rec_queue"@, 0, "max-size-buffers"@, Val::U32(60))
            &&& sets(p, "rec_queue"@, 0, "max-size-bytes"@, Val::U32(0))
            &&& sets(p, "rec_queue"@, 0, "max-size-time"@, Val::U64(0))
            &&& sets(p, "rec_queue"@, 0, "leaky"@, Val::Nick("downstream"@))
            &&& offers(p, "rec_videoconvert"@, 1)
            &&& makes(p, "rec_videoconvert"@, 0, "videoconvert"@)
            &&& offers(p, "rec_encoder"@, 1)
            &&& makes(p, "rec_encoder"@, 0, "x264enc"@)
            &&& sets(p, "rec_encoder"@, 0, "speed-preset"@, Val::Nick("ultrafast"@))
            &&& sets(p, "rec_encoder"@, 0, "tune"@, Val::Nick("zerolatency"@))
            &&& sets(p, "rec_encoder"@, 0, "threads"@, Val::U32(0))
            &&& sets(p, "rec_encoder"@, 0, "bitrate"@, Val::U32(kbps))
            &&& sets(p, "rec_encoder"@, 0, "key-int-max"@, Val::U32(fps))
            &&& offers(p, "rec_filesink"@, 1)
            &&& makes(p, "rec_filesink"@, 0, "filesink"@)
            &&& sets(p, "rec_filesink"@, 0, "location"@, Val::Text("/dev/null"@))
            &&& sets(p, "rec_filesink"@, 0, "async"@, Val::Flag(false))
            &&& sets(p, "rec_filesink"@, 0, "sync"@, Val::Flag(false))
        }),
{
    let p = consumers::recording_video_plan(fps, kbps);
    reveal_strlit("async");
    reveal_strlit("bitrate");
    reveal_strlit("channel");
    reveal_strlit("do-timestamp");
    reveal_strlit("key-int-max");
    reveal_strlit("leaky");
    reveal_strlit("location");
    reveal_strlit("max-size-buffers");
    reveal_strlit("max-size-bytes");
    reveal_strlit("max-size-time");
    reveal_strlit("speed-preset");
    reveal_strlit("sync");
    reveal_strlit("threads");
    reveal_strlit("tune");
    assert("channel"@.len() != "do-timestamp"@.len());
    assert("max-size-buffers"@.len() != "max-size-bytes"@.len());
    assert("max-size-buffers"@.len() != "max-size-time"@.len());
    assert("max-size-buffers"@.len() != "leaky"@.len());
    assert("max-size-bytes"@.len() != "max-size-time"@.len());
    assert("max-size-bytes"@.len() != "leaky"@.len());
    assert("max-size-time"@.len() != "leaky"@.len());
    assert("speed-preset"@.len() != "tune"@.len());
    assert("speed-preset"@.len() != "threads"@.len());
    assert("speed-preset"@.len() != "bitrate"@.len());
    assert("speed-preset"@.len() != "key-int-max"@.len());
    assert("tune"@.len() != "threads"@.len());
    assert("tune"@.len() != "bitrate"@.len());
    assert("tune"@.len() != "key-int-max"@.len());
    assert("threads"@[0] != "bitrate"@[0]);
    assert("threads"@.len() != "key-int-max"@.len());
    assert("bitrate"@.len() != "key-int-max"@.len());
    assert("location"@.len() != "async"@.len());
    assert("location"@.len() != "sync"@.len());
    assert("async"@.len() != "sync"@.len());
    assert(p.nodes[0].candidates[0].properties[0].name == "channel"@);
    assert(p.nodes[0].candidates[0].properties[1].name == "do-timestamp"@);
    assert(p.nodes[0].candidates[0].properties.len() == 2);
    lemma_sets(p, 0, 0);
    assert(p.nodes[1].candidates[0].properties[0].name == "drop"@);
    lemma_sets(p, 1, 0);
    assert(p.nodes[2].candidates[0].properties[0].name == "max-size-buffers"@);
    assert(p.nodes[2].candidates[0].properties[1].name == "max-size-bytes"@);
    assert(p.nodes[2].candidates[0].properties[2].name == "max-size-time"@);
    assert(p.nodes[2].candidates[0].properties[3].name == "leaky"@);
    assert(p.nodes[2].candidates[0].properties.len() == 4);
    lemma_sets(p, 2, 0);
    lemma_sets(p, 3, 0);
    assert(p.nodes[4].candidates[0].properties[0].name == "speed-preset"@);
    assert(p.nodes[4].candidates[0].properties[1].name == "tune"@);
    assert(p.nodes[4].candidates[0].properties[2].name == "threads"@);
    assert(p.nodes[4].candidates[0].properties[3].name == "bitrate"@);
    assert(p.nodes[4].candidates[0].properties[4].name == "key-int-max"@);
    assert(p.nodes[4].candidates[0].properties.len() == 5);
    lemma_sets(p, 4, 0);
    assert(p.nodes[5].candidates[0].properties[0].name == "location"@);
    assert(p.nodes[5].candidates[0].properties[1].name == "async"@);
    assert(p.nodes[5].candidates[0].properties[2].name == "sync"@);
    assert(p.nodes[5].candidates[0].properties.len() == 3);
    lemma_sets(p, 5, 0);
}

/// A recording's picture goes through the valve before it is encoded and written.
pub proof fn law_recording_order(fps: u32, kbps: u32)
    ensures
        ({
            let p = consumers::recording_video_plan(fps, kbps);
            &&& flows(p, seq!["rec_intervideosrc"@, "rec_valve"@, "rec_queue"@, "rec_videoconvert"@, "rec_encoder"@, "rec_filesink"@])
        }),
{
    let p = consumers::recording_video_plan(fps, kbps);
    assert(p.edges[0].from == 0 && p.edges[0].to == 1);
    assert(p.nodes[0].name == "rec_intervideosrc"@ && p.nodes[1].name == "rec_valve"@);
    lemma_leads(p, 0);
    assert(p.edges[1].from == 1 && p.edges[1].to == 2);
    assert(p.nodes[1].name == "rec_valve"@ && p.nodes[2].name == "rec_queue"@);
    lemma_leads(p, 1);
    assert(p.edges[2].from == 2 && p.edges[2].to == 3);
    assert(p.nodes[2].name == "rec_queue"@ && p.nodes[3].name == "rec_videoconvert"@);
    lemma_leads(p, 2);
    assert(p.edges[3].from == 3 && p.edges[3].to == 4);
    assert(p.nodes[3].name == "rec_videoconvert"@ && p.nodes[4].name == "rec_encoder"@);
    lemma_leads(p, 3);
    assert(p.edges[4].from == 4 && p.edges[4].to == 5);
    assert(p.nodes[4].name == "rec_encoder"@ && p.nodes[5].name == "rec_filesink"@);
    lemma_leads(p, 4);
}

/// The sound side of a recording is gated and discards in the same way.
pub proof fn law_recording_sound_settings()
    ensures
        ({
            let p = consumers::recording_audio_plan();
            &&& offers(p, "rec_interaudiosrc"@, 1)
            &&& makes(p, "rec_interaudiosrc"@, 0, "interaudiosrc"@)
            &&& sets(p, "rec_interaudiosrc"@, 0, "channel"@, Val::Text("aicam-audio-rec"@))
            &&& sets(p, "rec_interaudiosrc"@, 0, "do-timestamp"@, Val::Flag(false))
            &&& offers(p, "audio_rec_valve"@, 1)
            &&& makes(p, "audio_rec_valve"@, 0, "valve"@)
            &&& sets(p, "audio_rec_valve"@, 0, "drop"@, Val::Flag(true))
            &&& offers(p, "audio_rec_queue"@, 1)
            &&& makes(p, "audio_rec_queue"@, 0, "queue"@)
            &&& offers(p, "audio_rec_encoder"@, 1)
            &&& makes(p, "audio_rec_encoder"@, 0, "flacenc"@)
            &&& offers(p, "audio_rec_filesink"@, 1)
            &&& makes(p, "audio_rec_filesink"@, 0, "filesink"@)
            &&& sets(p, "audio_rec_filesink"@, 0, "location"@, Val::Text("/dev/null"@))
            &&& sets(p, "audio_rec_filesink"@, 0, "async"@, Val::Flag(false))
            &&& sets(p, "audio_rec_filesink"@, 0, "sync"@, Val::Flag(false))
        }),
{
    let p = consumers::recording_audio_plan();
    reveal_strlit("async");
    reveal_strlit("channel");
    reveal_strlit("do-timestamp");
    reveal_strlit("location");
    reveal_strlit("sync");
    assert("channel"@.len() != "do-timestamp"@.len());
    assert("location"@.len() != "async"@.len());
    assert("location"@.len() != "sync"@.len());
    assert("async"@.len() != "sync"@.len());
    assert(p.nodes[0].candidates[0].properties[0].name == "channel"@);
    assert(p.nodes[0].candidates[0].properties[1].name == "do-timestamp"@);
    assert(p.nodes[0].candidates[0].properties.len() == 2);
    lemma_sets(p, 0, 0);
    assert(p.nodes[1].candidates[0].properties[0].name == "drop"@);
    lemma_sets(p, 1, 0);
    lemma_sets(p, 2, 0);
    lemma_sets(p, 3, 0);
    assert(p.nodes[4].candidates[0].properties[0].name == "location"@);
    assert(p.nodes[4].candidates[0].properties[1].name == "async"@);
    assert(p.nodes[4].candidates[0].properties[2].name == "sync"@);
    assert(p.nodes[4].candidates[0].properties.len() == 3);
    lemma_sets(p, 4, 0);
}

/// A recording's sound goes through the valve before it is encoded and written.
pub proof fn law_recording_sound_order()
    ensures
        ({
            let p = consumers::recording_audio_plan();
            &&& flows(p, seq!["rec_interaudiosrc"@, "audio_rec_valve"@, "audio_rec_queue"@, "audio_rec_encoder"@, "audio_rec_filesink"@])
        }),
{
    let p = consumers::recording_audio_plan();
    assert(p.edges[0].from == 0 && p.edges[0].to == 1);
    assert(p.nodes[0].name == "rec_interaudiosrc"@ && p.nodes[1].name == "audio_rec_valve"@);
    lemma_leads(p, 0);
    assert(p.edges[1].from == 1 && p.edges[1].to == 2);
    assert(p.nodes[1].name == "audio_rec_valve"@ && p.nodes[2].name == "audio_rec_queue"@);
    lemma_leads(p, 1);
    assert(p.edges[2].from == 2 && p.edges[2].to == 3);
    assert(p.nodes[2].name == "audio_rec_queue"@ && p.nodes[3].name == "audio_rec_encoder"@);
    lemma_leads(p, 2);
    assert(p.edges[3].from == 3 && p.edges[3].to == 4);
    assert(p.nodes[3].name == "audio_rec_encoder"@ && p.nodes[4].name == "audio_rec_filesink"@);
    lemma_leads(p, 3);
}

/// Frame export keeps at most two frames and drops the oldest.
pub proof fn law_frame_export_settings()
    ensures
        ({
            let p = consumers::frame_export_plan();
            &&& offers(p, "frame_export_intervideosrc"@, 1)
            &&& makes(p, "frame_export_intervideosrc"@, 0, "intervideosrc"@)
            &&& sets(p, "frame_export_intervideosrc"@, 0, "channel"@, Val::Text("aicam-main"@))
            &&& sets(p, "frame_export_intervideosrc"@, 0, "do-timestamp"@, Val::Flag(false))
            &&& offers(p, "frame_export_queue"@, 1)
            &&& makes(p, "frame_export_queue"@, 0, "queue"@)
            &&& sets(p, "frame_export_queue"@, 0, "max-size-buffers"@, Val::U32(2))
            &&& sets(p, "frame_export_queue"@, 0, "max-size-bytes"@, Val::U32(0))
            &&& sets(p, "frame_export_queue"@, 0, "max-size-time"@, Val::U64(0))
            &&& sets(p, "frame_export_queue"@, 0, "leaky"@, Val::Nick("downstream"@))
            &&& offers(p, "frame_export_sink"@, 1)
            &&& makes(p, "frame_export_sink"@, 0, "appsink"@)
            &&& sets(p, "frame_export_sink"@, 0, "max-buffers"@, Val::U32(2))
            &&& sets(p, "frame_export_sink"@, 0, "drop"@, Val::Flag(true))
            &&& sets(p, "frame_export_sink"@, 0, "sync"@, Val::Flag(false))
        }),
{
    let p = consumers::frame_export_plan();
    reveal_strlit("channel");
    reveal_strlit("do-timestamp");
    reveal_strlit("drop");
    reveal_strlit("leaky");
    reveal_strlit("max-buffers");
    reveal_strlit("max-size-buffers");
    reveal_strlit("max-size-bytes");
    reveal_strlit("max-size-time");
    reveal_strlit("sync");
    assert("channel"@.len() != "do-timestamp"@.len());
    assert("max-size-buffers"@.len() != "max-size-bytes"@.len());
    assert("max-size-buffers"@.len() != "max-size-time"@.len());
    assert("max-size-buffers"@.len() != "leaky"@.len());
    assert("max-size-bytes"@.len() != "max-size-time"@.len());
    assert("max-size-bytes"@.len() != "leaky"@.len());
    assert("max-size-time"@.len() != "leaky"@.len());
    assert("max-buffers"@.len() != "drop"@.len());
    assert("max-buffers"@.len() != "sync"@.len());
    assert("drop"@[0] != "sync"@[0]);
    assert(p.nodes[0].candidates[0].properties[0].name == "channel"@);
    assert(p.nodes[0].candidates[0].properties[1].name == "do-timestamp"@);
    assert(p.nodes[0].candidates[0].properties.len() == 2);
    lemma_sets(p, 0, 0);
    assert(p.nodes[1].candidates[0].properties[0].name == "max-size-buffers"@);
    assert(p.nodes[1].candidates[0].properties[1].name == "max-size-bytes"@);
    assert(p.nodes[1].candidates[0].properties[2].name == "max-size-time"@);
    assert(p.nodes[1].candidates[0].properties[3].name == "leaky"@);
    assert(p.nodes[1].candidates[0].properties.len() == 4);
    lemma_sets(p, 1, 0);
    assert(p.nodes[2].candidates[0].properties[0].name == "max-buffers"@);
    assert(p.nodes[2].candidates[0].properties[1].name == "drop"@);
    assert(p.nodes[2].candidates[0].properties[2].name == "sync"@);
    assert(p.nodes[2].candidates[0].properties.len() == 3);
    lemma_sets(p, 2, 0);
}

/// Exported frames pass the queue.
pub proof fn law_frame_export_order()
    ensures
        ({
            let p = consumers::frame_export_plan();
            &&& flows(p, seq!["frame_export_intervideosrc"@, "frame_export_queue"@, "frame_export_sink"@])
        }),
{
    let p = consumers::frame_export_plan();
    assert(p.edges[0].from == 0 && p.edges[0].to == 1);
    assert(p.nodes[0].name == "frame_export_intervideosrc"@ && p.nodes[1].name == "frame_export_queue"@);
    lemma_leads(p, 0);
    assert(p.edges[1].from == 1 && p.edges[1].to == 2);
    assert(p.nodes[1].name == "frame_export_queue"@ && p.nodes[2].name == "frame_export_sink"@);
    lemma_leads(p, 1);
}

/// The network, its library and its function are those of the model, and frames
/// come to it at its rate.
#[verifier::rlimit(40)]
pub proof fn law_detection_settings(model: ResolvedModel, exporter: Seq<char>)
    ensures
        ({
            let p = consumers::detection_plan(model, exporter);
            &&& offers(p, "ai_intervideosrc"@, 1)
            &&& makes(p, "ai_intervideosrc"@, 0, "intervideosrc"@)
            &&& sets(p, "ai_intervideosrc"@, 0, "channel"@, Val::Text("aicam-main"@))
            &&& sets(p, "ai_intervideosrc"@, 0, "do-timestamp"@, Val::Flag(false))
            &&& offers(p, "ai_queue"@, 1)
            &&& makes(p, "ai_queue"@, 0, "queue"@)
            &&& sets(p, "ai_queue"@, 0, "max-size-buffers"@, Val::U32(2))
            &&& sets(p, "ai_queue"@, 0, "leaky"@, Val::Nick("downstream"@))
            &&& offers(p, "ai_videoscale"@, 1)
            &&& makes(p, "ai_videoscale"@, 0, "videoscale"@)
            &&& offers(p, "ai_videoconvert"@, 1)
            &&& makes(p, "ai_videoconvert"@, 0, "videoconvert"@)
            &&& sets(p, "ai_videoconvert"@, 0, "n-threads"@, Val::U32(2))
            &&& offers(p, "ai_videorate"@, 1)
            &&& makes(p, "ai_videorate"@, 0, "videorate"@)
            &&& offers(p, "ai_hailonet"@, 1)
            &&& makes(p, "ai_hailonet"@, 0, "hailonet"@)
            &&& sets(p, "ai_hailonet"@, 0, "hef-path"@, Val::Nick(model.hef_path@))
            &&& sets(p, "ai_hailonet"@, 0, "is-active"@, Val::Flag(true))
            &&& offers(p, "ai_hailofilter"@, 1)
            &&& makes(p, "ai_hailofilter"@, 0, "hailofilter"@)
            &&& sets(p, "ai_hailofilter"@, 0, "so-path"@, Val::Nick(model.postprocess_so@))
            &&& sets(p, "ai_hailofilter"@, 0, "function-name"@, Val::Nick(model.postprocess_fn@))
            &&& sets(p, "ai_hailofilter"@, 0, "qos"@, Val::Flag(false))
        }),
{
    let p = consumers::detection_plan(model, exporter);
    reveal_strlit("channel");
    reveal_strlit("do-timestamp");
    reveal_strlit("function-name");
    reveal_strlit("hef-path");
    reveal_strlit("is-active");
    reveal_strlit("leaky");
    reveal_strlit("max-size-buffers");
    reveal_strlit("qos");
    reveal_strlit("so-path");
    assert("channel"@.len() != "do-timestamp"@.len());
    assert("max-size-buffers"@.len() != "leaky"@.len());
    assert("hef-path"@.len() != "is-active"@.len());
    assert("so-path"@.len() != "function-name"@.len());
    assert("so-path"@.len() != "qos"@.len());
    assert("function-name"@.len() != "qos"@.len());
    assert(p.nodes[0].candidates[0].properties[0].name == "channel"@);
    assert(p.nodes[0].candidates[0].properties[1].name == "do-timestamp"@);
    assert(p.nodes[0].candidates[0].properties.len() == 2);
    lemma_sets(p, 0, 0);
    assert(p.nodes[1].candidates[0].properties[0].name == "max-size-buffers"@);
    assert(p.nodes[1].candidates[0].properties[1].name == "leaky"@);
    assert(p.nodes[1].candidates[0].properties.len() == 2);
    lemma_sets(p, 1, 0);
    lemma_sets(p, 2, 0);
    assert(p.nodes[3].candidates[0].properties[0].name == "n-threads"@);
    lemma_sets(p, 3, 0);
    lemma_sets(p, 5, 0);
    assert(p.nodes[7].candidates[0].properties[0].name == "hef-path"@);
    assert(p.nodes[7].candidates[0].properties[1].name == "is-active"@);
    assert(p.nodes[7].candidates[0].properties.len() == 2);
    lemma_sets(p, 7, 0);
    assert(p.nodes[8].candidates[0].properties[0].name == "so-path"@);
    assert(p.nodes[8].candidates[0].properties[1].name == "function-name"@);
    assert(p.nodes[8].candidates[0].properties[2].name == "qos"@);
    assert(p.nodes[8].candidates[0].properties.len() == 3);
    lemma_sets(p, 8, 0);
}

/// The boxes are painted, and the newest frame is handed over as an image.
#[verifier::rlimit(40)]
pub proof fn law_detection_image(model: ResolvedModel, exporter: Seq<char>)
    ensures
        ({
            let p = consumers::detection_plan(model, exporter);
            &&& offers(p, "ai_hailooverlay"@, 1)
            &&& makes(p, "ai_hailooverlay"@, 0, "hailooverlay"@)
            &&& sets(p, "ai_hailooverlay"@, 0, "qos"@, Val::Flag(false))
            &&& sets(p, "ai_hailooverlay"@, 0, "line-thickness"@, Val::I32(2))
            &&& sets(p, "ai_hailooverlay"@, 0, "font-thickness"@, Val::I32(2))
            &&& sets(p, "ai_hailooverlay"@, 0, "landmark-point-radius"@, Val::Single(0x40c0_0000))
            &&& offers(p, "ai_post_convert"@, 1)
            &&& makes(p, "ai_post_convert"@, 0, "videoconvert"@)
            &&& offers(p, "ai_jpegenc"@, 1)
            &&& makes(p, "ai_jpegenc"@, 0, "jpegenc"@)
            &&& sets(p, "ai_jpegenc"@, 0, "quality"@, Val::I32(80))
            &&& offers(p, "ai_sink"@, 1)
            &&& makes(p, "ai_sink"@, 0, "appsink"@)
            &&& sets(p, "ai_sink"@, 0, "max-buffers"@, Val::U32(1))
            &&& sets(p, "ai_sink"@, 0, "drop"@, Val::Flag(true))
            &&& sets(p, "ai_sink"@, 0, "sync"@, Val::Flag(false))
        }),
{
    let p = consumers::detection_plan(model, exporter);
    reveal_strlit("drop");
    reveal_strlit("font-thickness");
    reveal_strlit("landmark-point-radius");
    reveal_strlit("line-thickness");
    reveal_strlit("max-buffers");
    reveal_strlit("qos");
    reveal_strlit("sync");
    assert("qos"@.len() != "line-thickness"@.len());
    assert("qos"@.len() != "font-thickness"@.len());
    assert("qos"@.len() != "landmark-point-radius"@.len());
    assert("line-thickness"@[0] != "font-thickness"@[0]);
    assert("line-thickness"@.len() != "landmark-point-radius"@.len());
    assert("font-thickness"@.len() != "landmark-point-radius"@.len());
    assert("max-buffers"@.len() != "drop"@.len());
    assert("max-buffers"@.len() != "sync"@.len());
    assert("drop"@[0] != "sync"@[0]);
    let n: int = if model.publish_detections {
        10
    } else {
        9
    };
    assert(p.nodes[n].candidates[0].properties[0].name == "qos"@);
    assert(p.nodes[n].candidates[0].properties[1].name == "line-thickness"@);
    assert(p.nodes[n].candidates[0].properties[2].name == "font-thickness"@);
    assert(p.nodes[n].candidates[0].properties[3].name == "landmark-point-radius"@);
    assert(p.nodes[n].candidates[0].properties.len() == 4);
    lemma_sets(p, n, 0);
    lemma_sets(p, n + 1, 0);
    assert(p.nodes[n + 2].candidates[0].properties[0].name == "quality"@);
    lemma_sets(p, n + 2, 0);
    assert(p.nodes[n + 3].candidates[0].properties[0].name == "max-buffers"@);
    assert(p.nodes[n + 3].candidates[0].properties[1].name == "drop"@);
    assert(p.nodes[n + 3].candidates[0].properties[2].name == "sync"@);
    assert(p.nodes[n + 3].candidates[0].properties.len() == 3);
    lemma_sets(p, n + 3, 0);
}

/// A model that publishes has its detections exported by the exporter's library.
pub proof fn law_detections_exported(model: ResolvedModel, exporter: Seq<char>)
    requires
        model.publish_detections,
    ensures
        ({
            let p = consumers::detection_plan(model, exporter);
            &&& offers(p, "ai_meta_export"@, 1)
            &&& makes(p, "ai_meta_export"@, 0, "hailofilter"@)
            &&& sets(p, "ai_meta_export"@, 0, "so-path"@, Val::Nick(exporter))
            &&& sets(p, "ai_meta_export"@, 0, "function-name"@, Val::Nick("export_metadata"@))
            &&& sets(p, "ai_meta_export"@, 0, "qos"@, Val::Flag(false))
        }),
{
    let p = consumers::detection_plan(model, exporter);
    reveal_strlit("function-name");
    reveal_strlit("qos");
    reveal_strlit("so-path");
    assert("so-path"@.len() != "function-name"@.len());
    assert("so-path"@.len() != "qos"@.len());
    assert("function-name"@.len() != "qos"@.len());
    assert(p.nodes[9].candidates[0].properties[0].name == "so-path"@);
    assert(p.nodes[9].candidates[0].properties[1].name == "function-name"@);
    assert(p.nodes[9].candidates[0].properties[2].name == "qos"@);
    assert(p.nodes[9].candidates[0].properties.len() == 3);
    lemma_sets(p, 9, 0);
}

/// Frames are brought to the model's form and rate before they reach the network,
/// and detections are exported before they are painted.
#[verifier::rlimit(60)]
pub proof fn law_published_detection_order(model: ResolvedModel, exporter: Seq<char>)
    requires
        model.publish_detections,
    ensures
        ({
            let p = consumers::detection_plan(model, exporter);
            &&& flows(p, seq!["ai_intervideosrc"@, "ai_queue"@, "ai_videoscale"@, "ai_videoconvert"@, "ai_caps"@, "ai_videorate"@, "ai_fps_caps"@, "ai_hailonet"@, "ai_hailofilter"@, "ai_meta_export"@, "ai_hailooverlay"@, "ai_post_convert"@, "ai_jpegenc"@, "ai_sink"@])
        }),
{
    let p = consumers::detection_plan(model, exporter);
    assert(p.edges[0].from == 0 && p.edges[0].to == 1);
    assert(p.nodes[0].name == "ai_intervideosrc"@ && p.nodes[1].name == "ai_queue"@);
    lemma_leads(p, 0);
    assert(p.edges[1].from == 1 && p.edges[1].to == 2);
    assert(p.nodes[1].name == "ai_queue"@ && p.nodes[2].name == "ai_videoscale"@);
    lemma_leads(p, 1);
    assert(p.edges[2].from == 2 && p.edges[2].to == 3);
    assert(p.nodes[2].name == "ai_videoscale"@ && p.nodes[3].name == "ai_videoconvert"@);
    lemma_leads(p, 2);
    assert(p.edges[3].from == 3 && p.edges[3].to == 4);
    assert(p.nodes[3].name == "ai_videoconvert"@ && p.nodes[4].name == "ai_caps"@);
    lemma_leads(p, 3);
    assert(p.edges[4].from == 4 && p.edges[4].to == 5);
    assert(p.nodes[4].name == "ai_caps"@ && p.nodes[5].name == "ai_videorate"@);
    lemma_leads(p, 4);
    assert(p.edges[5].from == 5 && p.edges[5].to == 6);
    assert(p.nodes[5].name == "ai_videorate"@ && p.nodes[6].name == "ai_fps_caps"@);
    lemma_leads(p, 5);
    assert(p.edges[6].from == 6 && p.edges[6].to == 7);
    assert(p.nodes[6].name == "ai_fps_caps"@ && p.nodes[7].name == "ai_hailonet"@);
    lemma_leads(p, 6);
    assert(p.edges[7].from == 7 && p.edges[7].to == 8);
    assert(p.nodes[7].name == "ai_hailonet"@ && p.nodes[8].name == "ai_hailofilter"@);
    lemma_leads(p, 7);
    assert(p.edges[8].from == 8 && p.edges[8].to == 9);
    assert(p.nodes[8].name == "ai_hailofilter"@ && p.nodes[9].name == "ai_meta_export"@);
    lemma_leads(p, 8);
    assert(p.edges[9].from == 9 && p.edges[9].to == 10);
    assert(p.nodes[9].name == "ai_meta_export"@ && p.nodes[10].name == "ai_hailooverlay"@);
    lemma_leads(p, 9);
    assert(p.edges[10].from == 10 && p.edges[10].to == 11);
    assert(p.nodes[10].name == "ai_hailooverlay"@ && p.nodes[11].name == "ai_post_convert"@);
    lemma_leads(p, 10);
    assert(p.edges[11].from == 11 && p.edges[11].to == 12);
    assert(p.nodes[11].name == "ai_post_convert"@ && p.nodes[12].name == "ai_jpegenc"@);
    lemma_leads(p, 11);
    assert(p.edges[12].from == 12 && p.edges[12].to == 13);
    assert(p.nodes[12].name == "ai_jpegenc"@ && p.nodes[13].name == "ai_sink"@);
    lemma_leads(p, 12);
}

/// A model that does not publish has no stage that exports.
#[verifier::rlimit(60)]
pub proof fn law_detection_order(model: ResolvedModel, exporter: Seq<char>)
    requires
        !model.publish_detections,
    ensures
        ({
            let p = consumers::detection_plan(model, exporter);
            &&& flows(p, seq!["ai_intervideosrc"@, "ai_queue"@, "ai_videoscale"@, "ai_videoconvert"@, "ai_caps"@, "ai_videorate"@, "ai_fps_caps"@, "ai_hailonet"@, "ai_hailofilter"@, "ai_hailooverlay"@, "ai_post_convert"@, "ai_jpegenc"@, "ai_sink"@])
            &&& lacks(p, "ai_meta_export"@)
        }),
{
    let p = consumers::detection_plan(model, exporter);
    reveal_strlit("ai_meta_export");
    reveal_strlit("ai_intervideosrc");
    reveal_strlit("ai_queue");
    reveal_strlit("ai_videoscale");
    reveal_strlit("ai_videoconvert");
    reveal_strlit("ai_caps");
    reveal_strlit("ai_videorate");
    reveal_strlit("ai_fps_caps");
    reveal_strlit("ai_hailonet");
    reveal_strlit("ai_hailofilter");
    reveal_strlit("ai_hailooverlay");
    reveal_strlit("ai_post_convert");
    reveal_strlit("ai_jpegenc");
    reveal_strlit("ai_sink");
    assert("ai_hailofilter"@.len() != 14 || "ai_hailofilter"@[3] != "ai_meta_export"@[3]);
    assert(p.nodes.len() == 13);
    assert forall|n: int| 0 <= n < p.nodes.len() implies (#[trigger] p.nodes[n]).name != "ai_meta_export"@ by {
        assert(n == 0 ==> p.nodes[n].name == "ai_intervideosrc"@);
        assert(n == 1 ==> p.nodes[n].name == "ai_queue"@);
        assert(n == 2 ==> p.nodes[n].name == "ai_videoscale"@);
        assert(n == 3 ==> p.nodes[n].name == "ai_videoconvert"@);
        assert(n == 4 ==> p.nodes[n].name == "ai_caps"@);
        assert(n == 5 ==> p.nodes[n].name == "ai_videorate"@);
        assert(n == 6 ==> p.nodes[n].name == "ai_fps_caps"@);
        assert(n == 7 ==> p.nodes[n].name == "ai_hailonet"@);
        assert(n == 8 ==> p.nodes[n].name == "ai_hailofilter"@);
        assert(n == 9 ==> p.nodes[n].name == "ai_hailooverlay"@);
        assert(n == 10 ==> p.nodes[n].name == "ai_post_convert"@);
        assert(n == 11 ==> p.nodes[n].name == "ai_jpegenc"@);
        assert(n == 12 ==> p.nodes[n].name == "ai_sink"@);
    }
    assert(p.edges[0].from == 0 && p.edges[0].to == 1);
    assert(p.nodes[0].name == "ai_intervideosrc"@ && p.nodes[1].name == "ai_queue"@);
    lemma_leads(p, 0);
    assert(p.edges[1].from == 1 && p.edges[1].to == 2);
    assert(p.nodes[1].name == "ai_queue"@ && p.nodes[2].name == "ai_videoscale"@);
    lemma_leads(p, 1);
    assert(p.edges[2].from == 2 && p.edges[2].to == 3);
    assert(p.nodes[2].name == "ai_videoscale"@ && p.nodes[3].name == "ai_videoconvert"@);
    lemma_leads(p, 2);
    assert(p.edges[3].from == 3 && p.edges[3].to == 4);
    assert(p.nodes[3].name == "ai_videoconvert"@ && p.nodes[4].name == "ai_caps"@);
    lemma_leads(p, 3);
    assert(p.edges[4].from == 4 && p.edges[4].to == 5);
    assert(p.nodes[4].name == "ai_caps"@ && p.nodes[5].name == "ai_videorate"@);
    lemma_leads(p, 4);
    assert(p.edges[5].from == 5 && p.edges[5].to == 6);
    assert(p.nodes[5].name == "ai_videorate"@ && p.nodes[6].name == "ai_fps_caps"@);
    lemma_leads(p, 5);
    assert(p.edges[6].from == 6 && p.edges[6].to == 7);
    assert(p.nodes[6].name == "ai_fps_caps"@ && p.nodes[7].name == "ai_hailonet"@);
    lemma_leads(p, 6);
    assert(p.edges[7].from == 7 && p.edges[7].to == 8);
    assert(p.nodes[7].name == "ai_hailonet"@ && p.nodes[8].name == "ai_hailofilter"@);
    lemma_leads(p, 7);
    assert(p.edges[8].from == 8 && p.edges[8].to == 9);
    assert(p.nodes[8].name == "ai_hailofilter"@ && p.nodes[9].name == "ai_hailooverlay"@);
    lemma_leads(p, 8);
    assert(p.edges[9].from == 9 && p.edges[9].to == 10);
    assert(p.nodes[9].name == "ai_hailooverlay"@ && p.nodes[10].name == "ai_post_convert"@);
    lemma_leads(p, 9);
    assert(p.edges[10].from == 10 && p.edges[10].to == 11);
    assert(p.nodes[10].name == "ai_post_convert"@ && p.nodes[11].name == "ai_jpegenc"@);
    lemma_leads(p, 10);
    assert(p.edges[11].from == 11 && p.edges[11].to == 12);
    assert(p.nodes[11].name == "ai_jpegenc"@ && p.nodes[12].name == "ai_sink"@);
    lemma_leads(p, 11);
}

/// A part of a text that stands between commas, or between one and the end.
proof fn lemma_says(caps: Seq<char>, a: Seq<char>, field: Seq<char>, value: Seq<char>, b: Seq<char>)
    requires
        caps == a + (field + seq!['='] + value) + b,
        a.len() > 0,
        a.last() == ',',
        b.len() > 0 ==> b[0] == ',',
    ensures
        says(caps, field, value),
{
    let start = a.len() as int;
    let end = start + field.len() + 1 + value.len();
    assert(caps.subrange(start, end) =~= field + seq!['='] + value);
    if end < caps.len() {
        assert(caps[end] == b[0]);
    }
}

/// Capabilities with four fields behind a prefix, field by field.
proof fn lemma_four_fields(
    prefix: Seq<char>,
    names: (Seq<char>, Seq<char>, Seq<char>, Seq<char>),
    values: (Seq<char>, Seq<char>, Seq<char>, Seq<char>),
)
    ensures
        ({
            let (comma, equals) = (seq![','], seq!['=']);
            let caps = prefix + (comma + (names.0 + equals + values.0)) + (comma + (names.1 + equals
                + values.1)) + (comma + (names.2 + equals + values.2)) + (comma + (names.3 + equals
                + values.3));
            &&& prefix.is_prefix_of(caps)
            &&& says(caps, names.0, values.0)
            &&& says(caps, names.1, values.1)
            &&& says(caps, names.2, values.2)
            &&& says(caps, names.3, values.3)
        }),
{
    let comma = seq![','];
    let f0 = names.0 + seq!['='] + values.0;
    let f1 = names.1 + seq!['='] + values.1;
    let f2 = names.2 + seq!['='] + values.2;
    let f3 = names.3 + seq!['='] + values.3;
    let caps = prefix + (comma + f0) + (comma + f1) + (comma + f2) + (comma + f3);
    assert(caps =~= (prefix + comma) + f0 + ((comma + f1) + (comma + f2) + (comma + f3)));
    lemma_says(
        caps,
        prefix + comma,
        names.0,
        values.0,
        (comma + f1) + (comma + f2) + (comma + f3),
    );
    assert(caps =~= (prefix + (comma + f0) + comma) + f1 + ((comma + f2) + (comma + f3)));
    lemma_says(
        caps,
        prefix + (comma + f0) + comma,
        names.1,
        values.1,
        (comma + f2) + (comma + f3),
    );
    assert(caps =~= (prefix + (comma + f0) + (comma + f1) + comma) + f2 + (comma + f3));
    lemma_says(
        caps,
        prefix + (comma + f0) + (comma + f1) + comma,
        names.2,
        values.2,
        comma + f3,
    );
    let last = prefix + (comma + f0) + (comma + f1) + (comma + f2) + comma;
    assert(caps =~= last + f3 + Seq::<char>::empty());
    lemma_says(caps, last, names.3, values.3, Seq::empty());
    assert(caps.subrange(0, prefix.len() as int) =~= prefix);
}

proof fn lemma_caps_literals()
    ensures
        ",format=NV12,width="@ == seq![','] + ("format"@ + seq!['='] + "NV12"@) + seq![',']
            + "width"@ + seq!['='],
        ",height="@ == seq![','] + "height"@ + seq!['='],
        ",framerate="@ == seq![','] + "framerate"@ + seq!['='],
{
    reveal_strlit(",format=NV12,width=");
    reveal_strlit(",height=");
    reveal_strlit(",framerate=");
    reveal_strlit("format");
    reveal_strlit("NV12");
    reveal_strlit("width");
    reveal_strlit("height");
    reveal_strlit("framerate");
    assert(",format=NV12,width="@ =~= seq![','] + ("format"@ + seq!['='] + "NV12"@) + seq![',']
        + "width"@ + seq!['=']);
    assert(",height="@ =~= seq![','] + "height"@ + seq!['=']);
    assert(",framerate="@ =~= seq![','] + "framerate"@ + seq!['=']);
}

/// A field's name and its value, put down one after the other.
proof fn lemma_field_joined(a: Seq<char>, name: Seq<char>, value: Seq<char>, unit: Seq<char>)
    ensures
        a + (seq![','] + name + seq!['=']) + value + unit == a + (seq![','] + (name + seq!['='] + (
        value + unit))),
{
    assert(a + (seq![','] + name + seq!['=']) + value + unit =~= a + (seq![','] + (name + seq!['=']
        + (value + unit))));
}

proof fn lemma_two_fields_joined(a: Seq<char>, first: Seq<char>, name: Seq<char>, value: Seq<char>)
    ensures
        a + (seq![','] + first + seq![','] + name + seq!['=']) + value == a + (seq![','] + first)
            + (seq![','] + (name + seq!['='] + value)),
{
    assert(a + (seq![','] + first + seq![','] + name + seq!['=']) + value =~= a + (seq![',']
        + first) + (seq![','] + (name + seq!['='] + value)));
}

/// The capabilities of frames, field by field.
proof fn lemma_frame_caps(prefix: Seq<char>, width: u32, height: u32, fps: u32)
    ensures
        ({
            let caps = producer::frame_caps(prefix, width, height, fps);
            &&& prefix.is_prefix_of(caps)
            &&& says(caps, "format"@, "NV12"@)
            &&& says(caps, "width"@, text::decimal(width as nat))
            &&& says(caps, "height"@, text::decimal(height as nat))
            &&& says(caps, "framerate"@, text::decimal(fps as nat) + "/1"@)
        }),
{
    let caps = producer::frame_caps(prefix, width, height, fps);
    let (w, h, f) = (
        text::decimal(width as nat),
        text::decimal(height as nat),
        text::decimal(fps as nat),
    );
    let (comma, equals) = (seq![','], seq!['=']);
    lemma_caps_literals();
    lemma_four_fields(
        prefix,
        ("format"@, "width"@, "height"@, "framerate"@),
        ("NV12"@, w, h, f + "/1"@),
    );
    let two = prefix + (comma + ("format"@ + equals + "NV12"@)) + (comma + ("width"@ + equals + w));
    lemma_two_fields_joined(prefix, "format"@ + equals + "NV12"@, "width"@, w);
    let three = two + (comma + ("height"@ + equals + h));
    lemma_field_joined(two, "height"@, h, Seq::empty());
    assert(h + Seq::<char>::empty() =~= h);
    assert(two + ",height="@ + h + Seq::<char>::empty() =~= two + ",height="@ + h);
    lemma_field_joined(three, "framerate"@, f, "/1"@);
    assert(caps == three + ",framerate="@ + f + "/1"@);
}

/// The live producer asks the camera for frames of the configured width, height
/// and rate: the capabilities of its filter name each of them.
pub proof fn law_live_frames_as_configured(
    backend: CameraBackend,
    nvargus_present: bool,
    width: u32,
    height: u32,
    fps: u32,
    orientation: Orientation,
    audio: bool,
    device: Option<Seq<char>>,
)
    ensures
        ({
            let p = producer::live_plan(
                producer::live_video(backend, nvargus_present, width, height, fps, orientation),
                audio,
                device,
            );
            exists|caps: Seq<char>| #[trigger]
                sets(p, "live_producer_video_caps"@, 0, "caps"@, Val::Caps(caps))
                    && "video/x-raw"@.is_prefix_of(caps) && says(caps, "format"@, "NV12"@) && says(
                    caps,
                    "width"@,
                    text::decimal(width as nat),
                ) && says(caps, "height"@, text::decimal(height as nat)) && says(
                    caps,
                    "framerate"@,
                    text::decimal(fps as nat) + "/1"@,
                )
        }),
        backend == CameraBackend::Nvargus && nvargus_present ==> ({
            let p = producer::live_plan(
                producer::live_video(backend, nvargus_present, width, height, fps, orientation),
                audio,
                device,
            );
            exists|caps: Seq<char>| #[trigger]
                sets(p, "live_producer_video_nvmm_caps"@, 0, "caps"@, Val::Caps(caps))
                    && "video/x-raw(memory:NVMM)"@.is_prefix_of(caps) && says(
                    caps,
                    "format"@,
                    "NV12"@,
                ) && says(caps, "width"@, text::decimal(width as nat)) && says(
                    caps,
                    "height"@,
                    text::decimal(height as nat),
                ) && says(caps, "framerate"@, text::decimal(fps as nat) + "/1"@)
        }),
{
    let p = producer::live_plan(
                producer::live_video(backend, nvargus_present, width, height, fps, orientation),
                audio,
                device,
            );
    let fetching = backend == CameraBackend::Nvargus && nvargus_present;
    lemma_frame_caps("video/x-raw"@, width, height, fps);
    let caps = producer::frame_caps("video/x-raw"@, width, height, fps);
    let n: int = if fetching {
        3
    } else {
        1
    };
    assert(p.nodes[n] == consumers::filter("live_producer_video_caps"@, caps));
    assert(p.nodes[n].candidates[0].properties[0].name == "caps"@);
    lemma_sets(p, n, 0);
    if fetching {
        lemma_frame_caps("video/x-raw(memory:NVMM)"@, width, height, fps);
        let own = producer::frame_caps("video/x-raw(memory:NVMM)"@, width, height, fps);
        assert(p.nodes[1] == consumers::filter("live_producer_video_nvmm_caps"@, own));
        assert(p.nodes[1].candidates[0].properties[0].name == "caps"@);
        lemma_sets(p, 1, 0);
    }
}

/// The picture comes from the configured camera. Where that cannot be opened, a
/// test picture stands in for it.
pub proof fn law_live_source(backend: CameraBackend, nvargus_present: bool, width: u32, height: u32, fps: u32, orientation: Orientation, audio: bool, device: Option<Seq<char>>)
    ensures
        ({
            let p = producer::live_plan(
                producer::live_video(backend, nvargus_present, width, height, fps, orientation),
                audio,
                device,
            );
            &&& backend == CameraBackend::Libcamera ==> makes(
                p,
                "live_producer_video_src"@,
                0,
                "libcamerasrc"@,
            )
            &&& backend == CameraBackend::V4l2 ==> makes(
                p,
                "live_producer_video_src"@,
                0,
                "v4l2src"@,
            )
            &&& backend == CameraBackend::Nvargus && nvargus_present ==> makes(
                p,
                "live_producer_video_src"@,
                0,
                "nvarguscamerasrc"@,
            )
            &&& backend == CameraBackend::Nvargus && !nvargus_present ==> makes(
                p,
                "live_producer_video_src"@,
                0,
                "videotestsrc"@,
            )
            &&& backend != CameraBackend::Nvargus ==> {
                &&& offers(p, "live_producer_video_src"@, 2)
                &&& makes(p, "live_producer_video_src"@, 1, "videotestsrc"@)
                &&& sets(p, "live_producer_video_src"@, 1, "pattern"@, Val::Nick("ball"@))
                &&& sets(p, "live_producer_video_src"@, 1, "is-live"@, Val::Flag(true))
            }
        }),
{
    let p = producer::live_plan(
                producer::live_video(backend, nvargus_present, width, height, fps, orientation),
                audio,
                device,
            );
    reveal_strlit("pattern");
    reveal_strlit("is-live");
    assert("pattern"@[0] != "is-live"@[0]);
    let source = p.nodes[0];
    assert(source.name == "live_producer_video_src"@);
    assert(makes(p, source.name, 0, source.candidates[0].factory));
    if backend != CameraBackend::Nvargus {
        assert(source.candidates[1].properties[0].name == "pattern"@);
        assert(source.candidates[1].properties[1].name == "is-live"@);
        lemma_sets(p, 0, 1);
    }
}

/// The picture is turned as the two flags ask: mirrored, turned by half, or both,
/// which is to exchange top and bottom. Without either it passes as it is.
#[verifier::rlimit(40)]
pub proof fn law_live_picture_turned(
    backend: CameraBackend,
    nvargus_present: bool,
    width: u32,
    height: u32,
    fps: u32,
    flip_horizontal: bool,
    rotate_180: bool,
    audio: bool,
    device: Option<Seq<char>>,
)
    ensures
        ({
            let orientation = producer::orientation_of(flip_horizontal, rotate_180);
            let p = producer::live_plan(
                producer::live_video(backend, nvargus_present, width, height, fps, orientation),
                audio,
                device,
            );
            let fetching = backend == CameraBackend::Nvargus && nvargus_present;
            &&& flip_horizontal && !rotate_180 ==> if fetching {
                sets(
                    p,
                    "live_producer_video_nvvidconv"@,
                    0,
                    "flip-method"@,
                    Val::Nick("horizontal-flip"@),
                )
            } else {
                sets(p, "live_producer_video_flip"@, 0, "method"@, Val::Nick("horizontal-flip"@))
            }
            &&& !flip_horizontal && rotate_180 ==> if fetching {
                sets(
                    p,
                    "live_producer_video_nvvidconv"@,
                    0,
                    "flip-method"@,
                    Val::Nick("rotate-180"@),
                )
            } else {
                sets(p, "live_producer_video_flip"@, 0, "method"@, Val::Nick("rotate-180"@))
            }
            &&& flip_horizontal && rotate_180 ==> if fetching {
                sets(
                    p,
                    "live_producer_video_nvvidconv"@,
                    0,
                    "flip-method"@,
                    Val::Nick("vertical-flip"@),
                )
            } else {
                sets(p, "live_producer_video_flip"@, 0, "method"@, Val::Nick("vertical-flip"@))
            }
            &&& !flip_horizontal && !rotate_180 && fetching ==> leaves(
                p,
                "live_producer_video_nvvidconv"@,
                0,
                "flip-method"@,
            )
            &&& !flip_horizontal && !rotate_180 && !fetching ==> leads(
                p,
                "live_producer_video_caps"@,
                "live_producer_videoconvert"@,
            )
        }),
{
    let orientation = producer::orientation_of(flip_horizontal, rotate_180);
    let p = producer::live_plan(
                producer::live_video(backend, nvargus_present, width, height, fps, orientation),
                audio,
                device,
            );
    let n: int = 2;
    if flip_horizontal || rotate_180 {
        assert(p.nodes[n].candidates[0].properties.len() == 1);
        lemma_sets(p, n, 0);
    } else if backend == CameraBackend::Nvargus && nvargus_present {
        lemma_get_none(p.nodes[n].candidates[0], "flip-method"@);
        assert(p.nodes[n].name == "live_producer_video_nvvidconv"@);
    } else {
        assert(p.edges[1].from == 1 && p.edges[1].to == 2);
        assert(p.nodes[1].name == "live_producer_video_caps"@);
        assert(p.nodes[2].name == "live_producer_videoconvert"@);
        lemma_leads(p, 1);
    }
}

/// The live producer's sound goes to both sound channels, each behind a queue that
/// drops what nobody reads. Published data keeps to the clock.
#[verifier::rlimit(60)]
pub proof fn law_live_sound_settings(backend: CameraBackend, nvargus_present: bool, width: u32, height: u32, fps: u32, orientation: Orientation, device: Option<Seq<char>>)
    ensures
        ({
            let p = producer::live_plan(producer::live_video(backend, nvargus_present, width, height, fps, orientation), true, device);
            &&& offers(p, "live_producer_intervideosink"@, 1)
            &&& makes(p, "live_producer_intervideosink"@, 0, "intervideosink"@)
            &&& sets(p, "live_producer_intervideosink"@, 0, "channel"@, Val::Text("aicam-main"@))
            &&& sets(p, "live_producer_intervideosink"@, 0, "sync"@, Val::Flag(true))
            &&& sets(p, "live_producer_intervideosink"@, 0, "async"@, Val::Flag(false))
            &&& sets(p, "live_producer_intervideosink"@, 0, "enable-last-sample"@, Val::Flag(false))
            &&& offers(p, "live_producer_audioconvert"@, 1)
            &&& makes(p, "live_producer_audioconvert"@, 0, "audioconvert"@)
            &&& offers(p, "live_producer_audio_caps"@, 1)
            &&& makes(p, "live_producer_audio_caps"@, 0, "capsfilter"@)
            &&& sets(p, "live_producer_audio_caps"@, 0, "caps"@, Val::Caps("audio/x-raw,format=S16LE,rate=48000,channels=2,layout=interleaved"@))
            &&& offers(p, "live_producer_audio_tee"@, 1)
            &&& makes(p, "live_producer_audio_tee"@, 0, "tee"@)
            &&& sets(p, "live_producer_audio_tee"@, 0, "allow-not-linked"@, Val::Flag(true))
            &&& offers(p, "live_producer_audio_rec_queue"@, 1)
            &&& makes(p, "live_producer_audio_rec_queue"@, 0, "queue"@)
            &&& sets(p, "live_producer_audio_rec_queue"@, 0, "leaky"@, Val::Nick("downstream"@))
            &&& sets(p, "live_producer_audio_rec_queue"@, 0, "max-size-time"@, Val::U64(200_000_000))
            &&& sets(p, "live_producer_audio_rec_queue"@, 0, "max-size-buffers"@, Val::U32(0))
            &&& sets(p, "live_producer_audio_rec_queue"@, 0, "max-size-bytes"@, Val::U32(0))
            &&& offers(p, "live_producer_audio_rec_sink"@, 1)
            &&& makes(p, "live_producer_audio_rec_sink"@, 0, "interaudiosink"@)
            &&& sets(p, "live_producer_audio_rec_sink"@, 0, "channel"@, Val::Text("aicam-audio-rec"@))
            &&& sets(p, "live_producer_audio_rec_sink"@, 0, "sync"@, Val::Flag(true))
            &&& sets(p, "live_producer_audio_rec_sink"@, 0, "async"@, Val::Flag(false))
            &&& sets(p, "live_producer_audio_rec_sink"@, 0, "enable-last-sample"@, Val::Flag(false))
            &&& offers(p, "live_producer_audio_stream_queue"@, 1)
            &&& makes(p, "live_producer_audio_stream_queue"@, 0, "queue"@)
            &&& sets(p, "live_producer_audio_stream_queue"@, 0, "leaky"@, Val::Nick("downstream"@))
            &&& sets(p, "live_producer_audio_stream_queue"@, 0, "max-size-time"@, Val::U64(200_000_000))
            &&& sets(p, "live_producer_audio_stream_queue"@, 0, "max-size-buffers"@, Val::U32(0))
            &&& sets(p, "live_producer_audio_stream_queue"@, 0, "max-size-bytes"@, Val::U32(0))
            &&& offers(p, "live_producer_audio_stream_sink"@, 1)
            &&& makes(p, "live_producer_audio_stream_sink"@, 0, "interaudiosink"@)
            &&& sets(p, "live_producer_audio_stream_sink"@, 0, "channel"@, Val::Text("aicam-audio-stream"@))
            &&& sets(p, "live_producer_audio_stream_sink"@, 0, "sync"@, Val::Flag(true))
            &&& sets(p, "live_producer_audio_stream_sink"@, 0, "async"@, Val::Flag(false))
            &&& sets(p, "live_producer_audio_stream_sink"@, 0, "enable-last-sample"@, Val::Flag(false))
        }),
{
    let p = producer::live_plan(producer::live_video(backend, nvargus_present, width, height, fps, orientation), true, device);
    reveal_strlit("async");
    reveal_strlit("channel");
    reveal_strlit("enable-last-sample");
    reveal_strlit("leaky");
    reveal_strlit("max-size-buffers");
    reveal_strlit("max-size-bytes");
    reveal_strlit("max-size-time");
    reveal_strlit("sync");
    assert("channel"@.len() != "sync"@.len());
    assert("channel"@.len() != "async"@.len());
    assert("channel"@.len() != "enable-last-sample"@.len());
    assert("sync"@.len() != "async"@.len());
    assert("sync"@.len() != "enable-last-sample"@.len());
    assert("async"@.len() != "enable-last-sample"@.len());
    assert("leaky"@.len() != "max-size-time"@.len());
    assert("leaky"@.len() != "max-size-buffers"@.len());
    assert("leaky"@.len() != "max-size-bytes"@.len());
    assert("max-size-time"@.len() != "max-size-buffers"@.len());
    assert("max-size-time"@.len() != "max-size-bytes"@.len());
    assert("max-size-buffers"@.len() != "max-size-bytes"@.len());
    let n = producer::live_video(backend, nvargus_present, width, height, fps, orientation).nodes.len() as int;
    assert(p.nodes[n - 1].candidates[0].properties[0].name == "channel"@);
    assert(p.nodes[n - 1].candidates[0].properties[1].name == "sync"@);
    assert(p.nodes[n - 1].candidates[0].properties[2].name == "async"@);
    assert(p.nodes[n - 1].candidates[0].properties[3].name == "enable-last-sample"@);
    assert(p.nodes[n - 1].candidates[0].properties.len() == 4);
    lemma_sets(p, n - 1, 0);
    lemma_sets(p, n + 1, 0);
    assert(p.nodes[n + 2].candidates[0].properties[0].name == "caps"@);
    lemma_sets(p, n + 2, 0);
    assert(p.nodes[n + 2 + 1].candidates[0].properties[0].name == "allow-not-linked"@);
    lemma_sets(p, n + 2 + 1, 0);
    assert(p.nodes[n + 2 + 2].candidates[0].properties[0].name == "leaky"@);
    assert(p.nodes[n + 2 + 2].candidates[0].properties[1].name == "max-size-time"@);
    assert(p.nodes[n + 2 + 2].candidates[0].properties[2].name == "max-size-buffers"@);
    assert(p.nodes[n + 2 + 2].candidates[0].properties[3].name == "max-size-bytes"@);
    assert(p.nodes[n + 2 + 2].candidates[0].properties.len() == 4);
    lemma_sets(p, n + 2 + 2, 0);
    assert(p.nodes[n + 2 + 3].candidates[0].properties[0].name == "channel"@);
    assert(p.nodes[n + 2 + 3].candidates[0].properties[1].name == "sync"@);
    assert(p.nodes[n + 2 + 3].candidates[0].properties[2].name == "async"@);
    assert(p.nodes[n + 2 + 3].candidates[0].properties[3].name == "enable-last-sample"@);
    assert(p.nodes[n + 2 + 3].candidates[0].properties.len() == 4);
    lemma_sets(p, n + 2 + 3, 0);
    assert(p.nodes[n + 2 + 4].candidates[0].properties[0].name == "leaky"@);
    assert(p.nodes[n + 2 + 4].candidates[0].properties[1].name == "max-size-time"@);
    assert(p.nodes[n + 2 + 4].candidates[0].properties[2].name == "max-size-buffers"@);
    assert(p.nodes[n + 2 + 4].candidates[0].properties[3].name == "max-size-bytes"@);
    assert(p.nodes[n + 2 + 4].candidates[0].properties.len() == 4);
    lemma_sets(p, n + 2 + 4, 0);
    assert(p.nodes[n + 2 + 5].candidates[0].properties[0].name == "channel"@);
    assert(p.nodes[n + 2 + 5].candidates[0].properties[1].name == "sync"@);
    assert(p.nodes[n + 2 + 5].candidates[0].properties[2].name == "async"@);
    assert(p.nodes[n + 2 + 5].candidates[0].properties[3].name == "enable-last-sample"@);
    assert(p.nodes[n + 2 + 5].candidates[0].properties.len() == 4);
    lemma_sets(p, n + 2 + 5, 0);
}

/// The sound comes from the configured microphone, or from the default one where
/// none is configured. Where it cannot be opened, there is silence.
pub proof fn law_live_microphone(backend: CameraBackend, nvargus_present: bool, width: u32, height: u32, fps: u32, orientation: Orientation, device: Option<Seq<char>>)
    ensures
        ({
            let p = producer::live_plan(producer::live_video(backend, nvargus_present, width, height, fps, orientation), true, device);
            &&& offers(p, "live_producer_audio_src"@, 2)
            &&& makes(p, "live_producer_audio_src"@, 0, "alsasrc"@)
            &&& match device {
                Some(d) => sets(p, "live_producer_audio_src"@, 0, "device"@, Val::Text(d)),
                None => leaves(p, "live_producer_audio_src"@, 0, "device"@),
            }
            &&& makes(p, "live_producer_audio_src"@, 1, "audiotestsrc"@)
            &&& sets(p, "live_producer_audio_src"@, 1, "wave"@, Val::Nick("silence"@))
            &&& sets(p, "live_producer_audio_src"@, 1, "is-live"@, Val::Flag(true))
        }),
{
    let p = producer::live_plan(producer::live_video(backend, nvargus_present, width, height, fps, orientation), true, device);
    let n = producer::live_video(backend, nvargus_present, width, height, fps, orientation).nodes.len() as int;
    reveal_strlit("wave");
    reveal_strlit("is-live");
    let source = p.nodes[n];
    assert(source.name == "live_producer_audio_src"@);
    assert(source.candidates[1].properties[0].name == "is-live"@);
    assert(source.candidates[1].properties[1].name == "wave"@);
    lemma_sets(p, n, 1);
    if device is Some {
        assert(source.candidates[0].properties[0].name == "device"@);
        lemma_sets(p, n, 0);
    } else {
        lemma_sets(p, n, 0);
        lemma_get_none(source.candidates[0], "device"@);
    }
}

/// The live producer's sound is converted, brought to the form of all sound, and
/// split over both channels.
#[verifier::rlimit(60)]
pub proof fn law_live_sound_order(backend: CameraBackend, nvargus_present: bool, width: u32, height: u32, fps: u32, orientation: Orientation, device: Option<Seq<char>>)
    ensures
        ({
            let p = producer::live_plan(producer::live_video(backend, nvargus_present, width, height, fps, orientation), true, device);
            &&& flows(p, seq!["live_producer_audio_src"@, "live_producer_audioconvert"@, "live_producer_audio_caps"@, "live_producer_audio_tee"@, "live_producer_audio_rec_queue"@, "live_producer_audio_rec_sink"@])
            &&& flows(p, seq!["live_producer_audio_tee"@, "live_producer_audio_stream_queue"@, "live_producer_audio_stream_sink"@])
        }),
{
    let p = producer::live_plan(producer::live_video(backend, nvargus_present, width, height, fps, orientation), true, device);
    let n = producer::live_video(backend, nvargus_present, width, height, fps, orientation).nodes.len() as int;
    assert(p.edges.len() == n + 6);
    assert(p.edges[n - 1].from == n && p.edges[n - 1].to == n + 1);
    assert(p.nodes[n].name == "live_producer_audio_src"@ && p.nodes[n + 1].name == "live_producer_audioconvert"@);
    lemma_leads(p, n - 1);
    assert(p.edges[n + 0].from == n + 2 + -1 && p.edges[n + 0].to == n + 2 + 0);
    assert(p.nodes[n + 2 + -1].name == "live_producer_audioconvert"@ && p.nodes[n + 2 + 0].name == "live_producer_audio_caps"@);
    lemma_leads(p, n + 0);
    assert(p.edges[n + 1].from == n + 2 + 0 && p.edges[n + 1].to == n + 2 + 1);
    assert(p.nodes[n + 2 + 0].name == "live_producer_audio_caps"@ && p.nodes[n + 2 + 1].name == "live_producer_audio_tee"@);
    lemma_leads(p, n + 1);
    assert(p.edges[n + 2].from == n + 2 + 1 && p.edges[n + 2].to == n + 2 + 2);
    assert(p.nodes[n + 2 + 1].name == "live_producer_audio_tee"@ && p.nodes[n + 2 + 2].name == "live_producer_audio_rec_queue"@);
    lemma_leads(p, n + 2);
    assert(p.edges[n + 3].from == n + 2 + 2 && p.edges[n + 3].to == n + 2 + 3);
    assert(p.nodes[n + 2 + 2].name == "live_producer_audio_rec_queue"@ && p.nodes[n + 2 + 3].name == "live_producer_audio_rec_sink"@);
    lemma_leads(p, n + 3);
    assert(p.edges[n + 4].from == n + 2 + 1 && p.edges[n + 4].to == n + 2 + 4);
    assert(p.nodes[n + 2 + 1].name == "live_producer_audio_tee"@ && p.nodes[n + 2 + 4].name == "live_producer_audio_stream_queue"@);
    lemma_leads(p, n + 4);
    assert(p.edges[n + 5].from == n + 2 + 4 && p.edges[n + 5].to == n + 2 + 5);
    assert(p.nodes[n + 2 + 4].name == "live_producer_audio_stream_queue"@ && p.nodes[n + 2 + 5].name == "live_producer_audio_stream_sink"@);
    lemma_leads(p, n + 5);
}

/// A picture that is not turned goes from the camera over the filter and the
/// converter to its channel.
#[verifier::rlimit(40)]
pub proof fn law_live_order(backend: CameraBackend, nvargus_present: bool, width: u32, height: u32, fps: u32, orientation: Orientation, audio: bool, device: Option<Seq<char>>)
    requires
        !(backend == CameraBackend::Nvargus && nvargus_present),
        orientation == Orientation::Identity,
    ensures
        ({
            let p = producer::live_plan(producer::live_video(backend, nvargus_present, width, height, fps, orientation), audio, device);
            &&& flows(p, seq!["live_producer_video_src"@, "live_producer_video_caps"@, "live_producer_videoconvert"@, "live_producer_intervideosink"@])
        }),
{
    let p = producer::live_plan(producer::live_video(backend, nvargus_present, width, height, fps, orientation), audio, device);
    assert(p.edges[0].from == 0 && p.edges[0].to == 1);
    assert(p.nodes[0].name == "live_producer_video_src"@ && p.nodes[1].name == "live_producer_video_caps"@);
    lemma_leads(p, 0);
    assert(p.edges[1].from == 1 && p.edges[1].to == 2);
    assert(p.nodes[1].name == "live_producer_video_caps"@ && p.nodes[2].name == "live_producer_videoconvert"@);
    lemma_leads(p, 1);
    assert(p.edges[2].from == 2 && p.edges[2].to == 3);
    assert(p.nodes[2].name == "live_producer_videoconvert"@ && p.nodes[3].name == "live_producer_intervideosink"@);
    lemma_leads(p, 2);
}

/// A turned one is turned between the two.
#[verifier::rlimit(40)]
pub proof fn law_turned_live_order(backend: CameraBackend, nvargus_present: bool, width: u32, height: u32, fps: u32, orientation: Orientation, audio: bool, device: Option<Seq<char>>)
    requires
        !(backend == CameraBackend::Nvargus && nvargus_present),
        orientation != Orientation::Identity,
    ensures
        ({
            let p = producer::live_plan(producer::live_video(backend, nvargus_present, width, height, fps, orientation), audio, device);
            &&& flows(p, seq!["live_producer_video_src"@, "live_producer_video_caps"@, "live_producer_video_flip"@, "live_producer_videoconvert"@, "live_producer_intervideosink"@])
        }),
{
    let p = producer::live_plan(producer::live_video(backend, nvargus_present, width, height, fps, orientation), audio, device);
    assert(p.edges[0].from == 0 && p.edges[0].to == 1);
    assert(p.nodes[0].name == "live_producer_video_src"@ && p.nodes[1].name == "live_producer_video_caps"@);
    lemma_leads(p, 0);
    assert(p.edges[1].from == 1 && p.edges[1].to == 2);
    assert(p.nodes[1].name == "live_producer_video_caps"@ && p.nodes[2].name == "live_producer_video_flip"@);
    lemma_leads(p, 1);
    assert(p.edges[2].from == 2 && p.edges[2].to == 3);
    assert(p.nodes[2].name == "live_producer_video_flip"@ && p.nodes[3].name == "live_producer_videoconvert"@);
    lemma_leads(p, 2);
    assert(p.edges[3].from == 3 && p.edges[3].to == 4);
    assert(p.nodes[3].name == "live_producer_videoconvert"@ && p.nodes[4].name == "live_producer_intervideosink"@);
    lemma_leads(p, 3);
}

/// Frames in the graphics unit's memory are fetched from there, and turned on the
/// way.
#[verifier::rlimit(40)]
pub proof fn law_fetched_live_order(backend: CameraBackend, nvargus_present: bool, width: u32, height: u32, fps: u32, orientation: Orientation, audio: bool, device: Option<Seq<char>>)
    requires
        backend == CameraBackend::Nvargus,
        nvargus_present,
    ensures
        ({
            let p = producer::live_plan(producer::live_video(backend, nvargus_present, width, height, fps, orientation), audio, device);
            &&& flows(p, seq!["live_producer_video_src"@, "live_producer_video_nvmm_caps"@, "live_producer_video_nvvidconv"@, "live_producer_video_caps"@, "live_producer_intervideosink"@])
        }),
{
    let p = producer::live_plan(producer::live_video(backend, nvargus_present, width, height, fps, orientation), audio, device);
    assert(p.edges[0].from == 0 && p.edges[0].to == 1);
    assert(p.nodes[0].name == "live_producer_video_src"@ && p.nodes[1].name == "live_producer_video_nvmm_caps"@);
    lemma_leads(p, 0);
    assert(p.edges[1].from == 1 && p.edges[1].to == 2);
    assert(p.nodes[1].name == "live_producer_video_nvmm_caps"@ && p.nodes[2].name == "live_producer_video_nvvidconv"@);
    lemma_leads(p, 1);
    assert(p.edges[2].from == 2 && p.edges[2].to == 3);
    assert(p.nodes[2].name == "live_producer_video_nvvidconv"@ && p.nodes[3].name == "live_producer_video_caps"@);
    lemma_leads(p, 2);
    assert(p.edges[3].from == 3 && p.edges[3].to == 4);
    assert(p.nodes[3].name == "live_producer_video_caps"@ && p.nodes[4].name == "live_producer_intervideosink"@);
    lemma_leads(p, 3);
}

/// Without sound the live producer is its picture side alone.
pub proof fn law_live_without_sound(backend: CameraBackend, nvargus_present: bool, width: u32, height: u32, fps: u32, orientation: Orientation, device: Option<Seq<char>>)
    ensures
        forall|n: int|
            #![trigger producer::live_plan(producer::live_video(backend, nvargus_present, width, height, fps, orientation), false, device).nodes[n]]
            0 <= n < producer::live_plan(producer::live_video(backend, nvargus_present, width, height, fps, orientation), false, device).nodes.len() && producer::live_plan(producer::live_video(backend, nvargus_present, width, height, fps, orientation), false, device).nodes[n].candidates.len() > 0 ==> producer::live_plan(producer::live_video(backend, nvargus_present, width, height, fps, orientation), false, device).nodes[n].candidates[0].factory
                != "interaudiosink"@,
{
    let p = producer::live_plan(producer::live_video(backend, nvargus_present, width, height, fps, orientation), false, device);
    reveal_strlit("interaudiosink");
    reveal_strlit("intervideosink");
    reveal_strlit("capsfilter");
    reveal_strlit("videoconvert");
    reveal_strlit("videoflip");
    reveal_strlit("nvvidconv");
    reveal_strlit("libcamerasrc");
    reveal_strlit("v4l2src");
    reveal_strlit("nvarguscamerasrc");
    reveal_strlit("videotestsrc");
    assert("intervideosink"@[5] != "interaudiosink"@[5]);
}

/// A file is read from its path, its picture brought to the form that readers of the
/// channel expect, and its sound split as the live producer's is.
#[verifier::rlimit(60)]
pub proof fn law_playback_settings(path: Seq<char>, pace: Pace)
    ensures
        ({
            let p = producer::playback_plan(path, pace);
            &&& offers(p, "playback_producer_filesrc"@, 1)
            &&& makes(p, "playback_producer_filesrc"@, 0, "filesrc"@)
            &&& sets(p, "playback_producer_filesrc"@, 0, "location"@, Val::Text(path))
            &&& offers(p, "playback_producer_decodebin"@, 1)
            &&& makes(p, "playback_producer_decodebin"@, 0, "decodebin"@)
            &&& offers(p, "playback_producer_videoscale"@, 1)
            &&& makes(p, "playback_producer_videoscale"@, 0, "videoscale"@)
            &&& offers(p, "playback_producer_videoconvert"@, 1)
            &&& makes(p, "playback_producer_videoconvert"@, 0, "videoconvert"@)
            &&& offers(p, "playback_producer_video_caps"@, 1)
            &&& makes(p, "playback_producer_video_caps"@, 0, "capsfilter"@)
            &&& sets(p, "playback_producer_video_caps"@, 0, "caps"@, Val::Caps("video/x-raw,format=NV12,width=1920,height=1080,framerate=30/1"@))
            &&& offers(p, "playback_producer_identity"@, 1)
            &&& makes(p, "playback_producer_identity"@, 0, "identity"@)
            &&& sets(p, "playback_producer_identity"@, 0, "sync"@, Val::Flag(pace != Pace::Unpaced))
            &&& offers(p, "playback_producer_intervideosink"@, 1)
            &&& makes(p, "playback_producer_intervideosink"@, 0, "intervideosink"@)
            &&& sets(p, "playback_producer_intervideosink"@, 0, "channel"@, Val::Text("aicam-main"@))
            &&& sets(p, "playback_producer_intervideosink"@, 0, "sync"@, Val::Flag(true))
            &&& sets(p, "playback_producer_intervideosink"@, 0, "async"@, Val::Flag(false))
            &&& sets(p, "playback_producer_intervideosink"@, 0, "enable-last-sample"@, Val::Flag(false))
            &&& offers(p, "playback_producer_audioconvert"@, 1)
            &&& makes(p, "playback_producer_audioconvert"@, 0, "audioconvert"@)
            &&& offers(p, "playback_producer_audio_caps"@, 1)
            &&& makes(p, "playback_producer_audio_caps"@, 0, "capsfilter"@)
            &&& sets(p, "playback_producer_audio_caps"@, 0, "caps"@, Val::Caps("audio/x-raw,format=S16LE,rate=48000,channels=2,layout=interleaved"@))
            &&& offers(p, "playback_producer_audio_tee"@, 1)
            &&& makes(p, "playback_producer_audio_tee"@, 0, "tee"@)
            &&& sets(p, "playback_producer_audio_tee"@, 0, "allow-not-linked"@, Val::Flag(true))
            &&& offers(p, "playback_producer_audio_rec_queue"@, 1)
            &&& makes(p, "playback_producer_audio_rec_queue"@, 0, "queue"@)
            &&& sets(p, "playback_producer_audio_rec_queue"@, 0, "leaky"@, Val::Nick("downstream"@))
            &&& sets(p, "playback_producer_audio_rec_queue"@, 0, "max-size-time"@, Val::U64(200_000_000))
            &&& sets(p, "playback_producer_audio_rec_queue"@, 0, "max-size-buffers"@, Val::U32(0))
            &&& sets(p, "playback_producer_audio_rec_queue"@, 0, "max-size-bytes"@, Val::U32(0))
            &&& offers(p, "playback_producer_audio_rec_sink"@, 1)
            &&& makes(p, "playback_producer_audio_rec_sink"@, 0, "interaudiosink"@)
            &&& sets(p, "playback_producer_audio_rec_sink"@, 0, "channel"@, Val::Text("aicam-audio-rec"@))
            &&& sets(p, "playback_producer_audio_rec_sink"@, 0, "sync"@, Val::Flag(true))
            &&& sets(p, "playback_producer_audio_rec_sink"@, 0, "async"@, Val::Flag(false))
            &&& sets(p, "playback_producer_audio_rec_sink"@, 0, "enable-last-sample"@, Val::Flag(false))
            &&& offers(p, "playback_producer_audio_stream_queue"@, 1)
            &&& makes(p, "playback_producer_audio_stream_queue"@, 0, "queue"@)
            &&& sets(p, "playback_producer_audio_stream_queue"@, 0, "leaky"@, Val::Nick("downstream"@))
            &&& sets(p, "playback_producer_audio_stream_queue"@, 0, "max-size-time"@, Val::U64(200_000_000))
            &&& sets(p, "playback_producer_audio_stream_queue"@, 0, "max-size-buffers"@, Val::U32(0))
            &&& sets(p, "playback_producer_audio_stream_queue"@, 0, "max-size-bytes"@, Val::U32(0))
            &&& offers(p, "playback_producer_audio_stream_sink"@, 1)
            &&& makes(p, "playback_producer_audio_stream_sink"@, 0, "interaudiosink"@)
            &&& sets(p, "playback_producer_audio_stream_sink"@, 0, "channel"@, Val::Text("aicam-audio-stream"@))
            &&& sets(p, "playback_producer_audio_stream_sink"@, 0, "sync"@, Val::Flag(true))
            &&& sets(p, "playback_producer_audio_stream_sink"@, 0, "async"@, Val::Flag(false))
            &&& sets(p, "playback_producer_audio_stream_sink"@, 0, "enable-last-sample"@, Val::Flag(false))
        }),
{
    let p = producer::playback_plan(path, pace);
    reveal_strlit("async");
    reveal_strlit("channel");
    reveal_strlit("enable-last-sample");
    reveal_strlit("leaky");
    reveal_strlit("max-size-buffers");
    reveal_strlit("max-size-bytes");
    reveal_strlit("max-size-time");
    reveal_strlit("sync");
    assert("channel"@.len() != "sync"@.len());
    assert("channel"@.len() != "async"@.len());
    assert("channel"@.len() != "enable-last-sample"@.len());
    assert("sync"@.len() != "async"@.len());
    assert("sync"@.len() != "enable-last-sample"@.len());
    assert("async"@.len() != "enable-last-sample"@.len());
    assert("leaky"@.len() != "max-size-time"@.len());
    assert("leaky"@.len() != "max-size-buffers"@.len());
    assert("leaky"@.len() != "max-size-bytes"@.len());
    assert("max-size-time"@.len() != "max-size-buffers"@.len());
    assert("max-size-time"@.len() != "max-size-bytes"@.len());
    assert("max-size-buffers"@.len() != "max-size-bytes"@.len());
    assert(p.nodes[0].candidates[0].properties[0].name == "location"@);
    lemma_sets(p, 0, 0);
    lemma_sets(p, 1, 0);
    lemma_sets(p, 2, 0);
    lemma_sets(p, 3, 0);
    assert(p.nodes[5].candidates[0].properties[0].name == "caps"@);
    lemma_sets(p, 5, 0);
    assert(p.nodes[6].candidates[0].properties[0].name == "sync"@);
    lemma_sets(p, 6, 0);
    assert(p.nodes[7].candidates[0].properties[0].name == "channel"@);
    assert(p.nodes[7].candidates[0].properties[1].name == "sync"@);
    assert(p.nodes[7].candidates[0].properties[2].name == "async"@);
    assert(p.nodes[7].candidates[0].properties[3].name == "enable-last-sample"@);
    assert(p.nodes[7].candidates[0].properties.len() == 4);
    lemma_sets(p, 7, 0);
    lemma_sets(p, 8, 0);
    assert(p.nodes[9int].candidates[0].properties[0].name == "caps"@);
    lemma_sets(p, 9int, 0);
    assert(p.nodes[9int + 1].candidates[0].properties[0].name == "allow-not-linked"@);
    lemma_sets(p, 9int + 1, 0);
    assert(p.nodes[9int + 2].candidates[0].properties[0].name == "leaky"@);
    assert(p.nodes[9int + 2].candidates[0].properties[1].name == "max-size-time"@);
    assert(p.nodes[9int + 2].candidates[0].properties[2].name == "max-size-buffers"@);
    assert(p.nodes[9int + 2].candidates[0].properties[3].name == "max-size-bytes"@);
    assert(p.nodes[9int + 2].candidates[0].properties.len() == 4);
    lemma_sets(p, 9int + 2, 0);
    assert(p.nodes[9int + 3].candidates[0].properties[0].name == "channel"@);
    assert(p.nodes[9int + 3].candidates[0].properties[1].name == "sync"@);
    assert(p.nodes[9int + 3].candidates[0].properties[2].name == "async"@);
    assert(p.nodes[9int + 3].candidates[0].properties[3].name == "enable-last-sample"@);
    assert(p.nodes[9int + 3].candidates[0].properties.len() == 4);
    lemma_sets(p, 9int + 3, 0);
    assert(p.nodes[9int + 4].candidates[0].properties[0].name == "leaky"@);
    assert(p.nodes[9int + 4].candidates[0].properties[1].name == "max-size-time"@);
    assert(p.nodes[9int + 4].candidates[0].properties[2].name == "max-size-buffers"@);
    assert(p.nodes[9int + 4].candidates[0].properties[3].name == "max-size-bytes"@);
    assert(p.nodes[9int + 4].candidates[0].properties.len() == 4);
    lemma_sets(p, 9int + 4, 0);
    assert(p.nodes[9int + 5].candidates[0].properties[0].name == "channel"@);
    assert(p.nodes[9int + 5].candidates[0].properties[1].name == "sync"@);
    assert(p.nodes[9int + 5].candidates[0].properties[2].name == "async"@);
    assert(p.nodes[9int + 5].candidates[0].properties[3].name == "enable-last-sample"@);
    assert(p.nodes[9int + 5].candidates[0].properties.len() == 4);
    lemma_sets(p, 9int + 5, 0);
}

/// A file played at a multiple of real time has its time stretched by that
/// multiple; one played as fast as it decodes, or in real time, has not.
pub proof fn law_playback_pace(path: Seq<char>, pace: Pace)
    ensures
        ({
            let p = producer::playback_plan(path, pace);
            &&& makes(p, "playback_producer_videorate"@, 0, "videorate"@)
            &&& sets(p, "playback_producer_videorate"@, 0, "skip-to-first"@, Val::Flag(true))
            &&& match pace {
                Pace::Scaled(speed) => sets(
                    p,
                    "playback_producer_videorate"@,
                    0,
                    "rate"@,
                    Val::Double(speed.bits),
                ),
                _ => leaves(p, "playback_producer_videorate"@, 0, "rate"@),
            }
        }),
{
    let p = producer::playback_plan(path, pace);
    reveal_strlit("skip-to-first");
    reveal_strlit("rate");
    assert(p.nodes[4] == producer::pacer(pace));
    let m = p.nodes[4].candidates[0];
    assert(m.properties[0].name == "skip-to-first"@);
    if pace is Scaled {
        assert(m.properties[1].name == "rate"@);
    } else {
        lemma_get_none(m, "rate"@);
    }
    lemma_sets(p, 4, 0);
}

/// A file is decoded; its picture is scaled, paced and held to the clock before it is
/// published, and its sound split over both channels. The decoder's outputs enter at
/// the two heads.
#[verifier::rlimit(60)]
pub proof fn law_playback_order(path: Seq<char>, pace: Pace)
    ensures
        ({
            let p = producer::playback_plan(path, pace);
            &&& flows(p, seq!["playback_producer_filesrc"@, "playback_producer_decodebin"@])
            &&& flows(p, seq!["playback_producer_videoscale"@, "playback_producer_videoconvert"@, "playback_producer_videorate"@, "playback_producer_video_caps"@, "playback_producer_identity"@, "playback_producer_intervideosink"@])
            &&& flows(p, seq!["playback_producer_audioconvert"@, "playback_producer_audio_caps"@, "playback_producer_audio_tee"@, "playback_producer_audio_rec_queue"@, "playback_producer_audio_rec_sink"@])
            &&& flows(p, seq!["playback_producer_audio_tee"@, "playback_producer_audio_stream_queue"@, "playback_producer_audio_stream_sink"@])
            &&& p.nodes[producer::PLAYBACK_VIDEO_HEAD as int].name == "playback_producer_videoscale"@
            &&& p.nodes[producer::PLAYBACK_AUDIO_HEAD as int].name
                == "playback_producer_audioconvert"@
        }),
{
    let p = producer::playback_plan(path, pace);
    assert(p.edges[0].from == 0 && p.edges[0].to == 1);
    assert(p.nodes[0].name == "playback_producer_filesrc"@ && p.nodes[1].name == "playback_producer_decodebin"@);
    lemma_leads(p, 0);
    assert(p.edges[1].from == 2 && p.edges[1].to == 3);
    assert(p.nodes[2].name == "playback_producer_videoscale"@ && p.nodes[3].name == "playback_producer_videoconvert"@);
    lemma_leads(p, 1);
    assert(p.edges[2].from == 3 && p.edges[2].to == 4);
    assert(p.nodes[3].name == "playback_producer_videoconvert"@ && p.nodes[4].name == "playback_producer_videorate"@);
    lemma_leads(p, 2);
    assert(p.edges[3].from == 4 && p.edges[3].to == 5);
    assert(p.nodes[4].name == "playback_producer_videorate"@ && p.nodes[5].name == "playback_producer_video_caps"@);
    lemma_leads(p, 3);
    assert(p.edges[4].from == 5 && p.edges[4].to == 6);
    assert(p.nodes[5].name == "playback_producer_video_caps"@ && p.nodes[6].name == "playback_producer_identity"@);
    lemma_leads(p, 4);
    assert(p.edges[5].from == 6 && p.edges[5].to == 7);
    assert(p.nodes[6].name == "playback_producer_identity"@ && p.nodes[7].name == "playback_producer_intervideosink"@);
    lemma_leads(p, 5);
    assert(p.edges[6int + 0].from == 9int + -1 && p.edges[6int + 0].to == 9int + 0);
    assert(p.nodes[9int + -1].name == "playback_producer_audioconvert"@ && p.nodes[9int + 0].name == "playback_producer_audio_caps"@);
    lemma_leads(p, 6int + 0);
    assert(p.edges[6int + 1].from == 9int + 0 && p.edges[6int + 1].to == 9int + 1);
    assert(p.nodes[9int + 0].name == "playback_producer_audio_caps"@ && p.nodes[9int + 1].name == "playback_producer_audio_tee"@);
    lemma_leads(p, 6int + 1);
    assert(p.edges[6int + 2].from == 9int + 1 && p.edges[6int + 2].to == 9int + 2);
    assert(p.nodes[9int + 1].name == "playback_producer_audio_tee"@ && p.nodes[9int + 2].name == "playback_producer_audio_rec_queue"@);
    lemma_leads(p, 6int + 2);
    assert(p.edges[6int + 3].from == 9int + 2 && p.edges[6int + 3].to == 9int + 3);
    assert(p.nodes[9int + 2].name == "playback_producer_audio_rec_queue"@ && p.nodes[9int + 3].name == "playback_producer_audio_rec_sink"@);
    lemma_leads(p, 6int + 3);
    assert(p.edges[6int + 4].from == 9int + 1 && p.edges[6int + 4].to == 9int + 4);
    assert(p.nodes[9int + 1].name == "playback_producer_audio_tee"@ && p.nodes[9int + 4].name == "playback_producer_audio_stream_queue"@);
    lemma_leads(p, 6int + 4);
    assert(p.edges[6int + 5].from == 9int + 4 && p.edges[6int + 5].to == 9int + 5);
    assert(p.nodes[9int + 4].name == "playback_producer_audio_stream_queue"@ && p.nodes[9int + 5].name == "playback_producer_audio_stream_sink"@);
    lemma_leads(p, 6int + 5);
}

/// The capabilities that a model wants to see, field by field.
proof fn lemma_model_caps(format: Seq<char>, width: u32, height: u32)
    ensures
        ({
            let caps = consumers::model_caps(format, width, height);
            &&& says(caps, "format"@, format)
            &&& says(caps, "width"@, text::decimal(width as nat))
            &&& says(caps, "height"@, text::decimal(height as nat))
        }),
{
    let caps = consumers::model_caps(format, width, height);
    let (w, h) = (text::decimal(width as nat), text::decimal(height as nat));
    reveal_strlit("video/x-raw,format=");
    reveal_strlit(",width=");
    reveal_strlit(",height=");
    reveal_strlit("format");
    reveal_strlit("width");
    reveal_strlit("height");
    let raw = "video/x-raw,format="@.subrange(0, 12);
    let (comma, equals) = (seq![','], seq!['=']);
    assert("video/x-raw,format="@ =~= raw + "format"@ + equals);
    assert(",width="@ =~= comma + "width"@ + equals);
    assert(",height="@ =~= comma + "height"@ + equals);
    let a1 = raw + "format"@ + equals + format + comma;
    let a2 = a1 + "width"@ + equals + w + comma;
    let b2 = comma + "height"@ + equals + h;
    let b1 = comma + "width"@ + equals + w + b2;
    assert(caps =~= raw + ("format"@ + equals + format) + b1);
    lemma_says(caps, raw, "format"@, format, b1);
    assert(caps =~= a1 + ("width"@ + equals + w) + b2);
    lemma_says(caps, a1, "width"@, w, b2);
    assert(caps =~= a2 + ("height"@ + equals + h) + Seq::<char>::empty());
    lemma_says(caps, a2, "height"@, h, Seq::empty());
}

proof fn lemma_rate_caps(rate: u32)
    ensures
        says(consumers::rate_caps(rate), "framerate"@, text::decimal(rate as nat) + "/1"@),
{
    let f = text::decimal(rate as nat);
    let caps = consumers::rate_caps(rate);
    reveal_strlit("video/x-raw,framerate=");
    reveal_strlit("framerate");
    let start = "video/x-raw,framerate="@.subrange(0, 12);
    let equals = seq!['='];
    assert("video/x-raw,framerate="@ =~= start + "framerate"@ + equals);
    assert(caps =~= start + ("framerate"@ + equals + (f + "/1"@)) + Seq::<char>::empty());
    lemma_says(caps, start, "framerate"@, f + "/1"@, Seq::empty());
}

/// Frames come to the network in the model's format and size, and at its rate.
#[verifier::rlimit(40)]
pub proof fn law_detection_frames(model: ResolvedModel, exporter: Seq<char>)
    ensures
        ({
            let p = consumers::detection_plan(model, exporter);
            &&& exists|caps: Seq<char>| #[trigger]
                sets(p, "ai_caps"@, 0, "caps"@, Val::Caps(caps)) && says(
                    caps,
                    "format"@,
                    model.input_format@,
                ) && says(caps, "width"@, text::decimal(model.input_width as nat)) && says(
                    caps,
                    "height"@,
                    text::decimal(model.input_height as nat),
                )
            &&& exists|caps: Seq<char>| #[trigger]
                sets(p, "ai_fps_caps"@, 0, "caps"@, Val::Caps(caps)) && says(
                    caps,
                    "framerate"@,
                    text::decimal(consumers::inference_rate(model.inference_fps) as nat) + "/1"@,
                )
        }),
{
    let p = consumers::detection_plan(model, exporter);
    let caps = consumers::model_caps(model.input_format@, model.input_width, model.input_height);
    lemma_model_caps(model.input_format@, model.input_width, model.input_height);
    assert(p.nodes[4] == consumers::filter("ai_caps"@, caps));
    assert(p.nodes[4].candidates[0].properties[0].name == "caps"@);
    lemma_sets(p, 4, 0);
    let pace = consumers::rate_caps(consumers::inference_rate(model.inference_fps));
    lemma_rate_caps(consumers::inference_rate(model.inference_fps));
    assert(p.nodes[6] == consumers::filter("ai_fps_caps"@, pace));
    assert(p.nodes[6].candidates[0].properties[0].name == "caps"@);
    lemma_sets(p, 6, 0);
}

/// The stages of detection find the frame's width and height under their names,
/// and nothing that an earlier model left behind.
pub proof fn law_detection_environment(model: ResolvedModel, width: u32, height: u32)
    ensures
        ({
            let env = consumers::detection_env(model, width, height);
            &&& env.contains(
                EnvEdit::Assign("AICAM_META_EXPORT_WIDTH"@, text::decimal(width as nat)),
            )
            &&& env.contains(
                EnvEdit::Assign("AICAM_META_EXPORT_HEIGHT"@, text::decimal(height as nat)),
            )
            &&& env.contains(EnvEdit::Remove("AICAM_META_EXPORT_CLS1_LABELS"@))
            &&& env.contains(EnvEdit::Remove("AICAM_META_EXPORT_CLS2_LABELS"@))
            &&& model.class_map is None ==> env.contains(
                EnvEdit::Remove("AICAM_META_EXPORT_DET_CLASS_MAP"@),
            )
            &&& model.label_map is None ==> env.contains(
                EnvEdit::Remove("AICAM_YOLO26_POST_LABELS"@),
            )
            &&& model.class_map matches Some(pairs) ==> exists|t: Seq<char>| #[trigger]
                env.contains(EnvEdit::Assign("AICAM_META_EXPORT_DET_CLASS_MAP"@, t)) && t
                    == consumers::class_map_text(pairs@)
            &&& model.label_map matches Some(labels) ==> exists|t: Seq<char>| #[trigger]
                env.contains(EnvEdit::Assign("AICAM_YOLO26_POST_LABELS"@, t)) && t
                    == consumers::labels_text(labels@)
        }),
{
    let env = consumers::detection_env(model, width, height);
    assert(env.contains(env[0]));
    assert(env.contains(env[1]));
    assert(env.contains(env[2]));
    assert(env.contains(env[3]));
    assert(env.contains(env[4]));
    assert(env.contains(env[5]));
}

} // verus!
