//! What holds of all pipelines together.
use crate::consumers;
use crate::graph;
use crate::graph::{Edge, Make, Node, Plan, Val};
use crate::pipeline::ResolvedModel;
use crate::producer;
use crate::producer::{
    CameraBackend, Orientation, Pace, AUDIO_CHANNEL_RECORDING, AUDIO_CHANNEL_STREAMING,
    VIDEO_CHANNEL,
};
use vstd::prelude::*;

verus! {

// How soundness grows with a plan.

/// Sound, and each element but those from `rest` on is linked.
spec fn sound_up_to(p: Plan, rest: int) -> bool {
    &&& p.sound()
    &&& 0 <= rest <= p.nodes.len()
    &&& forall|n: int| 0 <= n < rest ==> #[trigger] p.links_at(n)
}

proof fn lemma_connected(p: Plan)
    requires
        sound_up_to(p, p.nodes.len() as int),
    ensures
        p.sound(),
        p.connected(),
{
}

/// An edge more keeps what was touched.
proof fn lemma_touched_grows(p: Plan, q: Plan, n: int)
    requires
        q.edges.len() == p.edges.len() + 1,
        q.edges.drop_last() == p.edges,
    ensures
        p.links_at(n) ==> q.links_at(n),
        q.edges.last().from == n || q.edges.last().to == n ==> q.links_at(n),
{
    if p.links_at(n) {
        let i = choose|i: int|
            #![trigger p.edges[i]]
            0 <= i < p.edges.len() && (p.edges[i].from == n || p.edges[i].to == n);
        assert(q.edges[i] == q.edges.drop_last()[i]);
        assert(q.links_at(n));
    }
    if q.edges.last().from == n || q.edges.last().to == n {
        let last = q.edges.len() - 1;
        assert(q.edges[last] == q.edges.last());
        assert(q.links_at(n));
    }
}

/// A first element, or one that starts a chain of its own.
proof fn lemma_add(p: Plan, node: Node, rest: int)
    requires
        sound_up_to(p, rest),
    ensures
        sound_up_to(p.add(node), rest),
        p.add(node).nodes.len() == p.nodes.len() + 1,
        p.add(node).edges == p.edges,
{
    assert forall|n: int| 0 <= n < rest implies #[trigger] p.add(node).links_at(n) by {
        assert(p.links_at(n));
    }
}

/// One link more, through a pad of its end that was free.
proof fn lemma_edge(p: Plan, e: Edge, rest: int)
    requires
        sound_up_to(p, rest),
        0 <= e.from < p.nodes.len(),
        0 <= e.to < p.nodes.len(),
        e.from != e.to,
        forall|i: int|
            #![trigger p.edges[i]]
            0 <= i < p.edges.len() && p.edges[i].to == e.to ==> p.edges[i].pad != e.pad,
    ensures
        ({
            let q = Plan { name: p.name, nodes: p.nodes, edges: p.edges.push(e) };
            &&& sound_up_to(q, rest)
            &&& q.links_at(e.from)
            &&& q.links_at(e.to)
            &&& forall|n: int| p.links_at(n) ==> #[trigger] q.links_at(n)
        }),
{
    let q = Plan { name: p.name, nodes: p.nodes, edges: p.edges.push(e) };
    assert(q.edges.drop_last() =~= p.edges);
    assert forall|n: int| p.links_at(n) implies #[trigger] q.links_at(n) by {
        lemma_touched_grows(p, q, n);
    }
    lemma_touched_grows(p, q, e.from);
    lemma_touched_grows(p, q, e.to);
    assert forall|n: int| 0 <= n < rest implies #[trigger] q.links_at(n) by {
        assert(p.links_at(n));
    }
}

/// One element more, at the end of the last chain.
proof fn lemma_append(p: Plan, node: Node, rest: int)
    requires
        sound_up_to(p, rest),
        p.nodes.len() > 0,
        rest >= p.nodes.len() - 1,
    ensures
        sound_up_to(p.append(node), p.nodes.len() as int + 1),
        p.append(node).nodes.len() == p.nodes.len() + 1,
        p.append(node).edges == p.edges.push(
            Edge { from: p.nodes.len() - 1, to: p.nodes.len() as int, pad: None },
        ),
{
    let e = Edge { from: p.nodes.len() - 1, to: p.nodes.len() as int, pad: None };
    lemma_add(p, node, rest);
    lemma_edge(p.add(node), e, rest);
    let q = p.append(node);
    assert forall|n: int| 0 <= n < q.nodes.len() implies #[trigger] q.links_at(n) by {
        if n < rest {
            assert(p.add(node).links_at(n));
        }
    }
}

/// The first two elements of a plan.
proof fn lemma_first(name: Seq<char>, first: Node, second: Node)
    ensures
        sound_up_to(graph::empty_plan(name).add(first).append(second), 2),
        graph::empty_plan(name).add(first).append(second).nodes.len() == 2,
        graph::empty_plan(name).add(first).append(second).edges == seq![
            Edge { from: 0, to: 1, pad: None },
        ],
{
    let p = graph::empty_plan(name);
    lemma_add(p, first, 0);
    lemma_append(p.add(first), second, 0);
    assert(p.add(first).append(second).edges =~= seq![Edge { from: 0, to: 1, pad: None }]);
}

/// The frame export pipeline, and both sides of the recording pipeline, are
/// whole: each link joins two of the pipeline's elements, none is fed twice
/// through one pad, and no element is left out.
pub proof fn law_recording_plans_whole(fps: u32, kbps: u32)
    ensures
        consumers::frame_export_plan().sound(),
        consumers::frame_export_plan().connected(),
        consumers::recording_video_plan(fps, kbps).sound(),
        consumers::recording_video_plan(fps, kbps).connected(),
        consumers::recording_audio_plan().sound(),
        consumers::recording_audio_plan().connected(),
{
    let f = consumers::frame_export_plan();
    let f1 = graph::empty_plan("frame_export_consumer_pipeline"@).add(
        consumers::video_reader("frame_export_intervideosrc"@, false),
    ).append(consumers::counted_queue("frame_export_queue"@, 2));
    lemma_first(
        "frame_export_consumer_pipeline"@,
        consumers::video_reader("frame_export_intervideosrc"@, false),
        consumers::counted_queue("frame_export_queue"@, 2),
    );
    lemma_append(f1, f.nodes[2], 2);
    lemma_connected(f);

    let v = consumers::recording_video_plan(fps, kbps);
    let v1 = graph::empty_plan("recording_video_consumer_pipeline"@).add(
        consumers::video_reader("rec_intervideosrc"@, false),
    ).append(consumers::closed_valve("rec_valve"@));
    lemma_first(
        "recording_video_consumer_pipeline"@,
        consumers::video_reader("rec_intervideosrc"@, false),
        consumers::closed_valve("rec_valve"@),
    );
    lemma_append(v1, v.nodes[2], 2);
    let v2 = v1.append(v.nodes[2]);
    lemma_append(v2, v.nodes[3], 3);
    let v3 = v2.append(v.nodes[3]);
    lemma_append(v3, v.nodes[4], 4);
    lemma_append(v3.append(v.nodes[4]), v.nodes[5], 5);
    lemma_connected(v);

    let a = consumers::recording_audio_plan();
    let a1 = graph::empty_plan("recording_audio_consumer_pipeline"@).add(
        consumers::audio_reader("rec_interaudiosrc"@, AUDIO_CHANNEL_RECORDING@, false),
    ).append(consumers::closed_valve("audio_rec_valve"@));
    lemma_first(
        "recording_audio_consumer_pipeline"@,
        consumers::audio_reader("rec_interaudiosrc"@, AUDIO_CHANNEL_RECORDING@, false),
        consumers::closed_valve("audio_rec_valve"@),
    );
    lemma_append(a1, a.nodes[2], 2);
    let a2 = a1.append(a.nodes[2]);
    lemma_append(a2, a.nodes[3], 3);
    lemma_append(a2.append(a.nodes[3]), a.nodes[4], 4);
    lemma_connected(a);
}

/// The picture side of the stream is whole, and feeds only the picture pad of
/// its multiplexer.
proof fn lemma_stream_video_whole(url: Seq<char>, kbps: u32, fps: u32, benchmark: bool)
    ensures
        ({
            let v = consumers::stream_video(url, kbps, fps, benchmark);
            &&& sound_up_to(v, 13)
            &&& v.nodes.len() == 13
            &&& forall|i: int|
                #![trigger v.edges[i]]
                0 <= i < v.edges.len() && v.edges[i].to == 11 ==> v.edges[i].pad == Some("video"@)
        }),
{
    let v = consumers::stream_video(url, kbps, fps, benchmark);
    let q1 = graph::empty_plan("streaming_consumer_pipeline"@).add(
        consumers::video_reader("stream_intervideosrc"@, true),
    ).append(consumers::two_second_queue("stream_queue"@));
    lemma_first(
        "streaming_consumer_pipeline"@,
        consumers::video_reader("stream_intervideosrc"@, true),
        consumers::two_second_queue("stream_queue"@),
    );
    lemma_append(q1, v.nodes[2], 2);
    let q2 = q1.append(v.nodes[2]);
    lemma_append(q2, v.nodes[3], 3);
    let q3 = q2.append(v.nodes[3]);
    lemma_append(q3, v.nodes[4], 4);
    let q4 = q3.append(v.nodes[4]);
    lemma_append(q4, v.nodes[5], 5);
    let q5 = q4.append(v.nodes[5]);
    lemma_append(q5, v.nodes[6], 6);
    let q6 = q5.append(v.nodes[6]);
    lemma_append(q6, v.nodes[7], 7);
    let q7 = q6.append(v.nodes[7]);
    lemma_append(q7, v.nodes[8], 8);
    let q8 = q7.append(v.nodes[8]);
    lemma_append(q8, v.nodes[9], 9);
    let q9 = q8.append(v.nodes[9]);
    lemma_append(q9, v.nodes[10], 10);
    let q10 = q9.append(v.nodes[10]);
    lemma_add(q10, v.nodes[11], 11);
    let q11 = q10.add(v.nodes[11]);
    lemma_add(q11, v.nodes[12], 11);
    let q12 = q11.add(v.nodes[12]);
    lemma_edge(q12, Edge { from: 10, to: 11, pad: Some("video"@) }, 11);
    let q13 = q12.link_pad(10, 11, "video"@);
    lemma_edge(q13, Edge { from: 11, to: 12, pad: None }, 11);
    let q14 = q13.link(11, 12);
    assert(q14 == v);
    assert forall|n: int| 0 <= n < 13 implies #[trigger] q14.links_at(n) by {
        if n == 11 {
            assert(q13.links_at(11));
        }
    }
}

/// The streaming pipeline is whole, with a microphone and without.
pub proof fn law_streaming_plan_whole(
    url: Seq<char>,
    kbps: u32,
    fps: u32,
    has_audio: bool,
    benchmark: bool,
)
    ensures
        consumers::streaming_plan(url, kbps, fps, has_audio, benchmark).sound(),
        consumers::streaming_plan(url, kbps, fps, has_audio, benchmark).connected(),
{
    let s = consumers::streaming_plan(url, kbps, fps, has_audio, benchmark);
    let v = consumers::stream_video(url, kbps, fps, benchmark);
    lemma_stream_video_whole(url, kbps, fps, benchmark);
    lemma_add(v, s.nodes[13], 13);
    let p13 = v.add(s.nodes[13]);
    lemma_add(p13, s.nodes[14], 13);
    let p14 = p13.add(s.nodes[14]);
    lemma_add(p14, s.nodes[15], 13);
    let p15 = p14.add(s.nodes[15]);
    lemma_add(p15, s.nodes[16], 13);
    let p16 = p15.add(s.nodes[16]);
    let (source, fed) = if has_audio {
        lemma_edge(p16, Edge { from: 16, to: 13, pad: None }, 13);
        (16int, p16.link(16, 13))
    } else {
        lemma_add(p16, s.nodes[17], 13);
        let p17 = p16.add(s.nodes[17]);
        lemma_edge(p17, Edge { from: 16, to: 17, pad: None }, 13);
        let p18 = p17.link(16, 17);
        assert(p18 == p16.append(s.nodes[17]));
        lemma_edge(p18, Edge { from: 17, to: 13, pad: None }, 13);
        (17int, p18.link(17, 13))
    };
    assert(fed.links_at(13) && fed.links_at(16) && fed.links_at(source));
    lemma_edge(fed, Edge { from: 13, to: 14, pad: None }, 13);
    let f1 = fed.link(13, 14);
    lemma_edge(f1, Edge { from: 14, to: 15, pad: None }, 13);
    let f2 = f1.link(14, 15);
    reveal_strlit("audio");
    reveal_strlit("video");
    assert("audio"@[0] != "video"@[0]);
    lemma_edge(f2, Edge { from: 15, to: 11, pad: Some("audio"@) }, 13);
    assert(s == f2.link_pad(15, 11, "audio"@));
    assert forall|n: int| 0 <= n < s.nodes.len() implies #[trigger] s.links_at(n) by {
        if n < 13 || n == 13 || n >= 16 {
            assert(fed.links_at(n));
            assert(f1.links_at(n));
            assert(f2.links_at(n));
        } else {
            assert(f2.links_at(n));
        }
    }
    lemma_connected(s);
}

/// The detection pipeline is whole, whether or not it publishes.
pub proof fn law_detection_plan_whole(model: ResolvedModel, exporter: Seq<char>)
    ensures
        consumers::detection_plan(model, exporter).sound(),
        consumers::detection_plan(model, exporter).connected(),
{
    let d = consumers::detection_head(model);
    let whole = consumers::detection_plan(model, exporter);
    let h1 = graph::empty_plan("ai_consumer_pipeline"@).add(
        consumers::video_reader("ai_intervideosrc"@, false),
    ).append(d.nodes[1]);
    lemma_first(
        "ai_consumer_pipeline"@,
        consumers::video_reader("ai_intervideosrc"@, false),
        d.nodes[1],
    );
    lemma_append(h1, d.nodes[2], 2);
    let h2 = h1.append(d.nodes[2]);
    lemma_append(h2, d.nodes[3], 3);
    let h3 = h2.append(d.nodes[3]);
    lemma_append(h3, d.nodes[4], 4);
    let h4 = h3.append(d.nodes[4]);
    lemma_append(h4, d.nodes[5], 5);
    let h5 = h4.append(d.nodes[5]);
    lemma_append(h5, d.nodes[6], 6);
    let h6 = h5.append(d.nodes[6]);
    lemma_append(h6, d.nodes[7], 7);
    let h7 = h6.append(d.nodes[7]);
    lemma_append(h7, d.nodes[8], 8);
    let h8 = h7.append(d.nodes[8]);
    assert(h8 == d);
    let p = if model.publish_detections {
        lemma_append(d, whole.nodes[9], 9);
        d.append(whole.nodes[9])
    } else {
        d
    };
    let n = p.nodes.len() as int;
    lemma_append(p, whole.nodes[n], n);
    let p1 = p.append(whole.nodes[n]);
    lemma_append(p1, whole.nodes[n + 1], n + 1);
    let p2 = p1.append(whole.nodes[n + 1]);
    lemma_append(p2, whole.nodes[n + 2], n + 2);
    let p3 = p2.append(whole.nodes[n + 2]);
    lemma_append(p3, whole.nodes[n + 3], n + 3);
    assert(whole == p3.append(whole.nodes[n + 3]));
    lemma_connected(whole);
}

/// Splitting the sound keeps a plan whole.
proof fn lemma_fan_out(
    p: Plan,
    caps: Seq<char>,
    tee: Seq<char>,
    rec_queue: Seq<char>,
    rec_sink: Seq<char>,
    stream_queue: Seq<char>,
    stream_sink: Seq<char>,
)
    requires
        p.nodes.len() > 0,
        sound_up_to(p, p.nodes.len() - 1) || sound_up_to(p, p.nodes.len() as int),
    ensures
        ({
            let q = producer::with_fan_out(
                p,
                caps,
                tee,
                rec_queue,
                rec_sink,
                stream_queue,
                stream_sink,
            );
            &&& q.nodes.len() == p.nodes.len() + 6
            &&& sound_up_to(q, q.nodes.len() as int)
        }),
{
    let q = producer::with_fan_out(p, caps, tee, rec_queue, rec_sink, stream_queue, stream_sink);
    let l = p.nodes.len() as int;
    let rest = if sound_up_to(p, l) {
        l
    } else {
        l - 1
    };
    lemma_append(p, q.nodes[l], rest);
    let p1 = p.append(q.nodes[l]);
    lemma_append(p1, q.nodes[l + 1], l + 1);
    let p2 = p1.append(q.nodes[l + 1]);
    lemma_append(p2, q.nodes[l + 2], l + 2);
    let p3 = p2.append(q.nodes[l + 2]);
    lemma_append(p3, q.nodes[l + 3], l + 3);
    let p4 = p3.append(q.nodes[l + 3]);
    lemma_add(p4, q.nodes[l + 4], l + 4);
    let p5 = p4.add(q.nodes[l + 4]);
    lemma_edge(p5, Edge { from: l + 1, to: l + 4, pad: None }, l + 4);
    let p6 = p5.link(l + 1, l + 4);
    lemma_append(p6, q.nodes[l + 5], l + 4);
    assert(q == p6.append(q.nodes[l + 5]));
}

/// The live producer is whole, for every camera, turn and size, with sound and
/// without.
pub proof fn law_live_plan_whole(
    backend: CameraBackend,
    nvargus_present: bool,
    width: u32,
    height: u32,
    fps: u32,
    orientation: Orientation,
    audio: bool,
    device: Option<Seq<char>>,
)
    ensures
        ({
            let video = producer::live_video(
                backend,
                nvargus_present,
                width,
                height,
                fps,
                orientation,
            );
            &&& producer::live_plan(video, audio, device).sound()
            &&& producer::live_plan(video, audio, device).connected()
        }),
{
    let video = producer::live_video(backend, nvargus_present, width, height, fps, orientation);
    let name = "live_producer_pipeline"@;
    let p1 = graph::empty_plan(name).add(video.nodes[0]).append(video.nodes[1]);
    lemma_first(name, video.nodes[0], video.nodes[1]);
    lemma_append(p1, video.nodes[2], 2);
    let p2 = p1.append(video.nodes[2]);
    lemma_append(p2, video.nodes[3], 3);
    let p3 = p2.append(video.nodes[3]);
    if video.nodes.len() == 5 {
        lemma_append(p3, video.nodes[4], 4);
        assert(video == p3.append(video.nodes[4]));
    } else {
        assert(video == p3);
    }
    let n = video.nodes.len() as int;
    if audio {
        let mic = producer::microphone("live_producer_audio_src"@, device);
        let convert = consumers::plain("live_producer_audioconvert"@, "audioconvert"@);
        lemma_add(video, mic, n);
        lemma_append(video.add(mic), convert, n);
        lemma_fan_out(
            video.add(mic).append(convert),
            "live_producer_audio_caps"@,
            "live_producer_audio_tee"@,
            "live_producer_audio_rec_queue"@,
            "live_producer_audio_rec_sink"@,
            "live_producer_audio_stream_queue"@,
            "live_producer_audio_stream_sink"@,
        );
    }
    lemma_connected(producer::live_plan(video, audio, device));
}

/// The playback producer is whole, at every pace.
pub proof fn law_playback_plan_whole(path: Seq<char>, pace: Pace)
    ensures
        producer::playback_plan(path, pace).sound(),
        producer::playback_plan(path, pace).connected(),
{
    let w = producer::playback_plan(path, pace);
    let name = "playback_producer_pipeline"@;
    let p1 = graph::empty_plan(name).add(w.nodes[0]).append(w.nodes[1]);
    lemma_first(name, w.nodes[0], w.nodes[1]);
    lemma_add(p1, w.nodes[2], 2);
    let p2 = p1.add(w.nodes[2]);
    lemma_append(p2, w.nodes[3], 2);
    let p3 = p2.append(w.nodes[3]);
    lemma_append(p3, w.nodes[4], 4);
    let p4 = p3.append(w.nodes[4]);
    lemma_append(p4, w.nodes[5], 5);
    let p5 = p4.append(w.nodes[5]);
    lemma_append(p5, w.nodes[6], 6);
    let p6 = p5.append(w.nodes[6]);
    lemma_append(p6, w.nodes[7], 7);
    let p7 = p6.append(w.nodes[7]);
    lemma_add(p7, w.nodes[8], 8);
    lemma_fan_out(
        p7.add(w.nodes[8]),
        "playback_producer_audio_caps"@,
        "playback_producer_audio_tee"@,
        "playback_producer_audio_rec_queue"@,
        "playback_producer_audio_rec_sink"@,
        "playback_producer_audio_stream_queue"@,
        "playback_producer_audio_stream_sink"@,
    );
    lemma_connected(w);
}

// Channels.

/// A later property of another name does not change what one is set to.
proof fn lemma_get(m: Make, name: Seq<char>, other: Seq<char>, value: Val)
    ensures
        m.with(name, value).get(name) == Some(value),
        other.len() != name.len() ==> m.with(other, value).get(name) == m.get(name),
{
    assert(m.with(other, value).properties.drop_last() =~= m.properties);
}

proof fn lemma_publishes(p: Plan, n: int, factory: Seq<char>, channel: Seq<char>)
    requires
        0 <= n < p.nodes.len(),
        p.nodes[n].candidates == seq![producer::publisher(factory, channel)],
    ensures
        p.on_channel(factory, channel),
{
    reveal_strlit("channel");
    reveal_strlit("sync");
    reveal_strlit("async");
    reveal_strlit("enable-last-sample");
    let none = graph::bare(factory);
    let one = none.with("channel"@, Val::Text(channel));
    let two = one.with("sync"@, Val::Flag(true));
    let three = two.with("async"@, Val::Flag(false));
    lemma_get(none, "channel"@, "channel"@, Val::Text(channel));
    lemma_get(one, "channel"@, "sync"@, Val::Flag(true));
    lemma_get(two, "channel"@, "async"@, Val::Flag(false));
    lemma_get(three, "channel"@, "enable-last-sample"@, Val::Flag(false));
    assert(p.nodes[n].candidates[0] == producer::publisher(factory, channel));
}

proof fn lemma_reads(p: Plan, n: int, factory: Seq<char>, channel: Seq<char>, restamp: bool)
    requires
        0 <= n < p.nodes.len(),
        p.nodes[n].candidates == seq![
            graph::bare(factory).with("channel"@, Val::Text(channel)).with(
                "do-timestamp"@,
                Val::Flag(restamp),
            ),
        ],
    ensures
        p.on_channel(factory, channel),
{
    reveal_strlit("channel");
    reveal_strlit("do-timestamp");
    let none = graph::bare(factory);
    let one = none.with("channel"@, Val::Text(channel));
    lemma_get(none, "channel"@, "channel"@, Val::Text(channel));
    lemma_get(one, "channel"@, "do-timestamp"@, Val::Flag(restamp));
    assert(p.nodes[n].candidates[0] == one.with("do-timestamp"@, Val::Flag(restamp)));
}

/// Both producers publish the picture, and sound on both sound channels.
pub proof fn law_producers_publish(
    backend: CameraBackend,
    nvargus_present: bool,
    width: u32,
    height: u32,
    fps: u32,
    orientation: Orientation,
    device: Option<Seq<char>>,
    path: Seq<char>,
    pace: Pace,
)
    ensures
        ({
            let video = producer::live_video(
                backend,
                nvargus_present,
                width,
                height,
                fps,
                orientation,
            );
            let live = producer::live_plan(video, true, device);
            let playback = producer::playback_plan(path, pace);
            &&& video.on_channel("intervideosink"@, VIDEO_CHANNEL@)
            &&& live.on_channel("intervideosink"@, VIDEO_CHANNEL@)
            &&& live.on_channel("interaudiosink"@, AUDIO_CHANNEL_RECORDING@)
            &&& live.on_channel("interaudiosink"@, AUDIO_CHANNEL_STREAMING@)
            &&& playback.on_channel("intervideosink"@, VIDEO_CHANNEL@)
            &&& playback.on_channel("interaudiosink"@, AUDIO_CHANNEL_RECORDING@)
            &&& playback.on_channel("interaudiosink"@, AUDIO_CHANNEL_STREAMING@)
        }),
{
    let video = producer::live_video(backend, nvargus_present, width, height, fps, orientation);
    let live = producer::live_plan(video, true, device);
    let playback = producer::playback_plan(path, pace);
    let n = video.nodes.len() as int;
    lemma_publishes(video, n - 1, "intervideosink"@, VIDEO_CHANNEL@);
    lemma_publishes(live, n - 1, "intervideosink"@, VIDEO_CHANNEL@);
    lemma_publishes(live, n + 5, "interaudiosink"@, AUDIO_CHANNEL_RECORDING@);
    lemma_publishes(live, n + 7, "interaudiosink"@, AUDIO_CHANNEL_STREAMING@);
    lemma_publishes(playback, 7, "intervideosink"@, VIDEO_CHANNEL@);
    lemma_publishes(playback, 12, "interaudiosink"@, AUDIO_CHANNEL_RECORDING@);
    lemma_publishes(playback, 14, "interaudiosink"@, AUDIO_CHANNEL_STREAMING@);
}

/// Each consumer reads the picture from the channel that producers publish it
/// on, and recording and stream read the sound from channels of their own.
pub proof fn law_consumers_subscribe(
    url: Seq<char>,
    kbps: u32,
    fps: u32,
    benchmark: bool,
    model: ResolvedModel,
    exporter: Seq<char>,
)
    ensures
        consumers::frame_export_plan().on_channel("intervideosrc"@, VIDEO_CHANNEL@),
        consumers::streaming_plan(url, kbps, fps, true, benchmark).on_channel(
            "intervideosrc"@,
            VIDEO_CHANNEL@,
        ),
        consumers::streaming_plan(url, kbps, fps, false, benchmark).on_channel(
            "intervideosrc"@,
            VIDEO_CHANNEL@,
        ),
        consumers::recording_video_plan(fps, kbps).on_channel("intervideosrc"@, VIDEO_CHANNEL@),
        consumers::detection_plan(model, exporter).on_channel("intervideosrc"@, VIDEO_CHANNEL@),
        consumers::streaming_plan(url, kbps, fps, true, benchmark).on_channel(
            "interaudiosrc"@,
            AUDIO_CHANNEL_STREAMING@,
        ),
        consumers::recording_audio_plan().on_channel("interaudiosrc"@, AUDIO_CHANNEL_RECORDING@),
        AUDIO_CHANNEL_RECORDING@ != AUDIO_CHANNEL_STREAMING@,
{
    let with_sound = consumers::streaming_plan(url, kbps, fps, true, benchmark);
    let silent = consumers::streaming_plan(url, kbps, fps, false, benchmark);
    lemma_reads(consumers::frame_export_plan(), 0, "intervideosrc"@, VIDEO_CHANNEL@, false);
    lemma_reads(with_sound, 0, "intervideosrc"@, VIDEO_CHANNEL@, true);
    lemma_reads(silent, 0, "intervideosrc"@, VIDEO_CHANNEL@, true);
    lemma_reads(
        consumers::recording_video_plan(fps, kbps),
        0,
        "intervideosrc"@,
        VIDEO_CHANNEL@,
        false,
    );
    lemma_reads(
        consumers::detection_plan(model, exporter),
        0,
        "intervideosrc"@,
        VIDEO_CHANNEL@,
        false,
    );
    lemma_reads(with_sound, 16, "interaudiosrc"@, AUDIO_CHANNEL_STREAMING@, true);
    lemma_reads(
        consumers::recording_audio_plan(),
        0,
        "interaudiosrc"@,
        AUDIO_CHANNEL_RECORDING@,
        false,
    );
    reveal_strlit("aicam-audio-rec");
    reveal_strlit("aicam-audio-stream");
    assert(AUDIO_CHANNEL_RECORDING@.len() != AUDIO_CHANNEL_STREAMING@.len());
}

} // verus!
