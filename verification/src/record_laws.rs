//! What holds of recordings, their sessions and exported frames.
use crate::abr;
use crate::abr::AbrController;
use crate::clock;
use crate::clock::Moment;
use crate::floats;
use crate::floats::Binary32;
use crate::frame_export;
use crate::frame_export::{FrameExportConfig, FrameJob};
use crate::recording;
use crate::recording::{Act, Action, Part, Side};
use crate::session;
use crate::session::{RecordingSession, SessionMetadata};
use crate::text;
use vstd::prelude::*;

verus! {

// Sessions.

/// What is written down about a session is the session's own: when it began and
/// when it ended, how wide and high its picture is and how many frames a second it
/// has, and how large its files became.
pub proof fn law_metadata_tells_session(
    m: SessionMetadata,
    s: RecordingSession,
    status: Seq<char>,
    end: Moment,
)
    requires
        session::is_metadata(m, s, status, end),
    ensures
        m.session_id@ == s.session_id@,
        m.directory@ == s.directory@,
        m.status@ == status,
        m.name is Some <==> s.name is Some,
        m.name matches Some(n) ==> (s.name matches Some(o) && n@ == o@),
        m.start_time matches Some(t) && t@ == s.start_time.rfc3339@,
        m.end_time matches Some(t) && t@ == end.rfc3339@,
        m.video_width == Some(s.video_width),
        m.video_height == Some(s.video_height),
        m.video_fps == Some(s.video_fps),
        m.audio_enabled == s.audio_enabled,
        m.actual_frame_count == s.actual_frame_count,
        m.video_file_size == s.video_file_size,
        m.audio_file_size == s.audio_file_size,
{
}

/// The duration of a session counts whole milliseconds from its start to its end: as
/// long as it ends no earlier than it started, the time that it leaves out is less
/// than one millisecond.
pub proof fn law_duration_counts_milliseconds(
    m: SessionMetadata,
    s: RecordingSession,
    status: Seq<char>,
    end: Moment,
)
    requires
        session::is_metadata(m, s, status, end),
    ensures
        ({
            let began = s.start_time.secs * 1_000_000_000 + s.start_time.nanos;
            let ended = end.secs * 1_000_000_000 + end.nanos;
            &&& m.duration_ms matches Some(d)
            &&& began <= ended ==> 0 <= (ended - began) - d * 1_000_000 < 1_000_000
            &&& ended <= began ==> 0 <= (began - ended) + d * 1_000_000 < 1_000_000
        }),
{
}

/// A session has a picture in H.264, and a sound in FLAC exactly where it is
/// recorded, each in the file that its path names.
pub proof fn law_streams_of_session(
    m: SessionMetadata,
    s: RecordingSession,
    status: Seq<char>,
    end: Moment,
)
    requires
        session::is_metadata(m, s, status, end),
    ensures
        m.streams@.len() == if s.audio_enabled {
            2int
        } else {
            1
        },
        m.streams@[0].stream_type@ == "video"@ && m.streams@[0].codec@ == "h264"@
            && m.streams@[0].file_name@ == "video.h264"@ && m.streams@[0].status@ == status,
        s.audio_enabled ==> m.streams@[1].stream_type@ == "audio"@ && m.streams@[1].codec@
            == "flac"@ && m.streams@[1].file_name@ == "audio.flac"@ && m.streams@[1].status@
            == status,
{
}

/// A session keeps what it was started with, and is called after the time of its
/// start and its name; without a name, eight digits tell it apart.
pub proof fn law_session_keeps_settings(
    s: RecordingSession,
    work_dir: Seq<char>,
    base_dir: Seq<char>,
    audio_enabled: bool,
    width: u32,
    height: u32,
    fps: u32,
    name: Option<Seq<char>>,
    nanos: u32,
)
    requires
        session::is_started(
            s,
            work_dir,
            base_dir,
            audio_enabled,
            width,
            height,
            fps,
            name,
            nanos,
        ),
    ensures
        s.video_width == width,
        s.video_height == height,
        s.video_fps == fps,
        s.audio_enabled == audio_enabled,
        s.actual_frame_count is None && s.video_file_size is None && s.audio_file_size is None,
        s.start_time.stamp@.is_prefix_of(s.session_id@),
        name matches Some(n) ==> n.len() > 0 ==> s.session_id@ == s.start_time.stamp@ + "_"@ + n,
        name is None ==> s.session_id@.len() == s.start_time.stamp@.len() + 9,
        name matches Some(n) ==> (s.name matches Some(o) && o@ == n),
        name is None ==> s.name is None,
{
    reveal_strlit("_");
    let stamp = s.start_time.stamp@;
    assert(s.session_id@.subrange(0, stamp.len() as int) =~= stamp);
}

/// The directory of a session lies below the directory of recordings, which lies below
/// the working directory unless it is absolute.
pub proof fn law_session_directory(
    s: RecordingSession,
    work_dir: Seq<char>,
    base_dir: Seq<char>,
    audio_enabled: bool,
    width: u32,
    height: u32,
    fps: u32,
    name: Option<Seq<char>>,
    nanos: u32,
)
    requires
        session::is_started(
            s,
            work_dir,
            base_dir,
            audio_enabled,
            width,
            height,
            fps,
            name,
            nanos,
        ),
        work_dir.len() > 0 && work_dir.last() != '/',
        base_dir.len() > 0 && base_dir.last() != '/',
        s.session_id@.len() > 0 && s.session_id@[0] != '/',
    ensures
        base_dir[0] == '/' ==> s.directory@ == base_dir + seq!['/'] + s.session_id@,
        base_dir[0] != '/' ==> s.directory@ == work_dir + seq!['/'] + base_dir + seq!['/']
            + s.session_id@,
{
    let slash = seq!['/'];
    assert(work_dir.push('/') =~= work_dir + slash);
    assert(base_dir.push('/') =~= base_dir + slash);
    let base = work_dir + slash + base_dir;
    assert(base.last() == base_dir.last());
    assert(base.push('/') =~= base + slash);
}

/// Each recorded frame adds one line to the table: its index, a comma and its time.
pub proof fn law_one_line_for_each_frame(entries: Seq<(u64, u64)>, index: u64, pts: u64)
    ensures
        session::pts_rows(entries.push((index, pts))) == session::pts_rows(entries)
            + text::decimal(index as nat) + seq![','] + text::decimal(pts as nat) + seq!['\n'],
        session::pts_rows(Seq::empty()).len() == 0,
{
    assert(entries.push((index, pts)).drop_last() =~= entries);
}

// Recordings.

/// A start sets the encoder to the recording's bitrate and to a key frame in every
/// second, and to nothing else; it points each sink that records at its file. An end
/// sets no encoder and points each of them at nothing.
pub proof fn law_recording_sets_encoder(has_audio: bool, fps: u32, kbps: u32)
    ensures
        ({
            let s = recording::start_actions(has_audio, fps, kbps);
            let e = recording::stop_actions(has_audio);
            &&& s.contains(Action { side: Side::Picture, act: Act::Bitrate(kbps) })
            &&& s.contains(Action { side: Side::Picture, act: Act::KeyInterval(fps) })
            &&& s.contains(Action { side: Side::Picture, act: Act::Locate })
            &&& s.contains(Action { side: Side::Picture, act: Act::Open })
            &&& e.contains(Action { side: Side::Picture, act: Act::Discard })
            &&& e.contains(Action { side: Side::Picture, act: Act::Close })
            &&& has_audio ==> s.contains(Action { side: Side::Sound, act: Act::Locate })
            &&& has_audio ==> s.contains(Action { side: Side::Sound, act: Act::Open })
            &&& has_audio ==> e.contains(Action { side: Side::Sound, act: Act::Discard })
            &&& has_audio ==> e.contains(Action { side: Side::Sound, act: Act::Close })
            &&& forall|i: int|
                0 <= i < s.len() ==> match (#[trigger] s[i]).act {
                    Act::Bitrate(k) => k == kbps,
                    Act::KeyInterval(f) => f == fps,
                    Act::Discard => false,
                    Act::Close => false,
                    Act::Flush => false,
                    _ => true,
                }
            &&& forall|i: int|
                0 <= i < e.len() ==> match (#[trigger] e[i]).act {
                    Act::Bitrate(_) => false,
                    Act::KeyInterval(_) => false,
                    Act::Locate => false,
                    Act::Open => false,
                    _ => true,
                }
            &&& !has_audio ==> forall|i: int|
                0 <= i < s.len() ==> (#[trigger] s[i]).side == Side::Picture
            &&& !has_audio ==> forall|i: int|
                0 <= i < e.len() ==> (#[trigger] e[i]).side == Side::Picture
        }),
{
    let s = recording::start_actions(has_audio, fps, kbps);
    let e = recording::stop_actions(has_audio);
    let n = s.len() - 1;
    assert(s.contains(s[4]) && s.contains(s[5]) && s.contains(s[6]) && s.contains(s[n]));
    assert(e.contains(e[0]));
    if has_audio {
        assert(s.contains(s[15]) && s.contains(s[20]));
        assert(e.contains(e[3]) && e.contains(e[8]) && e.contains(e[17]));
    } else {
        assert(e.contains(e[6]));
    }
}

/// Every element that a start or an end takes down is brought back by it.
pub proof fn law_elements_come_back(has_audio: bool, fps: u32, kbps: u32, side: Side, part: Part)
    ensures
        ({
            let s = recording::start_actions(has_audio, fps, kbps);
            let e = recording::stop_actions(has_audio);
            &&& s.contains(Action { side, act: Act::Halt(part) }) <==> s.contains(
                Action { side, act: Act::Resume(part) },
            )
            &&& e.contains(Action { side, act: Act::Halt(part) }) <==> e.contains(
                Action { side, act: Act::Resume(part) },
            )
            &&& s.contains(Action { side, act: Act::Halt(part) }) <==> e.contains(
                Action { side, act: Act::Halt(part) },
            )
        }),
{
    let s = recording::start_actions(has_audio, fps, kbps);
    let e = recording::stop_actions(has_audio);
    assert(s.contains(s[0]) && s.contains(s[1]) && s.contains(s[2]) && s.contains(s[3]));
    assert(s.contains(s[7]) && s.contains(s[8]) && s.contains(s[9]) && s.contains(s[10]));
    if has_audio {
        assert(s.contains(s[11]) && s.contains(s[12]) && s.contains(s[13]) && s.contains(s[14]));
        assert(s.contains(s[16]) && s.contains(s[17]) && s.contains(s[18]) && s.contains(s[19]));
        assert(e.contains(e[4]) && e.contains(e[5]) && e.contains(e[6]) && e.contains(e[7]));
        assert(e.contains(e[9]) && e.contains(e[10]) && e.contains(e[11]) && e.contains(e[12]));
        assert(e.contains(e[13]) && e.contains(e[14]) && e.contains(e[15]) && e.contains(e[16]));
        assert(e.contains(e[18]) && e.contains(e[19]) && e.contains(e[20]) && e.contains(e[21]));
    } else {
        assert(e.contains(e[2]) && e.contains(e[3]) && e.contains(e[4]) && e.contains(e[5]));
        assert(e.contains(e[7]) && e.contains(e[8]) && e.contains(e[9]) && e.contains(e[10]));
    }
}

// Exported frames.

/// A frame is drafted beside its own file. What is deleted when a frame is exported is
/// the file of the frame one round of the ring before it.
pub proof fn law_frame_files(
    cfg: FrameExportConfig,
    earlier: FrameJob,
    later: FrameJob,
    index: int,
)
    requires
        index >= 0,
        frame_export::is_job(earlier, cfg, index),
        frame_export::is_job(later, cfg, index + cfg.ring_size * cfg.subsample),
    ensures
        later.expired_path matches Some(p) && p@ == earlier.frame_path@,
        earlier.draft_path@ == earlier.frame_path@ + ".tmp"@,
        later.latest_path@ == earlier.latest_path@,
        later.latest_draft@ == earlier.latest_path@ + ".lnk"@,
        index < cfg.ring_size * cfg.subsample ==> earlier.expired_path is None,
        earlier.frame_id@.len() >= 12,
        text::number_of(earlier.frame_id@.skip(6)) == index,
{
    reveal_strlit(".raw");
    reveal_strlit(".raw.tmp");
    reveal_strlit(".tmp");
    reveal_strlit("latest.raw");
    reveal_strlit("latest.raw.lnk");
    reveal_strlit(".lnk");
    reveal_strlit("frame-");
    reveal_strlit("frame_");
    assert(".raw.tmp"@ =~= ".raw"@ + ".tmp"@);
    assert("latest.raw.lnk"@ =~= "latest.raw"@ + ".lnk"@);
    let digits = text::decimal6(index as nat);
    let stem = "frame_"@ + digits;
    assert(stem + ".raw.tmp"@ =~= (stem + ".raw"@) + ".tmp"@);
    lemma_joined_suffix(cfg.frame_dir@, stem + ".raw"@, ".tmp"@);
    lemma_joined_suffix(cfg.frame_dir@, "latest.raw"@, ".lnk"@);
    text::law_padded_decimal_reads_back(index as nat);
    assert(earlier.frame_id@.skip(6) =~= digits);
}

proof fn lemma_joined_suffix(dir: Seq<char>, name: Seq<char>, more: Seq<char>)
    requires
        name.len() > 0,
    ensures
        session::joined(dir, name + more) == session::joined(dir, name) + more,
{
    assert((name + more)[0] == name[0]);
    assert(session::joined(dir, name + more) =~= session::joined(dir, name) + more);
}

/// The file of a frame has the frame's index in its name.
pub proof fn law_frame_file_names(dir: Seq<char>, index: nat)
    requires
        dir.len() > 0,
        dir.last() != '/',
    ensures
        ({
            let f = frame_export::frame_file(dir, index as int);
            let digits = f.subrange(dir.len() as int + 7, f.len() - 4);
            &&& f == dir + seq!['/'] + "frame_"@ + digits + ".raw"@
            &&& text::number_of(digits) == index
            &&& digits.len() >= 6
        }),
{
    reveal_strlit("frame_");
    reveal_strlit(".raw");
    let f = frame_export::frame_file(dir, index as int);
    let d = text::decimal6(index);
    text::law_padded_decimal_reads_back(index);
    assert(dir.push('/') =~= dir + seq!['/']);
    assert(f =~= dir + seq!['/'] + "frame_"@ + d + ".raw"@);
    assert(f.subrange(dir.len() as int + 7, f.len() - 4) =~= d);
}

/// Every frame whose index is a multiple of the spacing is exported, and no other.
pub proof fn law_every_nth_frame(subsample: u32, index: int)
    requires
        index >= 0,
    ensures
        subsample > 0 ==> (frame_export::exported(subsample, index) <==> exists|k: int|
            index == #[trigger] (k * subsample)),
        subsample == 0 ==> (frame_export::exported(subsample, index) <==> index == 0),
{
    if subsample > 0 {
        let s = subsample as int;
        vstd::arithmetic::div_mod::lemma_fundamental_div_mod(index, s);
        if index % s == 0 {
            let k = index / s;
            assert(index == k * s) by (nonlinear_arith)
                requires
                    index == s * k,
            ;
        }
        if exists|k: int| index == #[trigger] (k * subsample) {
            let k = choose|k: int| index == #[trigger] (k * subsample);
            vstd::arithmetic::div_mod::lemma_mod_multiples_basic(k, s);
        }
    }
}

// The stream's bitrate.

/// With the tuned settings three observations in a row of a queue at three quarters or
/// more take a fifth off the bitrate, down to the floor, and ten in a row of a queue at
/// a tenth or less add a tenth to it, up to the ceiling.
pub proof fn law_bitrate_steps(c: AbrController, level: i64, capacity: u64)
    requires
        c.cfg == abr::tuned(c.cfg.ceiling_kbps),
        500 <= c.current_kbps <= c.cfg.ceiling_kbps,
        capacity > 0,
        0 <= level <= capacity,
    ensures
        ({
            let after = c.ticked(level, capacity).0;
            let (was, now) = (c.current_kbps as int, after.current_kbps as int);
            &&& 4 * level >= 3 * capacity && c.consecutive_high == 2 && 8 * was >= 5000 ==> -5 <= 10
                * now - 8 * was <= 5 && after.consecutive_high == 0
            &&& 4 * level >= 3 * capacity && c.consecutive_high == 2 && 8 * was <= 4990 ==> now
                == 500
            &&& 4 * level >= 3 * capacity && c.consecutive_high < 2 ==> now == was
                && after.consecutive_high == c.consecutive_high + 1 && after.consecutive_low == 0
            &&& 10 * level <= capacity && c.consecutive_low == 9 && 11 * was + 10 <= 10
                * c.cfg.ceiling_kbps ==> -5 <= 10 * now - 11 * was <= 5 && after.consecutive_low
                == 0
            &&& 10 * level <= capacity && c.consecutive_low == 9 && 11 * was >= 10
                * c.cfg.ceiling_kbps + 10 ==> now == c.cfg.ceiling_kbps
            &&& 10 * level <= capacity && c.consecutive_low < 9 ==> now == was
                && after.consecutive_low == c.consecutive_low + 1 && after.consecutive_high == 0
            &&& capacity < 10 * level && 4 * level < 3 * capacity ==> now == was
                && after.consecutive_high == 0 && after.consecutive_low == 0
        }),
{
    let (h, l, cap) = (c.cfg.high_level_percent, c.cfg.low_level_percent, capacity as int);
    assert(h * cap == 75 * cap) by (nonlinear_arith)
        requires
            h == 75,
    ;
    assert(l * cap == 10 * cap) by (nonlinear_arith)
        requires
            l == 10,
    ;
    let was = c.current_kbps;
    let (down, up) = (abr::percent_of(was, 80), abr::percent_of(was, 110));
    assert(c.lower() == if down >= 500 {
        if down <= c.cfg.ceiling_kbps {
            down
        } else {
            c.cfg.ceiling_kbps
        }
    } else {
        500
    });
    assert(c.higher() == if up <= c.cfg.ceiling_kbps {
        up
    } else {
        c.cfg.ceiling_kbps
    });
    assert(c.high(level, capacity) <==> 4 * level >= 3 * capacity);
    assert(c.low(level, capacity) <==> 4 * level < 3 * capacity && 10 * level <= capacity);
    let o = c.observed(level, capacity);
    assert(o.lower() == c.lower() && o.higher() == c.higher());
}

/// A fresh controller starts at the ceiling.
pub proof fn law_bitrate_starts_at_ceiling(ceiling_kbps: u32)
    ensures
        AbrController::fresh(abr::tuned(ceiling_kbps)).current_kbps == ceiling_kbps,
        abr::tuned(ceiling_kbps).ceiling_kbps == ceiling_kbps,
        abr::tuned(ceiling_kbps).floor_kbps == 500,
{
}

/// The bounds of a rounded ratio hold of the spacing, which the ratio becomes.
proof fn lemma_spacing(fps: u32, rate: Option<Binary32>)
    requires
        fps >= 1,
        !frame_export::rate_of(rate).is_infinite(),
        1 <= floats::magnitude(frame_export::rate_of(rate)).0 <= fps * floats::magnitude(
            frame_export::rate_of(rate),
        ).1,
    ensures
        ({
            let n = frame_export::spacing(fps, rate);
            let (a, b) = floats::magnitude(frame_export::rate_of(rate));
            n < u32::MAX ==> {
                &&& 0x20_0000 * (2 * (n * a)) <= 0x20_0001 * (2 * (fps * b)) + 0x20_0000 * a
                &&& 0x1f_ffff * (2 * (fps * b)) <= 0x20_0000 * (2 * (n * a)) + 0x20_0000 * a
            }
        }),
{
    let x = frame_export::rate_of(rate);
    let (a, b) = floats::magnitude(x);
    let r = floats::rounded_ratio(fps as int, x);
    floats::lemma_ratio_near(fps as int, x);
    let fb = fps * b;
    assert(r >= 1) by (nonlinear_arith)
        requires
            0x1f_ffff * (2 * fb) <= 0x20_0000 * (2 * (r * a)) + 0x20_0000 * a,
            1 <= a <= fb,
    {
        if r <= 0 {
            assert(r * a <= 0);
        }
    }
}

/// Every how many frames one is exported: the camera's rate over the model's, within a
/// half and one part in two million. A model that names no rate has three frames per
/// second. The rate is a fraction `a` over `b`.
pub proof fn law_spacing_of_frames(fps: u32, rate: Binary32)
    requires
        fps >= 1,
        !rate.is_nan(),
        !rate.is_infinite(),
        !rate.negative(),
        rate.bits >= 0x3dcc_cccd,
    ensures
        ({
            let n = frame_export::spacing(fps, Some(rate));
            let (a, b) = floats::magnitude(rate);
            1 <= a <= fps * b && n < u32::MAX ==> {
                &&& 0x20_0000 * (2 * (n * a)) <= 0x20_0001 * (2 * (fps * b)) + 0x20_0000 * a
                &&& 0x1f_ffff * (2 * (fps * b)) <= 0x20_0000 * (2 * (n * a)) + 0x20_0000 * a
            }
        }),
        ({
            let n = frame_export::spacing(fps, None);
            fps >= 3 && n < u32::MAX ==> {
                &&& 0x20_0000 * (6 * n) <= 0x20_0001 * (2 * fps) + 0x20_0000 * 3
                &&& 0x1f_ffff * (2 * fps) <= 0x20_0000 * (6 * n) + 0x20_0000 * 3
            }
        }),
        frame_export::spacing(fps, Some(rate)) >= 1,
{
    let (a, b) = floats::magnitude(rate);
    if 1 <= a <= fps * b {
        lemma_spacing(fps, Some(rate));
    }
    if fps >= 3 {
        vstd::arithmetic::power2::lemma2_to64();
        let three = frame_export::rate_of(None);
        assert(three.bits == 0x4040_0000);
        assert(three.exponent() == 128);
        assert(three.fraction() == 0x40_0000);
        assert(three.scale() == -22);
        assert(three.significand() == 12_582_912);
        assert((-three.scale()) as nat == 22);
        assert(vstd::arithmetic::power2::pow2(22) == 4_194_304);
        assert(floats::magnitude(three) == (12_582_912int, 4_194_304int));
        lemma_spacing(fps, None);
    }
}

/// A rate that is not a number, negative or less than a tenth counts as a tenth.
pub proof fn law_slowest_rate(fps: u32, rate: Binary32)
    requires
        rate.is_nan() || rate.negative() || rate.bits < 0x3dcc_cccd,
    ensures
        frame_export::spacing(fps, Some(rate)) == frame_export::spacing(
            fps,
            Some(Binary32 { bits: 0x3dcc_cccd }),
        ),
{
    let tenth = Binary32 { bits: 0x3dcc_cccd };
    assert(tenth.exponent() == 123);
    assert(!tenth.is_nan());
}

} // verus!
