//! Handing camera frames to other processes through files.
//!
//! Every so many frames one is written to a file of its own and announced. Only
//! the latest few files are kept.
use crate::clock;
use crate::floats;
use crate::consumers::DEFAULT_INFERENCE_BITS;
use crate::floats::{round_ratio, Binary32, TENTH_BITS};
use crate::session;
use crate::session::join_path;
use crate::text;
use crate::scan;
use vstd::prelude::*;
use vstd::string::StringExecFns;

verus! {

/// Where frames go, and how many of them.
#[derive(Debug, Clone, PartialEq, Eq)]
pub struct FrameExportConfig {
    /// Every how many frames one is exported.
    pub subsample: u32,
    /// How many files are kept.
    pub ring_size: u32,
    /// Where the files are.
    pub frame_dir: String,
    /// Where frames are announced.
    pub zmq_endpoint: String,
    pub session_id: String,
    pub width: u32,
    pub height: u32,
}

impl FrameExportConfig {
    /// The defaults, for a session that is called after an identifier that was drawn.
    pub fn for_session(uuid: &str) -> (c: FrameExportConfig)
        requires
            uuid@.len() >= 8,
        ensures
            c.subsample == 3,
            c.ring_size == 3,
            c.frame_dir@ == "/tmp/aicam-frames"@,
            c.zmq_endpoint@ == "tcp://127.0.0.1:5559"@,
            c.session_id@ == "live-"@ + uuid@.subrange(0, 8),
            c.width == 640,
            c.height == 480,
    {
        let short: String = scan::part(uuid, 0, 8);
        let mut session_id: String = "live-".to_owned();
        session_id.append(short.as_str());
        FrameExportConfig {
            subsample: 3,
            ring_size: 3,
            frame_dir: "/tmp/aicam-frames".to_owned(),
            zmq_endpoint: "tcp://127.0.0.1:5559".to_owned(),
            session_id,
            width: 640,
            height: 480,
        }
    }
}

impl Default for FrameExportConfig {
    fn default() -> (c: FrameExportConfig)
        ensures
            c.subsample == 3,
            c.ring_size == 3,
            c.frame_dir@ == "/tmp/aicam-frames"@,
            c.zmq_endpoint@ == "tcp://127.0.0.1:5559"@,
            exists|uuid: Seq<char>| #[trigger]
                clock::is_uuid(uuid) && c.session_id@ == "live-"@ + uuid.subrange(0, 8),
            c.width == 640,
            c.height == 480,
    {
        let id: String = clock::random_uuid();
        FrameExportConfig::for_session(id.as_str())
    }
}

/// The rate of a model: three frames per second if it has none, and at least one
/// tenth.
pub open spec fn rate_of(inference_fps: Option<Binary32>) -> Binary32 {
    match inference_fps {
        Some(r) => if r.is_nan() || r.negative() || r.bits < TENTH_BITS {
            Binary32 { bits: TENTH_BITS }
        } else {
            r
        },
        None => Binary32 { bits: DEFAULT_INFERENCE_BITS },
    }
}

/// Every how many frames one is exported: the camera's rate over the model's, to
/// the nearest whole number, at least one.
pub open spec fn spacing(fps: u32, inference_fps: Option<Binary32>) -> u32 {
    let n = floats::rounded_ratio(fps as int, rate_of(inference_fps));
    if n < 1 {
        1
    } else if n > u32::MAX {
        u32::MAX
    } else {
        n as u32
    }
}

/// Find every how many frames one is exported.
pub fn frame_subsample(fps: u32, inference_fps: Option<Binary32>) -> (n: u32)
    ensures
        n == spacing(fps, inference_fps),
{
    let rate: Binary32 = match inference_fps {
        Some(r) => if r.bits > 0x7f80_0000 || r.bits < TENTH_BITS {
            Binary32 { bits: TENTH_BITS }
        } else {
            r
        },
        None => Binary32 { bits: DEFAULT_INFERENCE_BITS },
    };
    assert(rate == rate_of(inference_fps));
    let n: u64 = round_ratio(fps, rate);
    if n < 1 {
        1
    } else if n > 0xffff_ffff {
        0xffff_ffff
    } else {
        n as u32
    }
}

/// Whether a frame is exported. With no spacing only the very first is.
pub open spec fn exported(subsample: u32, index: int) -> bool {
    if subsample == 0 {
        index == 0
    } else {
        index % subsample as int == 0
    }
}

/// The frame whose file is deleted after a frame was exported.
pub open spec fn expired(subsample: u32, ring_size: u32, index: int) -> Option<int> {
    let span = ring_size * subsample;
    if index >= span {
        Some(index - span)
    } else {
        None
    }
}

/// The files of a frame.
pub open spec fn frame_file(dir: Seq<char>, index: int) -> Seq<char> {
    session::joined(dir, "frame_"@ + text::decimal6(index as nat) + ".raw"@)
}

pub open spec fn draft_file(dir: Seq<char>, index: int) -> Seq<char> {
    session::joined(dir, "frame_"@ + text::decimal6(index as nat) + ".raw.tmp"@)
}

fn frame_path(dir: &str, index: u64, ending: &str) -> (s: String)
    ensures
        s@ == session::joined(dir@, "frame_"@ + text::decimal6(index as nat) + ending@),
{
    let mut name: String = "frame_".to_owned();
    text::push_decimal6(&mut name, index);
    name.append(ending);
    join_path(dir, name.as_str())
}

/// What to do with a frame.
#[derive(Debug, Clone, PartialEq, Eq)]
pub struct FrameJob {
    /// The file to write first.
    pub draft_path: String,
    /// The file it becomes.
    pub frame_path: String,
    /// The link to the latest frame.
    pub latest_path: String,
    /// The name under which that link is made.
    pub latest_draft: String,
    /// The frame's identifier.
    pub frame_id: String,
    /// The file that has expired.
    pub expired_path: Option<String>,
}

/// `job` exports the frame of an index.
pub open spec fn is_job(job: FrameJob, cfg: FrameExportConfig, index: int) -> bool {
    &&& job.draft_path@ == draft_file(cfg.frame_dir@, index)
    &&& job.frame_path@ == frame_file(cfg.frame_dir@, index)
    &&& job.latest_path@ == session::joined(cfg.frame_dir@, "latest.raw"@)
    &&& job.latest_draft@ == session::joined(cfg.frame_dir@, "latest.raw.lnk"@)
    &&& job.frame_id@ == "frame-"@ + text::decimal6(index as nat)
    &&& match expired(cfg.subsample, cfg.ring_size, index) {
        Some(old_index) => job.expired_path matches Some(p) && p@ == frame_file(
            cfg.frame_dir@,
            old_index,
        ),
        None => job.expired_path is None,
    }
}

/// Decide what to do with the frame of an index.
pub fn plan_frame(cfg: &FrameExportConfig, index: u64) -> (r: Option<FrameJob>)
    ensures
        match r {
            Some(job) => exported(cfg.subsample, index as int) && is_job(job, *cfg, index as int),
            None => !exported(cfg.subsample, index as int),
        },
{
    let due: bool = if cfg.subsample == 0 {
        index == 0
    } else {
        index % (cfg.subsample as u64) == 0
    };
    if !due {
        return None;
    }
    let dir: &str = cfg.frame_dir.as_str();
    assert(cfg.ring_size * cfg.subsample <= 0xffff_ffff_ffff_ffff) by (nonlinear_arith)
        requires
            cfg.ring_size <= u32::MAX,
            cfg.subsample <= u32::MAX,
    ;
    assert(0 <= cfg.ring_size * cfg.subsample) by (nonlinear_arith)
        requires
            cfg.ring_size >= 0,
            cfg.subsample >= 0,
    ;
    let span: u64 = (cfg.ring_size as u64) * (cfg.subsample as u64);
    let mut frame_id: String = "frame-".to_owned();
    text::push_decimal6(&mut frame_id, index);
    let expired_path: Option<String> = if index >= span {
        Some(frame_path(dir, index - span, ".raw"))
    } else {
        None
    };
    Some(
        FrameJob {
            draft_path: frame_path(dir, index, ".raw.tmp"),
            frame_path: frame_path(dir, index, ".raw"),
            latest_path: join_path(dir, "latest.raw"),
            latest_draft: join_path(dir, "latest.raw.lnk"),
            frame_id,
            expired_path,
        },
    )
}

/// The announcement of a frame.
#[derive(Debug, Clone, PartialEq, Eq)]
pub struct FrameReference {
    pub message_id: String,
    pub session_id: String,
    pub created_at: String,
    pub frame_id: String,
    pub frame_index: u64,
    pub width_px: u32,
    pub height_px: u32,
    pub name: String,
    pub length: u64,
}

/// Announce a frame that was written, under an identifier and at a time.
pub fn reference_at(
    cfg: &FrameExportConfig,
    index: u64,
    job: &FrameJob,
    length: u64,
    id: &str,
    time: &str,
) -> (r: FrameReference)
    ensures
        r.message_id@ == "live-"@ + id@,
        r.session_id@ == cfg.session_id@,
        r.created_at@ == time@,
        r.frame_id@ == job.frame_id@,
        r.frame_index == index,
        r.width_px == cfg.width,
        r.height_px == cfg.height,
        r.name@ == job.frame_path@,
        r.length == length,
{
    let mut message_id: String = "live-".to_owned();
    message_id.append(id);
    FrameReference {
        message_id,
        session_id: cfg.session_id.clone(),
        created_at: time.to_owned(),
        frame_id: job.frame_id.clone(),
        frame_index: index,
        width_px: cfg.width,
        height_px: cfg.height,
        name: job.frame_path.clone(),
        length,
    }
}

/// Announce a frame that was written just now.
pub fn frame_reference(cfg: &FrameExportConfig, index: u64, job: &FrameJob, length: u64) -> (r:
    FrameReference)
    ensures
        exists|id: Seq<char>| #[trigger]
            clock::is_uuid(id) && r.message_id@ == "live-"@ + id,
        clock::is_rfc3339(r.created_at@),
        r.session_id@ == cfg.session_id@,
        r.frame_id@ == job.frame_id@,
        r.frame_index == index,
        r.width_px == cfg.width,
        r.height_px == cfg.height,
        r.name@ == job.frame_path@,
        r.length == length,
{
    let id: String = clock::random_uuid();
    let now: clock::Moment = clock::utc_now();
    reference_at(cfg, index, job, length, id.as_str(), now.rfc3339.as_str())
}

// What is on disk.

/// The frames whose files exist once the first `n` frames have been seen.
pub open spec fn kept(subsample: u32, ring_size: u32, n: nat) -> Set<int>
    decreases n,
{
    if n == 0 {
        Set::empty()
    } else {
        let before = kept(subsample, ring_size, (n - 1) as nat);
        let index = n - 1;
        if exported(subsample, index) {
            let with_new = before.insert(index);
            match expired(subsample, ring_size, index) {
                Some(old_index) => with_new.remove(old_index),
                None => with_new,
            }
        } else {
            before
        }
    }
}

/// The files that exist are those of the latest exported frames, as many as
/// the ring holds.
pub proof fn law_ring_keeps_latest(subsample: u32, ring_size: u32, n: nat, k: int)
    requires
        subsample > 0,
        ring_size > 0,
    ensures
        kept(subsample, ring_size, n).contains(k) <==> {
            &&& 0 <= k < n
            &&& exported(subsample, k)
            &&& k > latest(subsample, n) - ring_size * subsample
        },
    decreases n,
{
    let s = subsample as int;
    let span = ring_size * subsample;
    assert(span >= s) by (nonlinear_arith)
        requires
            span == ring_size * subsample,
            ring_size >= 1,
            s == subsample,
            subsample > 0,
    ;
    if n > 0 {
        let index = n - 1;
        let before = (n - 1) as nat;
        law_ring_keeps_latest(subsample, ring_size, before, k);
        lemma_latest(subsample, n);
        if before > 0 {
            lemma_latest(subsample, before);
        }
        if exported(subsample, index) {
            assert(latest(subsample, n) == index);
            if before > 0 {
                lemma_multiples_apart(s, latest(subsample, before), index);
                assert(latest(subsample, before) == index - s);
            } else {
                assert(index == 0);
            }
            assert(0 <= k < n && exported(subsample, k) && k > index - s - span && k != index
                - span ==> k > index - span) by {
                if 0 <= k < n && exported(subsample, k) && index - s - span < k < index - span {
                    vstd::arithmetic::div_mod::lemma_mod_multiples_vanish(
                        ring_size as int,
                        k,
                        s,
                    );
                    assert(k + span == s * (ring_size as int) + k) by (nonlinear_arith)
                        requires
                            span == ring_size * subsample,
                            s == subsample,
                    ;
                    lemma_multiples_apart(s, k + span, index);
                }
            }
        } else {
            assert(latest(subsample, n) == latest(subsample, before)) by {
                if before == 0 {
                    assert(index == 0);
                    assert(0int % s == 0);
                } else if latest(subsample, n) < latest(subsample, before) {
                    lemma_multiples_apart(s, latest(subsample, n), latest(subsample, before));
                } else if latest(subsample, before) < latest(subsample, n) {
                    lemma_multiples_apart(s, latest(subsample, before), latest(subsample, n));
                }
            }
        }
    }
}

/// The latest exported frame among the first `n`.
pub open spec fn latest(subsample: u32, n: nat) -> int {
    if n == 0 {
        -1
    } else {
        (n - 1) - (n - 1) % subsample as int
    }
}

proof fn lemma_latest(subsample: u32, n: nat)
    requires
        subsample > 0,
        n > 0,
    ensures
        exported(subsample, latest(subsample, n)),
        n - 1 - subsample < latest(subsample, n) <= n - 1,
{
    let s = subsample as int;
    vstd::arithmetic::div_mod::lemma_fundamental_div_mod(n - 1, s);
    vstd::arithmetic::div_mod::lemma_mod_multiples_basic((n - 1) / s, s);
    assert(latest(subsample, n) == s * ((n - 1) / s));
    assert(s * ((n - 1) / s) == ((n - 1) / s) * s) by (nonlinear_arith);
}

/// Two different multiples are at least one step apart.
proof fn lemma_multiples_apart(s: int, a: int, b: int)
    requires
        s > 0,
        a % s == 0,
        b % s == 0,
        a < b,
    ensures
        a <= b - s,
{
    vstd::arithmetic::div_mod::lemma_fundamental_div_mod(a, s);
    vstd::arithmetic::div_mod::lemma_fundamental_div_mod(b, s);
    let (p, q) = (a / s, b / s);
    assert(a <= b - s) by (nonlinear_arith)
        requires
            s > 0,
            a == s * p,
            b == s * q,
            a < b,
    ;
}

} // verus!
