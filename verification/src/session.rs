//! Recording sessions: names, files and metadata.
use crate::clock;
use crate::clock::Moment;
use crate::text;
use vstd::prelude::*;
use vstd::string::StringExecFns;

verus! {

/// One file of a session.
#[derive(Debug, Clone, PartialEq, Eq)]
pub struct SessionStream {
    pub stream_type: String,
    pub codec: String,
    pub file_name: String,
    pub status: String,
}

/// What is written down about a session.
#[derive(Debug, Clone, PartialEq, Eq)]
pub struct SessionMetadata {
    pub session_id: String,
    pub name: Option<String>,
    pub status: String,
    pub directory: String,
    pub start_time: Option<String>,
    pub end_time: Option<String>,
    /// How long the session took, in milliseconds.
    pub duration_ms: Option<i128>,
    pub streams: Vec<SessionStream>,
    pub video_width: Option<u32>,
    pub video_height: Option<u32>,
    pub video_fps: Option<u32>,
    pub audio_device: Option<String>,
    pub audio_enabled: bool,
    pub actual_frame_count: Option<u64>,
    pub video_file_size: Option<u64>,
    pub audio_file_size: Option<u64>,
}

/// A recording session.
#[derive(Debug, Clone, PartialEq, Eq)]
pub struct RecordingSession {
    pub session_id: String,
    pub name: Option<String>,
    pub directory: String,
    pub start_time: Moment,
    pub audio_enabled: bool,
    pub video_width: u32,
    pub video_height: u32,
    pub video_fps: u32,
    pub actual_frame_count: Option<u64>,
    pub video_file_size: Option<u64>,
    pub audio_file_size: Option<u64>,
}

/// A character that session names may hold.
pub open spec fn name_char(c: char) -> bool {
    ||| 'a' <= c <= 'z'
    ||| 'A' <= c <= 'Z'
    ||| '0' <= c <= '9'
    ||| c == ' '
    ||| c == '_'
    ||| c == '-'
}

/// A name that a session may have.
pub open spec fn valid_name(name: Seq<char>) -> bool {
    name.len() > 0 && forall|i: int| 0 <= i < name.len() ==> name_char(#[trigger] name[i])
}

/// Check a session name: only letters, digits, spaces, `_` and `-`.
pub fn is_valid_session_name(name: &str) -> (b: bool)
    ensures
        b == valid_name(name@),
{
    let n: usize = name.unicode_len();
    if n == 0 {
        return false;
    }
    let mut i: usize = 0;
    while i < n
        invariant
            i <= n == name@.len(),
            forall|k: int| 0 <= k < i ==> name_char(#[trigger] name@[k]),
        decreases n - i,
    {
        let c: char = name.get_char(i);
        if !(('a' <= c && c <= 'z') || ('A' <= c && c <= 'Z') || ('0' <= c && c <= '9') || c == ' '
            || c == '_' || c == '-') {
            assert(!name_char(name@[i as int]));
            return false;
        }
        i = i + 1;
    }
    true
}

/// A name with each space replaced by an underscore.
pub open spec fn underscored(name: Seq<char>) -> Seq<char> {
    name.map_values(
        |c: char|
            if c == ' ' {
                '_'
            } else {
                c
            },
    )
}

/// Make a session name fit for a directory.
pub fn sanitize_session_name(name: &str) -> (s: String)
    ensures
        s@ == underscored(name@),
{
    let n: usize = name.unicode_len();
    let mut s: String = String::new();
    let mut i: usize = 0;
    assert(s@ =~= underscored(name@).take(0));
    while i < n
        invariant
            i <= n == name@.len(),
            s@ == underscored(name@).take(i as int),
        decreases n - i,
    {
        let c: char = name.get_char(i);
        s.push(
            if c == ' ' {
                '_'
            } else {
                c
            },
        );
        i = i + 1;
        assert(s@ =~= underscored(name@).take(i as int));
    }
    assert(underscored(name@).take(n as int) =~= underscored(name@));
    s
}

/// A cleaned name is of the same length, holds no space, is not changed by
/// cleaning it again, and is valid where the name was.
pub proof fn law_sanitized_names(name: Seq<char>)
    ensures
        underscored(name).len() == name.len(),
        !underscored(name).contains(' '),
        underscored(underscored(name)) == underscored(name),
        valid_name(name) ==> valid_name(underscored(name)),
{
    if valid_name(name) {
        assert forall|i: int| 0 <= i < name.len() implies name_char(
            #[trigger] underscored(name)[i],
        ) by {
            assert(name_char(name[i]));
        }
    }
    assert(underscored(underscored(name)) =~= underscored(name));
}

/// A path below a directory. An absolute path stands for itself.
pub open spec fn joined(dir: Seq<char>, path: Seq<char>) -> Seq<char> {
    if path.len() > 0 && path[0] == '/' {
        path
    } else if dir.len() == 0 {
        path
    } else if dir.last() == '/' {
        dir + path
    } else {
        dir.push('/') + path
    }
}

pub fn join_path(dir: &str, path: &str) -> (s: String)
    ensures
        s@ == joined(dir@, path@),
{
    let n: usize = dir.unicode_len();
    if n == 0 || (path.unicode_len() > 0 && path.get_char(0) == '/') {
        return path.to_owned();
    }
    let mut s: String = dir.to_owned();
    if dir.get_char(n - 1) != '/' {
        s.push('/');
    }
    s.append(path);
    s
}

/// A name that was given.
pub open spec fn given(name: Option<&str>) -> Option<Seq<char>> {
    match name {
        Some(n) => Some(n@),
        None => None,
    }
}

/// A session is known by its start, and by its name or eight hexadecimal
/// digits.
pub open spec fn session_id_of(
    stamp: Seq<char>,
    name: Option<Seq<char>>,
    nanos: u32,
) -> Seq<char> {
    match name {
        Some(n) => if n.len() > 0 {
            stamp + "_"@ + n
        } else {
            stamp + "_"@ + text::hex8(nanos as nat)
        },
        None => stamp + "_"@ + text::hex8(nanos as nat),
    }
}

fn make_session_id(stamp: &str, name: Option<&str>, nanos: u32) -> (s: String)
    ensures
        s@ == session_id_of(
            stamp@,
            given(name),
            nanos,
        ),
{
    let mut s: String = stamp.to_owned();
    s.append("_");
    match name {
        Some(n) => {
            if n.unicode_len() > 0 {
                s.append(n);
                return s;
            }
        },
        None => {},
    }
    let short: String = text::hex8_string(nanos);
    s.append(short.as_str());
    s
}

/// The streams of a session: the picture, and the sound where it is recorded.
pub open spec fn are_streams(
    streams: Seq<SessionStream>,
    status: Seq<char>,
    audio_enabled: bool,
) -> bool {
    &&& streams.len() == (if audio_enabled {
        2nat
    } else {
        1
    })
    &&& is_stream(streams[0], "video"@, "h264"@, "video.h264"@, status)
    &&& audio_enabled ==> is_stream(streams[1], "audio"@, "flac"@, "audio.flac"@, status)
}

pub open spec fn is_stream(
    s: SessionStream,
    kind: Seq<char>,
    codec: Seq<char>,
    file: Seq<char>,
    status: Seq<char>,
) -> bool {
    s.stream_type@ == kind && s.codec@ == codec && s.file_name@ == file && s.status@ == status
}

fn make_stream(kind: &str, codec: &str, file: &str, status: &str) -> (s: SessionStream)
    ensures
        is_stream(s, kind@, codec@, file@, status@),
{
    SessionStream {
        stream_type: kind.to_owned(),
        codec: codec.to_owned(),
        file_name: file.to_owned(),
        status: status.to_owned(),
    }
}

/// The text of an option.
pub open spec fn text_of(s: Option<String>) -> Option<Seq<char>> {
    match s {
        Some(t) => Some(t@),
        None => None,
    }
}

/// What is known of a session that starts.
pub open spec fn is_started(
    s: RecordingSession,
    work_dir: Seq<char>,
    base_dir: Seq<char>,
    audio_enabled: bool,
    width: u32,
    height: u32,
    fps: u32,
    name: Option<Seq<char>>,
    nanos: u32,
) -> bool {
    &&& s.session_id@ == session_id_of(s.start_time.stamp@, name, nanos)
    &&& text_of(s.name) == name
    &&& s.directory@ == joined(joined(work_dir, base_dir), s.session_id@)
    &&& s.audio_enabled == audio_enabled
    &&& s.video_width == width
    &&& s.video_height == height
    &&& s.video_fps == fps
    &&& s.actual_frame_count is None
    &&& s.video_file_size is None
    &&& s.audio_file_size is None
}

/// What is written down about a session that ends at a moment.
pub open spec fn is_metadata(
    m: SessionMetadata,
    s: RecordingSession,
    status: Seq<char>,
    end: Moment,
) -> bool {
    &&& m.session_id@ == s.session_id@
    &&& text_of(m.name) == text_of(s.name)
    &&& m.status@ == status
    &&& m.directory@ == s.directory@
    &&& text_of(m.start_time) == Some(s.start_time.rfc3339@)
    &&& text_of(m.end_time) == Some(end.rfc3339@)
    &&& m.duration_ms matches Some(d)
    &&& d == clock::millis_between(s.start_time, end)
    &&& are_streams(m.streams@, status, s.audio_enabled)
    &&& m.video_width == Some(s.video_width)
    &&& m.video_height == Some(s.video_height)
    &&& m.video_fps == Some(s.video_fps)
    &&& m.audio_device is None
    &&& m.audio_enabled == s.audio_enabled
    &&& m.actual_frame_count == s.actual_frame_count
    &&& m.video_file_size == s.video_file_size
    &&& m.audio_file_size == s.audio_file_size
}

/// The directory of a session lies directly in the directory of all sessions,
/// whatever its name: its identifier is not empty and holds no slash.
pub proof fn law_session_is_one_directory(
    stamp: Seq<char>,
    name: Option<Seq<char>>,
    nanos: u32,
    base: Seq<char>,
)
    requires
        clock::is_stamp(stamp),
        name matches Some(n) ==> valid_name(n),
        base.len() > 0,
    ensures
        ({
            let id = session_id_of(stamp, name, nanos);
            &&& id.len() > 0
            &&& !id.contains('/')
            &&& joined(base, id) == (if base.last() == '/' {
                base
            } else {
                base.push('/')
            }) + id
        }),
{
    let id = session_id_of(stamp, name, nanos);
    let tail = match name {
        Some(n) => n,
        None => text::hex8(nanos as nat),
    };
    reveal_strlit("_");
    assert(id =~= stamp + "_"@ + tail);
    assert forall|i: int| 0 <= i < tail.len() implies tail[i] != '/' by {
        match name {
            Some(n) => {
                assert(name_char(n[i]));
            },
            None => {},
        }
    }
    assert forall|i: int| 0 <= i < id.len() implies id[i] != '/' by {
        if i < stamp.len() {
            assert(id[i] == stamp[i]);
        } else if i > stamp.len() {
            assert(id[i] == tail[i - stamp.len() - 1]);
        }
    }
    assert(id[0] == stamp[0]);
}

impl RecordingSession {
    /// A session that starts at a given moment. `nanos` tells nameless sessions
    /// of one second apart.
    pub fn starting_at(
        start_time: Moment,
        nanos: u32,
        work_dir: &str,
        base_dir: &str,
        audio_enabled: bool,
        width: u32,
        height: u32,
        fps: u32,
        name: Option<&str>,
    ) -> (s: RecordingSession)
        ensures
            s.start_time == start_time,
            is_started(
                s,
                work_dir@,
                base_dir@,
                audio_enabled,
                width,
                height,
                fps,
                given(name),
                nanos,
            ),
    {
        let session_id: String = make_session_id(start_time.stamp.as_str(), name, nanos);
        let base: String = join_path(work_dir, base_dir);
        let directory: String = join_path(base.as_str(), session_id.as_str());
        RecordingSession {
            session_id,
            name: match name {
                Some(n) => Some(n.to_owned()),
                None => None,
            },
            directory,
            start_time,
            audio_enabled,
            video_width: width,
            video_height: height,
            video_fps: fps,
            actual_frame_count: None,
            video_file_size: None,
            audio_file_size: None,
        }
    }

    /// A session that starts now. Its directory is still to be made.
    pub fn new(
        work_dir: &str,
        base_dir: &str,
        audio_enabled: bool,
        width: u32,
        height: u32,
        fps: u32,
        name: Option<&str>,
    ) -> (s: RecordingSession)
        ensures
            clock::is_stamp(s.start_time.stamp@),
            clock::is_rfc3339(s.start_time.rfc3339@),
            exists|nanos: u32|
                nanos < 2_000_000_000 && #[trigger] is_started(
                    s,
                    work_dir@,
                    base_dir@,
                    audio_enabled,
                    width,
                    height,
                    fps,
                    given(name),
                    nanos,
                ),
    {
        let now: Moment = clock::utc_now();
        let later: Moment = clock::utc_now();
        RecordingSession::starting_at(
            now,
            later.nanos,
            work_dir,
            base_dir,
            audio_enabled,
            width,
            height,
            fps,
            name,
        )
    }

    /// Where the picture is recorded.
    pub fn video_path(&self) -> (p: String)
        ensures
            p@ == joined(self.directory@, "video.h264"@),
    {
        join_path(self.directory.as_str(), "video.h264")
    }

    /// Where the sound is recorded.
    pub fn audio_path(&self) -> (p: String)
        ensures
            p@ == joined(self.directory@, "audio.flac"@),
    {
        join_path(self.directory.as_str(), "audio.flac")
    }

    /// Where the metadata is written.
    pub fn metadata_path(&self) -> (p: String)
        ensures
            p@ == joined(self.directory@, "session.json"@),
    {
        join_path(self.directory.as_str(), "session.json")
    }

    /// Where the time stamps of the frames are written.
    pub fn pts_path(&self) -> (p: String)
        ensures
            p@ == joined(self.directory@, "pts.csv"@),
    {
        join_path(self.directory.as_str(), "pts.csv")
    }

    /// What to write down about the session when it ends, or fails, at a given
    /// moment.
    pub fn metadata_at(&self, status: &str, end_time: &Moment) -> (m: SessionMetadata)
        ensures
            is_metadata(m, *self, status@, *end_time),
    {
        let mut streams: Vec<SessionStream> = Vec::new();
        streams.push(make_stream("video", "h264", "video.h264", status));
        if self.audio_enabled {
            streams.push(make_stream("audio", "flac", "audio.flac", status));
        }
        SessionMetadata {
            session_id: self.session_id.clone(),
            name: match &self.name {
                Some(n) => Some(n.clone()),
                None => None,
            },
            status: status.to_owned(),
            directory: self.directory.clone(),
            start_time: Some(self.start_time.rfc3339.clone()),
            end_time: Some(end_time.rfc3339.clone()),
            duration_ms: Some(clock::elapsed_millis(&self.start_time, end_time)),
            streams,
            video_width: Some(self.video_width),
            video_height: Some(self.video_height),
            video_fps: Some(self.video_fps),
            audio_device: None,
            audio_enabled: self.audio_enabled,
            actual_frame_count: self.actual_frame_count,
            video_file_size: self.video_file_size,
            audio_file_size: self.audio_file_size,
        }
    }

    /// What to write down about the session now.
    pub fn write_metadata(&self, status: &str) -> (m: SessionMetadata)
        ensures
            exists|end: Moment| #[trigger]
                is_metadata(m, *self, status@, end) && clock::is_rfc3339(end.rfc3339@)
                    && end.nanos < 2_000_000_000,
    {
        let end_time: Moment = clock::utc_now();
        self.metadata_at(status, &end_time)
    }

    /// Take note of how large the files became. The sound counts only where it
    /// was recorded.
    pub fn collect_file_sizes(&mut self, video: Option<u64>, audio: Option<u64>)
        ensures
            *final(self) == (RecordingSession {
                video_file_size: video,
                audio_file_size: if old(self).audio_enabled {
                    audio
                } else {
                    old(self).audio_file_size
                },
                ..*old(self)
            }),
    {
        self.video_file_size = video;
        if self.audio_enabled {
            self.audio_file_size = audio;
        }
    }
}

/// The rows of the time stamp table, each ended by a newline.
pub open spec fn pts_rows(entries: Seq<(u64, u64)>) -> Seq<char>
    decreases entries.len(),
{
    if entries.len() == 0 {
        Seq::empty()
    } else {
        pts_rows(entries.drop_last()) + text::decimal(entries.last().0 as nat) + seq![',']
            + text::decimal(entries.last().1 as nat) + seq!['\n']
    }
}

/// Write out the time stamps of the recorded frames.
pub fn write_pts_csv(pts_entries: &Vec<(u64, u64)>) -> (s: String)
    ensures
        s@ == "frame_index,pts_ns\n"@ + pts_rows(pts_entries@),
{
    let mut s: String = "frame_index,pts_ns\n".to_owned();
    let mut i: usize = 0;
    assert(pts_entries@.take(0) =~= Seq::empty());
    assert(s@ =~= "frame_index,pts_ns\n"@ + pts_rows(pts_entries@.take(0)));
    while i < pts_entries.len()
        invariant
            i <= pts_entries@.len(),
            s@ == "frame_index,pts_ns\n"@ + pts_rows(pts_entries@.take(i as int)),
        decreases pts_entries@.len() - i,
    {
        text::push_decimal(&mut s, pts_entries[i].0);
        s.push(',');
        text::push_decimal(&mut s, pts_entries[i].1);
        s.push('\n');
        proof {
            let t = pts_entries@.take(i + 1);
            assert(t.drop_last() =~= pts_entries@.take(i as int));
            assert(t.last() == pts_entries@[i as int]);
            assert(s@ =~= "frame_index,pts_ns\n"@ + pts_rows(t));
        }
        i = i + 1;
    }
    assert(pts_entries@.take(i as int) =~= pts_entries@);
    s
}

} // verus!
