//! Settings.
use crate::json;
use crate::json::Json;
use vstd::prelude::*;

verus! {

/// Which model is selected.
#[derive(Debug, Clone, PartialEq, Eq)]
pub struct MediaAiConfig {
    pub object_detection_model: Option<String>,
}

impl Default for MediaAiConfig {
    fn default() -> (c: MediaAiConfig)
        ensures
            c.object_detection_model is None,
    {
        MediaAiConfig { object_detection_model: None }
    }
}

/// The settings of the service.
#[derive(Debug, Clone, PartialEq, Eq)]
pub struct MediaConfig {
    pub width: u32,
    pub height: u32,
    pub fps: u32,
    pub bitrate_kbps: u32,
    pub recording_dir: String,
    pub audio_enabled: bool,
    /// Whether the stream carries the microphone.
    pub streaming_audio_enabled: bool,
    /// How long a stream may take to start, in seconds.
    pub streaming_flow_check_grace_s: u64,
    pub ai: MediaAiConfig,
}

impl Default for MediaConfig {
    fn default() -> (c: MediaConfig)
        ensures
            is_config(c, no_settings()),
    {
        MediaConfig {
            width: 1920,
            height: 1080,
            fps: 30,
            bitrate_kbps: 8192,
            recording_dir: "recordings".to_owned(),
            audio_enabled: true,
            streaming_audio_enabled: false,
            streaming_flow_check_grace_s: 10,
            ai: MediaAiConfig { object_detection_model: None },
        }
    }
}

/// The bitrate for a frame size: in proportion to the pixels, where the
/// configured one is for 1920 by 1080, and at least 512.
pub open spec fn scaled_kbps(kbps: u32, width: u32, height: u32) -> int {
    let scaled = (kbps * (width * height)) / 2_073_600;
    if scaled < 512 {
        512
    } else {
        scaled
    }
}

impl MediaConfig {
    /// The bitrate for the configured frame size, in the low 32 bits.
    pub fn scaled_bitrate(&self) -> (r: u32)
        ensures
            r == scaled_kbps(self.bitrate_kbps, self.width, self.height) % 0x1_0000_0000,
    {
        let (k, w, h): (u32, u32, u32) = (self.bitrate_kbps, self.width, self.height);
        assert(0 <= w * h <= 0xffff_ffff_ffff_ffff) by (nonlinear_arith)
            requires
                0 <= w <= u32::MAX,
                0 <= h <= u32::MAX,
        ;
        let pixels: u128 = (w as u128) * (h as u128);
        assert(0 <= k * pixels <= 0xffff_ffff_ffff_ffff_ffff_ffff) by (nonlinear_arith)
            requires
                0 <= k <= u32::MAX,
                0 <= pixels <= 0xffff_ffff_ffff_ffff,
        ;
        let scaled: u128 = ((k as u128) * pixels) / 2_073_600;
        let kept: u128 = if scaled < 512 {
            512
        } else {
            scaled
        };
        (kept % 0x1_0000_0000) as u32
    }
}

/// What a settings file sets.
#[derive(Debug, Clone)]
pub struct ConfigFields {
    pub width: Option<u64>,
    pub height: Option<u64>,
    pub fps: Option<u64>,
    pub directory: Option<String>,
    pub audio_enabled: Option<bool>,
    pub grace_s: Option<u64>,
    pub streaming_audio: Option<bool>,
    pub model: Option<String>,
}

/// What a settings file sets, as contracts speak of it.
pub struct Settings {
    pub width: Option<u64>,
    pub height: Option<u64>,
    pub fps: Option<u64>,
    pub directory: Option<Seq<char>>,
    pub audio_enabled: Option<bool>,
    pub grace_s: Option<u64>,
    pub streaming_audio: Option<bool>,
    pub model: Option<Seq<char>>,
}

impl View for ConfigFields {
    type V = Settings;

    open spec fn view(&self) -> Settings {
        Settings {
            width: self.width,
            height: self.height,
            fps: self.fps,
            directory: crate::session::text_of(self.directory),
            audio_enabled: self.audio_enabled,
            grace_s: self.grace_s,
            streaming_audio: self.streaming_audio,
            model: crate::session::text_of(self.model),
        }
    }
}

/// A file that sets nothing.
pub open spec fn no_settings() -> Settings {
    Settings {
        width: None,
        height: None,
        fps: None,
        directory: None,
        audio_enabled: None,
        grace_s: None,
        streaming_audio: None,
        model: None,
    }
}

/// A section of a section.
pub open spec fn section(tree: Json, outer: Seq<char>, inner: Seq<char>) -> Json {
    match tree.member(outer) {
        Some(v) => match v.member(inner) {
            Some(w) => w,
            None => Json::Null,
        },
        None => Json::Null,
    }
}

/// What a settings tree sets.
pub open spec fn settings_of(tree: Json) -> Settings {
    let camera = section(tree, "video"@, "camera"@);
    let recording = section(tree, "video"@, "recording"@);
    let streaming = section(tree, "video"@, "streaming"@);
    Settings {
        width: camera.unsigned_member("width"@),
        height: camera.unsigned_member("height"@),
        fps: camera.unsigned_member("fps"@),
        directory: recording.text_member("directory"@),
        audio_enabled: recording.boolean_member("audio_enabled"@),
        grace_s: streaming.unsigned_member("flow_check_grace_s"@),
        streaming_audio: streaming.boolean_member("audio_enabled"@),
        model: match tree.member("ai"@) {
            Some(v) => v.text_member("object_detection_model"@),
            None => None,
        },
    }
}

/// The low 32 bits of a number, or a default.
pub open spec fn low_or(v: Option<u64>, default: u32) -> u32 {
    match v {
        Some(n) => (n % 0x1_0000_0000) as u32,
        None => default,
    }
}

/// The settings that follow from what a file sets. The rest stays at its
/// default.
pub open spec fn is_config(c: MediaConfig, s: Settings) -> bool {
    &&& c.width == low_or(s.width, 1920)
    &&& c.height == low_or(s.height, 1080)
    &&& c.fps == low_or(s.fps, 30)
    &&& c.bitrate_kbps == 8192
    &&& c.recording_dir@ == (match s.directory {
        Some(d) => d,
        None => "recordings"@,
    })
    &&& c.audio_enabled == (match s.audio_enabled {
        Some(b) => b,
        None => true,
    })
    &&& c.streaming_audio_enabled == (match s.streaming_audio {
        Some(b) => b,
        None => false,
    })
    &&& c.streaming_flow_check_grace_s == (match s.grace_s {
        Some(n) => n,
        None => 10,
    })
    &&& crate::session::text_of(c.ai.object_detection_model) == s.model
}

fn low(n: u64) -> (r: u32)
    ensures
        r == (n % 0x1_0000_0000) as u32,
{
    (n % 0x1_0000_0000) as u32
}

/// Apply what a file sets to the defaults.
pub fn config_from_fields(f: ConfigFields) -> (c: MediaConfig)
    ensures
        is_config(c, f@),
{
    let mut c: MediaConfig = MediaConfig::default();
    match f.width {
        Some(n) => {
            c.width = low(n);
        },
        None => {},
    }
    match f.height {
        Some(n) => {
            c.height = low(n);
        },
        None => {},
    }
    match f.fps {
        Some(n) => {
            c.fps = low(n);
        },
        None => {},
    }
    match f.directory {
        Some(d) => {
            c.recording_dir = d;
        },
        None => {},
    }
    match f.audio_enabled {
        Some(b) => {
            c.audio_enabled = b;
        },
        None => {},
    }
    match f.grace_s {
        Some(n) => {
            c.streaming_flow_check_grace_s = n;
        },
        None => {},
    }
    match f.streaming_audio {
        Some(b) => {
            c.streaming_audio_enabled = b;
        },
        None => {},
    }
    c.ai = MediaAiConfig { object_detection_model: f.model };
    c
}

fn read_fields(tree: &serde_json::Value) -> (f: ConfigFields)
    ensures
        f@ == settings_of(json::json_of(*tree)),
{
    let mut f: ConfigFields = ConfigFields {
        width: None,
        height: None,
        fps: None,
        directory: None,
        audio_enabled: None,
        grace_s: None,
        streaming_audio: None,
        model: None,
    };
    match json::field(tree, "video") {
        Some(video) => {
            match json::field(video, "camera") {
                Some(camera) => {
                    f.width = json::u64_field(camera, "width");
                    f.height = json::u64_field(camera, "height");
                    f.fps = json::u64_field(camera, "fps");
                },
                None => {},
            }
            match json::field(video, "recording") {
                Some(recording) => {
                    f.directory = json::string_field(recording, "directory");
                    f.audio_enabled = json::bool_field(recording, "audio_enabled");
                },
                None => {},
            }
            match json::field(video, "streaming") {
                Some(streaming) => {
                    f.grace_s = json::u64_field(streaming, "flow_check_grace_s");
                    f.streaming_audio = json::bool_field(streaming, "audio_enabled");
                },
                None => {},
            }
        },
        None => {},
    }
    match json::field(tree, "ai") {
        Some(ai) => {
            f.model = json::string_field(ai, "object_detection_model");
        },
        None => {},
    }
    f
}

/// The settings that a file's text stands for. A file that is missing or
/// cannot be parsed leaves the defaults.
pub fn load_config(content: Option<&str>) -> (c: MediaConfig)
    ensures
        is_config(
            c,
            match content {
                Some(text) => match json::yaml_text(text@) {
                    Some(tree) => settings_of(tree),
                    None => no_settings(),
                },
                None => no_settings(),
            },
        ),
{
    match content {
        Some(text) => match json::parse_yaml(text) {
            Some(tree) => config_from_fields(read_fields(&tree)),
            None => MediaConfig::default(),
        },
        None => MediaConfig::default(),
    }
}

/// A frame of the reference size gets the configured bitrate, if that is at
/// least 512, and a smaller frame gets no more than a larger one.
pub proof fn law_bitrate_scales(kbps: u32, w1: u32, h1: u32, w2: u32, h2: u32)
    requires
        w1 <= w2,
        h1 <= h2,
    ensures
        kbps >= 512 ==> scaled_kbps(kbps, 1920, 1080) == kbps,
        scaled_kbps(kbps, w1, h1) <= scaled_kbps(kbps, w2, h2),
        scaled_kbps(kbps, w1, h1) >= 512,
{
    assert(w1 * h1 <= w2 * h2) by (nonlinear_arith)
        requires
            0 <= w1 <= w2,
            0 <= h1 <= h2,
    ;
    let (a, b) = (w1 * h1, w2 * h2);
    assert(kbps * a <= kbps * b) by (nonlinear_arith)
        requires
            0 <= kbps,
            a <= b,
    ;
    assert(kbps * (1920 * 1080) == kbps * 2_073_600);
}

} // verus!
