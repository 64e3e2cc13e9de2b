//! Settings: their defaults, their safe ranges, and the part that the interface may change.

use vstd::prelude::*;

use crate::paths::{absolute, is_absolute};
use crate::platform::Platform;
use crate::text::{chars_of, count_span, is_white_space, lemma_span, Class};

verus! {

/// The settings of the recorder.
#[derive(Debug, PartialEq, Eq)]
pub struct Config {
    /// Whether recording starts by itself when a voice session begins.
    pub enabled: bool,
    /// Where recordings are written.
    pub output_dir: String,
    pub video: bool,
    pub video_bitrate_kbps: u32,
    pub audio_bitrate_kbps: u32,
    /// Frames per second of a direct window capture.
    pub framerate: u32,
    /// Seconds without voice before a recording stops (a short reconnection does not cut it).
    pub stop_debounce_s: u32,
    /// The microphone to record, by its identifier; `None` is the system default.
    pub mic_target: Option<String>,
    /// `true`: microphone and Discord in one track; `false`: a track each.
    pub mix_audio: bool,
    /// Whether the noise of the microphone is reduced.
    pub mic_denoise: bool,
    /// Whether a new recording replaces the earlier ones.
    pub keep_only_last: bool,
    /// Whether a finished recording is also written as MP4.
    pub auto_mp4: bool,
    /// Days that a recording is kept; 0 keeps it for ever.
    pub retention_days: u32,
    /// Gigabytes that the recordings may take up; 0 sets no limit.
    pub retention_max_gb: u32,
    /// Seconds that a live clip goes on after it was asked for.
    pub clip_after_s: u32,
    /// Token of the Wayland portal, with which the chosen window is found again.
    pub restore_token: Option<String>,
}

impl Clone for Config {
    fn clone(&self) -> (r: Config)
        ensures
            r == *self,
    {
        Config {
            enabled: self.enabled,
            output_dir: self.output_dir.clone(),
            video: self.video,
            video_bitrate_kbps: self.video_bitrate_kbps,
            audio_bitrate_kbps: self.audio_bitrate_kbps,
            framerate: self.framerate,
            stop_debounce_s: self.stop_debounce_s,
            mic_target: self.mic_target.clone(),
            mix_audio: self.mix_audio,
            mic_denoise: self.mic_denoise,
            keep_only_last: self.keep_only_last,
            auto_mp4: self.auto_mp4,
            retention_days: self.retention_days,
            retention_max_gb: self.retention_max_gb,
            clip_after_s: self.clip_after_s,
            restore_token: self.restore_token.clone(),
        }
    }
}

/// `v` moved into the range from `lo` to `hi`.
pub open spec fn clamped(v: u32, lo: u32, hi: u32) -> u32 {
    if v < lo {
        lo
    } else if v > hi {
        hi
    } else {
        v
    }
}

/// Moves `v` into the range from `lo` to `hi`.
pub fn clamp(v: u32, lo: u32, hi: u32) -> (r: u32)
    ensures
        r == clamped(v, lo, hi),
{
    if v < lo {
        lo
    } else if v > hi {
        hi
    } else {
        v
    }
}

/// Whether a text holds nothing but white space.
pub open spec fn blank(s: Seq<char>) -> bool {
    forall|i: int| 0 <= i < s.len() ==> is_white_space(#[trigger] s[i])
}

/// Tests whether a text holds nothing but white space.
pub fn is_blank(s: &[char]) -> (r: bool)
    ensures
        r == blank(s@),
{
    let n: usize = count_span(s, Class::Space);
    proof {
        lemma_span(s@, Class::Space);
        assert(Class::Space.has(s@[n as int]) == is_white_space(s@[n as int]));
        assert forall|i: int| 0 <= i < n implies is_white_space(#[trigger] s@[i]) by {
            assert(Class::Space.has(s@[i]));
        }
    }
    n == s.len()
}

/// A choice of microphone, where a blank one is no choice.
pub open spec fn meaningful(mic: Option<String>) -> Option<String> {
    match mic {
        Some(m) => if blank(m@) {
            None
        } else {
            Some(m)
        },
        None => None,
    }
}

impl Config {
    /// The settings with every value moved into its safe range.
    pub open spec fn sanitized(self) -> Config {
        Config {
            video_bitrate_kbps: clamped(self.video_bitrate_kbps, 500, 20_000),
            audio_bitrate_kbps: clamped(self.audio_bitrate_kbps, 32, 510),
            framerate: clamped(self.framerate, 5, 60),
            stop_debounce_s: clamped(self.stop_debounce_s, 1, 120),
            mic_target: meaningful(self.mic_target),
            ..self
        }
    }

    /// Whether every value is in its safe range.
    pub open spec fn sane(self) -> bool {
        &&& 500 <= self.video_bitrate_kbps <= 20_000
        &&& 32 <= self.audio_bitrate_kbps <= 510
        &&& 5 <= self.framerate <= 60
        &&& 1 <= self.stop_debounce_s <= 120
        &&& self.mic_target matches Some(m) ==> !blank(m@)
    }

    /// The settings of a fresh installation that records into `output_dir`.
    pub open spec fn fresh(output_dir: String) -> Config {
        Config {
            enabled: true,
            output_dir,
            video: true,
            video_bitrate_kbps: 8000,
            audio_bitrate_kbps: 128,
            framerate: 30,
            stop_debounce_s: 3,
            mic_target: None,
            mix_audio: true,
            mic_denoise: false,
            keep_only_last: false,
            auto_mp4: false,
            retention_days: 0,
            retention_max_gb: 0,
            clip_after_s: 0,
            restore_token: None,
        }
    }

    /// Makes the settings of a fresh installation that records into `output_dir`.
    pub fn with_output_dir(output_dir: String) -> (r: Config)
        ensures
            r == Config::fresh(output_dir),
    {
        Config {
            enabled: true,
            output_dir,
            video: true,
            video_bitrate_kbps: 8000,
            audio_bitrate_kbps: 128,
            framerate: 30,
            stop_debounce_s: 3,
            mic_target: None,
            mix_audio: true,
            mic_denoise: false,
            keep_only_last: false,
            auto_mp4: false,
            retention_days: 0,
            retention_max_gb: 0,
            clip_after_s: 0,
            restore_token: None,
        }
    }

    /// Takes over the settings that were saved, moved into safe ranges; without readable ones
    /// those of a fresh installation that records into `output_dir`.
    pub fn load(saved: Option<Config>, output_dir: String) -> (r: Config)
        ensures
            r == match saved {
                Some(cfg) => cfg.sanitized(),
                None => Config::fresh(output_dir),
            },
            r.sane(),
    {
        let mut cfg = match saved {
            Some(cfg) => cfg,
            None => Config::with_output_dir(output_dir),
        };
        cfg.sanitize();
        cfg
    }

    /// Moves the values that the user entered into safe ranges.
    pub fn sanitize(&mut self)
        ensures
            *final(self) == old(self).sanitized(),
    {
        self.video_bitrate_kbps = clamp(self.video_bitrate_kbps, 500, 20_000);
        self.audio_bitrate_kbps = clamp(self.audio_bitrate_kbps, 32, 510);
        self.framerate = clamp(self.framerate, 5, 60);
        self.stop_debounce_s = clamp(self.stop_debounce_s, 1, 120);
        let empty = match &self.mic_target {
            Some(m) => is_blank(chars_of(m.as_str()).as_slice()),
            None => false,
        };
        if empty {
            self.mic_target = None;
        }
    }
}

impl Default for Config {
    /// The settings of a fresh installation where neither a video directory nor a home is known.
    fn default() -> (r: Config)
        ensures
            r == Config::fresh(r.output_dir),
            r.output_dir@ == "./discord-rec"@,
    {
        Config::with_output_dir("./discord-rec".to_owned())
    }
}

/// The first of two directories that is known, or the current one.
pub open spec fn first_known(videos: Option<String>, home_videos: Option<String>) -> Seq<char> {
    match (videos, home_videos) {
        (Some(dir), _) => dir@,
        (None, Some(dir)) => dir@,
        (None, None) => "."@,
    }
}

/// Chooses the directory under which recordings go by default: the user's video directory, else
/// the one in the home directory, else the current directory.
pub fn default_videos_dir(videos: Option<String>, home_videos: Option<String>) -> (r: String)
    ensures
        r@ == first_known(videos, home_videos),
{
    match videos {
        Some(dir) => dir,
        None => match home_videos {
            Some(dir) => dir,
            None => ".".to_owned(),
        },
    }
}

/// The part of the settings that the interface shows and changes; the portal token stays inside.
#[derive(Debug, PartialEq, Eq)]
pub struct UiConfig {
    pub output_dir: String,
    pub video: bool,
    pub video_bitrate_kbps: u32,
    pub audio_bitrate_kbps: u32,
    pub framerate: u32,
    pub stop_debounce_s: u32,
    pub mic_target: Option<String>,
    pub mix_audio: bool,
    pub mic_denoise: bool,
    pub keep_only_last: bool,
    pub auto_mp4: bool,
    pub retention_days: u32,
    pub retention_max_gb: u32,
    pub clip_after_s: u32,
}

/// Why new settings are refused.
#[derive(Clone, Copy, Debug, PartialEq, Eq, Structural)]
pub enum ConfigError {
    /// The output directory is not an absolute path.
    RelativeOutputDir,
}

impl ConfigError {
    /// The text of the error.
    pub open spec fn text(self) -> Seq<char> {
        "le dossier de sortie doit être un chemin absolu"@
    }

    /// Gives the text of the error.
    pub fn message(self) -> (r: &'static str)
        ensures
            r@ == self.text(),
    {
        "le dossier de sortie doit être un chemin absolu"
    }
}

impl Config {
    /// The part of the settings that the interface sees.
    pub open spec fn ui_part(self) -> UiConfig {
        UiConfig {
            output_dir: self.output_dir,
            video: self.video,
            video_bitrate_kbps: self.video_bitrate_kbps,
            audio_bitrate_kbps: self.audio_bitrate_kbps,
            framerate: self.framerate,
            stop_debounce_s: self.stop_debounce_s,
            mic_target: self.mic_target,
            mix_audio: self.mix_audio,
            mic_denoise: self.mic_denoise,
            keep_only_last: self.keep_only_last,
            auto_mp4: self.auto_mp4,
            retention_days: self.retention_days,
            retention_max_gb: self.retention_max_gb,
            clip_after_s: self.clip_after_s,
        }
    }

    /// The settings with the part that the interface sees replaced.
    pub open spec fn with_ui_part(self, ui: UiConfig) -> Config {
        Config {
            enabled: self.enabled,
            output_dir: ui.output_dir,
            video: ui.video,
            video_bitrate_kbps: ui.video_bitrate_kbps,
            audio_bitrate_kbps: ui.audio_bitrate_kbps,
            framerate: ui.framerate,
            stop_debounce_s: ui.stop_debounce_s,
            mic_target: ui.mic_target,
            mix_audio: ui.mix_audio,
            mic_denoise: ui.mic_denoise,
            keep_only_last: ui.keep_only_last,
            auto_mp4: ui.auto_mp4,
            retention_days: ui.retention_days,
            retention_max_gb: ui.retention_max_gb,
            clip_after_s: ui.clip_after_s,
            restore_token: self.restore_token,
        }
    }

    /// Shows the part of the settings that the interface sees.
    pub fn get_config(&self) -> (r: UiConfig)
        ensures
            r == self.ui_part(),
    {
        UiConfig {
            output_dir: self.output_dir.clone(),
            video: self.video,
            video_bitrate_kbps: self.video_bitrate_kbps,
            audio_bitrate_kbps: self.audio_bitrate_kbps,
            framerate: self.framerate,
            stop_debounce_s: self.stop_debounce_s,
            mic_target: self.mic_target.clone(),
            mix_audio: self.mix_audio,
            mic_denoise: self.mic_denoise,
            keep_only_last: self.keep_only_last,
            auto_mp4: self.auto_mp4,
            retention_days: self.retention_days,
            retention_max_gb: self.retention_max_gb,
            clip_after_s: self.clip_after_s,
        }
    }

    /// Takes over what the interface entered, moved into safe ranges. An output directory that is
    /// no absolute path on the platform is refused, and the settings stay as they were.
    pub fn set_config(&mut self, platform: Platform, ui: UiConfig) -> (r: Result<(), ConfigError>)
        ensures
            r is Ok <==> absolute(ui.output_dir@, platform),
            r matches Err(e) ==> e == ConfigError::RelativeOutputDir && *final(self) == *old(self),
            r is Ok ==> *final(self) == old(self).with_ui_part(ui).sanitized(),
    {
        if !is_absolute(platform, ui.output_dir.as_str()) {
            return Err(ConfigError::RelativeOutputDir);
        }
        self.output_dir = ui.output_dir;
        self.video = ui.video;
        self.video_bitrate_kbps = ui.video_bitrate_kbps;
        self.audio_bitrate_kbps = ui.audio_bitrate_kbps;
        self.framerate = ui.framerate;
        self.stop_debounce_s = ui.stop_debounce_s;
        self.mic_target = ui.mic_target;
        self.mix_audio = ui.mix_audio;
        self.mic_denoise = ui.mic_denoise;
        self.keep_only_last = ui.keep_only_last;
        self.auto_mp4 = ui.auto_mp4;
        self.retention_days = ui.retention_days;
        self.retention_max_gb = ui.retention_max_gb;
        self.clip_after_s = ui.clip_after_s;
        self.sanitize();
        Ok(())
    }

    /// Forgets the remembered window: the next recording asks again which one to capture.
    pub fn reset_window_token(&mut self)
        ensures
            *final(self) == (Config { restore_token: None, ..*old(self) }),
    {
        self.restore_token = None;
    }
}

/// Sanitized settings are in their safe ranges.
pub proof fn law_sanitized_is_sane(c: Config)
    ensures
        c.sanitized().sane(),
{
}

/// Settings that are in their safe ranges are left as they are; so sanitizing twice is sanitizing
/// once.
pub proof fn law_sane_is_left_alone(c: Config)
    ensures
        c.sane() ==> c.sanitized() == c,
        c.sanitized().sanitized() == c.sanitized(),
{
}

/// The defaults are already sane, wherever the recordings go.
pub proof fn law_defaults_are_sane(output_dir: String)
    ensures
        Config::fresh(output_dir).sane(),
        Config::fresh(output_dir).sanitized() == Config::fresh(output_dir),
{
}

/// What the interface reads and hands back unchanged leaves sane settings as they are.
pub proof fn law_ui_round_trip(c: Config)
    requires
        c.sane(),
    ensures
        c.with_ui_part(c.ui_part()).sanitized() == c,
{
}

/// The interface never touches the portal token nor the automatic mode.
pub proof fn law_ui_keeps_token(c: Config, ui: UiConfig)
    ensures
        c.with_ui_part(ui).sanitized().restore_token == c.restore_token,
        c.with_ui_part(ui).sanitized().enabled == c.enabled,
{
}

/// A value outside its safe range becomes the nearest value inside it, one inside stays; all else
/// stays too, but for a blank microphone, which is none.
pub proof fn law_sanitized_is_nearest(c: Config)
    ensures
        ({
            let s = c.sanitized();
            &&& s.video_bitrate_kbps == if c.video_bitrate_kbps < 500 {
                500
            } else if c.video_bitrate_kbps > 20_000 {
                20_000
            } else {
                c.video_bitrate_kbps as int
            }
            &&& s.audio_bitrate_kbps == if c.audio_bitrate_kbps < 32 {
                32
            } else if c.audio_bitrate_kbps > 510 {
                510
            } else {
                c.audio_bitrate_kbps as int
            }
            &&& s.framerate == if c.framerate < 5 {
                5
            } else if c.framerate > 60 {
                60
            } else {
                c.framerate as int
            }
            &&& s.stop_debounce_s == if c.stop_debounce_s < 1 {
                1
            } else if c.stop_debounce_s > 120 {
                120
            } else {
                c.stop_debounce_s as int
            }
            &&& s.mic_target == match c.mic_target {
                Some(m) if forall|i: int| 0 <= i < m@.len() ==> is_white_space(#[trigger] m@[i]) =>
                    None,
                other => other,
            }
            &&& s == (Config {
                video_bitrate_kbps: s.video_bitrate_kbps,
                audio_bitrate_kbps: s.audio_bitrate_kbps,
                framerate: s.framerate,
                stop_debounce_s: s.stop_debounce_s,
                mic_target: s.mic_target,
                ..c
            })
        }),
{
}

/// Everything that the interface enters is taken over, and everything that it shows is what is
/// set: what was entered and needs no change is shown again.
pub proof fn law_interface_sets_what_it_shows(c: Config, ui: UiConfig)
    ensures
        c.with_ui_part(ui).ui_part() == ui,
        ({
            let set = c.with_ui_part(ui);
            &&& set.output_dir == ui.output_dir
            &&& set.video == ui.video
            &&& set.video_bitrate_kbps == ui.video_bitrate_kbps
            &&& set.audio_bitrate_kbps == ui.audio_bitrate_kbps
            &&& set.framerate == ui.framerate
            &&& set.stop_debounce_s == ui.stop_debounce_s
            &&& set.mic_target == ui.mic_target
            &&& set.mix_audio == ui.mix_audio
            &&& set.mic_denoise == ui.mic_denoise
            &&& set.keep_only_last == ui.keep_only_last
            &&& set.auto_mp4 == ui.auto_mp4
            &&& set.retention_days == ui.retention_days
            &&& set.retention_max_gb == ui.retention_max_gb
            &&& set.clip_after_s == ui.clip_after_s
        }),
{
}

/// A fresh installation records by itself, with the picture, the sound in one track, and keeps
/// everything: nothing is removed, replaced, converted or filtered unasked.
pub proof fn law_fresh_settings(output_dir: String)
    ensures
        ({
            let c = Config::fresh(output_dir);
            &&& c.output_dir == output_dir
            &&& c.enabled && c.video && c.mix_audio
            &&& c.video_bitrate_kbps == 8000
            &&& c.audio_bitrate_kbps == 128
            &&& c.framerate == 30
            &&& c.stop_debounce_s == 3
            &&& c.mic_target is None && c.restore_token is None
            &&& !c.mic_denoise && !c.keep_only_last && !c.auto_mp4
            &&& c.retention_days == 0 && c.retention_max_gb == 0 && c.clip_after_s == 0
        }),
{
}

/// The user's own video directory comes first, the one in the home directory only where it is not
/// known.
pub proof fn law_known_directory_is_used(dir: String, other: Option<String>)
    ensures
        first_known(Some(dir), other) == dir@,
        first_known(None, Some(dir)) == dir@,
        first_known(None, None) == "."@,
{
}

/// Settings are sane where every value is in its range and the microphone, if there is one, is
/// named by more than white space.
pub proof fn law_sane_settings(c: Config)
    ensures
        c.sane() <==> {
            &&& 500 <= c.video_bitrate_kbps <= 20_000
            &&& 32 <= c.audio_bitrate_kbps <= 510
            &&& 5 <= c.framerate <= 60
            &&& 1 <= c.stop_debounce_s <= 120
            &&& c.mic_target matches Some(m) ==> exists|i: int|
                0 <= i < m@.len() && !is_white_space(#[trigger] m@[i])
        },
{
}

} // verus!
