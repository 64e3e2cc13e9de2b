//! The watch over Discord's voice state: what is recorded and when, and what the interface is told.
//!
//! Once a second the voice state is read and one step is taken: a recording begins when a voice
//! session does, and ends, with some delay, when it does.

use vstd::prelude::*;

use crate::config::Config;
use crate::encoder::VideoEncoder;
use crate::naming::{is_stamp, new_recording_name, recording_at};
use crate::paths::{base_name, file_name_on, find_file_name_on, name_or_self};
use crate::platform::Platform;
use crate::portal::Granted;
use crate::recorder::{recording_tokens, RecordError, Recording, VideoSpec};
use crate::text::{concat2, concat3};
use crate::tokens::views;
use crate::voice::Snapshot;
use crate::win::WinWindow;
use crate::x11::DiscordWindow;

verus! {

/// Steps without a new attempt after a recording failed: time for the cause to go away.
pub const RETRY_COOLDOWN_TICKS: u32 = 10;

/// The text of a string that may be missing.
pub open spec fn opt_text(s: Option<String>) -> Option<Seq<char>> {
    match s {
        Some(s) => Some(s@),
        None => None,
    }
}

/// What the interface is told.
pub struct Status {
    /// Whether recording starts by itself.
    pub enabled: bool,
    pub in_voice: bool,
    pub recording: bool,
    /// Whether the user asked for a recording, in a voice session or not.
    pub forced: bool,
    pub video_active: bool,
    pub encoder: Option<String>,
    pub file: Option<String>,
    pub started_at_ms: Option<u64>,
    pub last_error: Option<String>,
    pub output_dir: String,
}

/// The mathematical reading of a status.
pub struct StatusView {
    pub enabled: bool,
    pub in_voice: bool,
    pub recording: bool,
    pub forced: bool,
    pub video_active: bool,
    pub encoder: Option<Seq<char>>,
    pub file: Option<Seq<char>>,
    pub started_at_ms: Option<u64>,
    pub last_error: Option<Seq<char>>,
    pub output_dir: Seq<char>,
}

impl View for Status {
    type V = StatusView;

    open spec fn view(&self) -> StatusView {
        StatusView {
            enabled: self.enabled,
            in_voice: self.in_voice,
            recording: self.recording,
            forced: self.forced,
            video_active: self.video_active,
            encoder: opt_text(self.encoder),
            file: opt_text(self.file),
            started_at_ms: self.started_at_ms,
            last_error: opt_text(self.last_error),
            output_dir: self.output_dir@,
        }
    }
}

impl Clone for Status {
    fn clone(&self) -> (r: Self)
        ensures
            r@ == self@,
    {
        Status {
            enabled: self.enabled,
            in_voice: self.in_voice,
            recording: self.recording,
            forced: self.forced,
            video_active: self.video_active,
            encoder: self.encoder.clone(),
            file: self.file.clone(),
            started_at_ms: self.started_at_ms,
            last_error: self.last_error.clone(),
            output_dir: self.output_dir.clone(),
        }
    }
}

impl StatusView {
    /// What is told before anything is known.
    pub open spec fn nothing_known() -> StatusView {
        StatusView {
            enabled: false,
            in_voice: false,
            recording: false,
            forced: false,
            video_active: false,
            encoder: None,
            file: None,
            started_at_ms: None,
            last_error: None,
            output_dir: seq![],
        }
    }
}

impl Default for Status {
    fn default() -> (r: Self)
        ensures
            r@ == StatusView::nothing_known(),
    {
        let r = Status {
            enabled: false,
            in_voice: false,
            recording: false,
            forced: false,
            video_active: false,
            encoder: None,
            file: None,
            started_at_ms: None,
            last_error: None,
            output_dir: String::new(),
        };
        assert(r.output_dir@ =~= seq![]);
        r
    }
}

/// What the watch and the interface share.
pub struct Shared {
    pub config: Config,
    pub status: Status,
    /// Whether recording starts by itself.
    pub enabled: bool,
    /// Whether the user asked for a recording; forgotten at the next start of the application.
    pub force: bool,
    /// Whether the application is to end.
    pub quit: bool,
}

/// The voice state, and what is being recorded, as a status.
pub open spec fn published(
    before: StatusView,
    enabled: bool,
    force: bool,
    output_dir: Seq<char>,
    snap: Snapshot,
    rec: Option<Recording>,
) -> StatusView {
    StatusView {
        enabled,
        in_voice: snap.in_voice,
        recording: rec is Some,
        forced: force,
        video_active: rec is Some && (rec->0).has_video,
        encoder: if rec is Some && (rec->0).has_video {
            Some((rec->0).encoder.label_text())
        } else {
            None
        },
        file: match rec {
            Some(r) => Some(r.file@),
            None => None,
        },
        started_at_ms: match rec {
            Some(r) => Some(r.started_at_ms),
            None => None,
        },
        last_error: before.last_error,
        output_dir,
    }
}

impl Shared {
    /// Starts from the settings; nothing is recorded or asked for yet.
    pub fn new(config: Config) -> (r: Self)
        ensures
            r.config == config,
            r.status@ == StatusView::nothing_known(),
            r.enabled == config.enabled,
            r.force == false,
            r.quit == false,
    {
        let enabled = config.enabled;
        Shared { config, status: Status::default(), enabled, force: false, quit: false }
    }

    /// A copy of the settings.
    pub fn config_snapshot(&self) -> (r: Config)
        ensures
            r == self.config,
    {
        self.config.clone()
    }

    /// Whether `after` differs in nothing but the last error, which is `msg`.
    pub open spec fn only_error(self, after: Shared, msg: Option<Seq<char>>) -> bool {
        &&& after.config == self.config
        &&& after.enabled == self.enabled
        &&& after.force == self.force
        &&& after.quit == self.quit
        &&& after.status@ == (StatusView { last_error: msg, ..self.status@ })
    }

    /// Remembers the last error, or that there is none.
    pub fn set_error(&mut self, msg: Option<String>)
        ensures
            old(self).only_error(*final(self), opt_text(msg)),
    {
        self.status.last_error = msg;
    }

    /// Brings the status up to date and hands out a copy.
    pub fn publish(&mut self, snap: &Snapshot, rec: Option<&Recording>) -> (r: Status)
        ensures
            final(self).config == old(self).config,
            final(self).enabled == old(self).enabled,
            final(self).force == old(self).force,
            final(self).quit == old(self).quit,
            final(self).status@ == published(
                old(self).status@,
                old(self).enabled,
                old(self).force,
                old(self).config.output_dir@,
                *snap,
                match rec {
                    Some(r) => Some(*r),
                    None => None,
                },
            ),
            r@ == final(self).status@,
    {
        self.status.enabled = self.enabled;
        self.status.forced = self.force;
        self.status.in_voice = snap.in_voice;
        match rec {
            Some(r) => {
                self.status.recording = true;
                self.status.video_active = r.has_video;
                self.status.encoder = if r.has_video {
                    Some(r.encoder.label().to_owned())
                } else {
                    None
                };
                self.status.file = Some(r.file.clone());
                self.status.started_at_ms = Some(r.started_at_ms);
            },
            None => {
                self.status.recording = false;
                self.status.video_active = false;
                self.status.encoder = None;
                self.status.file = None;
                self.status.started_at_ms = None;
            },
        }
        self.status.output_dir = self.config.output_dir.clone();
        self.status.clone()
    }

    /// The status with the automatic mode as it is now, even before the first step.
    pub fn get_status(&self) -> (r: Status)
        ensures
            r@ == (StatusView { enabled: self.enabled, ..self.status@ }),
    {
        let mut r = self.status.clone();
        r.enabled = self.enabled;
        r
    }

    /// Switches the automatic mode, in the settings too, so that it outlives the application.
    pub fn set_enabled(&mut self, enabled: bool)
        ensures
            final(self).enabled == enabled,
            final(self).config == (Config { enabled, ..old(self).config }),
            final(self).force == old(self).force,
            final(self).quit == old(self).quit,
            final(self).status == old(self).status,
    {
        self.enabled = enabled;
        self.config.enabled = enabled;
    }

    /// Asks for a recording, in a voice session or not, or no longer does.
    pub fn set_force_recording(&mut self, on: bool)
        ensures
            *final(self) == (Shared { force: on, ..*old(self) }),
    {
        self.force = on;
    }

    /// Asks the application to end.
    pub fn quit_app(&mut self)
        ensures
            *final(self) == (Shared { quit: true, ..*old(self) }),
    {
        self.quit = true;
    }
}

/// A time since the epoch in milliseconds, in 64 bits at most; 0 before the epoch.
pub open spec fn epoch_ms(since_epoch: Option<u128>) -> u64 {
    match since_epoch {
        Some(ms) => if ms <= u64::MAX {
            ms as u64
        } else {
            u64::MAX
        },
        None => 0,
    }
}

/// Fits a time since the epoch, in milliseconds, into 64 bits; `None` is a time before it.
pub fn unix_ms(since_epoch: Option<u128>) -> (r: u64)
    ensures
        r == epoch_ms(since_epoch),
{
    match since_epoch {
        Some(ms) => if ms <= u64::MAX as u128 {
            ms as u64
        } else {
            u64::MAX
        },
        None => 0,
    }
}

/// The time since the epoch in milliseconds; `None` before the epoch, or where it does not fit.
pub fn now_unix_ms(since_epoch: Option<u128>) -> (r: Option<u64>)
    ensures
        r == match since_epoch {
            Some(ms) => if ms <= u64::MAX {
                Some(ms as u64)
            } else {
                None
            },
            None => None,
        },
{
    match since_epoch {
        Some(ms) => if ms <= u64::MAX as u128 {
            Some(ms as u64)
        } else {
            None
        },
        None => None,
    }
}

/// The picture of an X11 window.
pub open spec fn x11_picture(window: DiscordWindow, cfg: Config) -> VideoSpec {
    VideoSpec::X11Window {
        xid: window.xid,
        framerate: cfg.framerate,
        width: window.width,
        height: window.height,
    }
}

/// The picture of a window on Windows.
pub open spec fn win_picture(window: WinWindow, cfg: Config) -> VideoSpec {
    VideoSpec::WinWindow {
        hwnd: window.hwnd,
        framerate: cfg.framerate,
        width: window.width,
        height: window.height,
    }
}

/// Takes the picture from the X11 window of Discord, if one was found: no portal is needed then.
/// A failed search is noted.
pub fn choose_x11(
    shared: &mut Shared,
    cfg: &Config,
    found: Result<Option<DiscordWindow>, String>,
) -> (r: Option<VideoSpec>)
    ensures
        match found {
            Ok(Some(window)) => r == Some(x11_picture(window, *cfg)) && old(shared).only_error(
                *final(shared),
                None,
            ),
            Ok(None) => r is None && *final(shared) == *old(shared),
            Err(e) => r is None && old(shared).only_error(
                *final(shared),
                Some("recherche fenêtre X11 : "@ + e@),
            ),
        },
{
    match found {
        Ok(Some(window)) => {
            shared.set_error(None);
            Some(
                VideoSpec::X11Window {
                    xid: window.xid,
                    framerate: cfg.framerate,
                    width: window.width,
                    height: window.height,
                },
            )
        },
        Ok(None) => None,
        Err(e) => {
            shared.set_error(Some(concat2("recherche fenêtre X11 : ", e.as_str())));
            None
        },
    }
}

fn same_token(a: &Option<String>, b: &Option<String>) -> (r: bool)
    ensures
        r == (opt_text(*a) == opt_text(*b)),
{
    match (a, b) {
        (Some(x), Some(y)) => crate::scan::same_str(x.as_str(), y.as_str()),
        (None, None) => true,
        _ => false,
    }
}

/// What was made of the portal's answer.
pub struct PortalChoice {
    pub picture: Option<VideoSpec>,
    /// Whether the settings hold a new token and are to be saved.
    pub save: bool,
}

/// Takes the picture from the Wayland portal, if it granted a stream, and remembers the token it
/// gave. Where it refused, only the sound is recorded rather than nothing.
pub fn choose_portal(
    shared: &mut Shared,
    cfg: &Config,
    answer: Result<Granted, String>,
) -> (r: PortalChoice)
    ensures
        match answer {
            Ok(granted) => {
                &&& r.picture == Some(VideoSpec::Portal { node_id: granted.node_id })
                &&& r.save == (opt_text(granted.restore_token) != opt_text(cfg.restore_token))
                &&& final(shared).config == if r.save {
                    Config { restore_token: granted.restore_token, ..old(shared).config }
                } else {
                    old(shared).config
                }
                &&& final(shared).status@ == (StatusView {
                    last_error: None,
                    ..old(shared).status@
                })
                &&& final(shared).enabled == old(shared).enabled
                &&& final(shared).force == old(shared).force
                &&& final(shared).quit == old(shared).quit
            },
            Err(e) => {
                &&& r.picture is None
                &&& !r.save
                &&& old(shared).only_error(
                    *final(shared),
                    Some("vidéo indisponible ("@ + e@ + ") — audio seul"@),
                )
            },
        },
{
    match answer {
        Ok(granted) => {
            let save = !same_token(&granted.restore_token, &cfg.restore_token);
            if save {
                shared.config.restore_token = granted.restore_token;
            }
            shared.set_error(None);
            PortalChoice {
                picture: Some(VideoSpec::Portal { node_id: granted.node_id }),
                save,
            }
        },
        Err(e) => {
            shared.set_error(
                Some(concat3("vidéo indisponible (", e.as_str(), ") — audio seul")),
            );
            PortalChoice { picture: None, save: false }
        },
    }
}

/// Takes the picture from the window of Discord on Windows; without one only the sound is
/// recorded.
pub fn choose_window(
    shared: &mut Shared,
    cfg: &Config,
    found: Result<Option<WinWindow>, String>,
) -> (r: Option<VideoSpec>)
    ensures
        match found {
            Ok(Some(window)) => r == Some(win_picture(window, *cfg)) && old(shared).only_error(
                *final(shared),
                None,
            ),
            Ok(None) => r is None && old(shared).only_error(
                *final(shared),
                Some("fenêtre Discord introuvable — audio seul"@),
            ),
            Err(e) => r is None && old(shared).only_error(
                *final(shared),
                Some("recherche fenêtre Discord : "@ + e@),
            ),
        },
{
    match found {
        Ok(Some(window)) => {
            shared.set_error(None);
            Some(
                VideoSpec::WinWindow {
                    hwnd: window.hwnd,
                    framerate: cfg.framerate,
                    width: window.width,
                    height: window.height,
                },
            )
        },
        Ok(None) => {
            shared.set_error(Some("fenêtre Discord introuvable — audio seul".to_owned()));
            None
        },
        Err(e) => {
            shared.set_error(Some(concat2("recherche fenêtre Discord : ", e.as_str())));
            None
        },
    }
}

/// A recording that is ready to run in the output directory.
pub struct Launch {
    pub file_name: String,
    /// The arguments of `gst-launch-1.0`.
    pub args: Vec<String>,
}

/// What is noted where noise reduction is asked for in vain.
pub open spec fn denoise_note() -> Seq<char> {
    "réduction de bruit indisponible (plugin webrtcdsp absent) — micro non filtré"@
}

/// Plans a recording under the given name. Noise reduction takes place where it is both asked for
/// and available; where it is asked for in vain that is noted, and the microphone recorded as it
/// is.
pub fn plan_recording(
    shared: &mut Shared,
    platform: Platform,
    cfg: &Config,
    file_name: String,
    snap: &Snapshot,
    video: Option<VideoSpec>,
    encoder: VideoEncoder,
    denoise_available: bool,
) -> (r: Result<Launch, RecordError>)
    ensures
        if cfg.mic_denoise && !denoise_available {
            old(shared).only_error(*final(shared), Some(denoise_note()))
        } else {
            *final(shared) == *old(shared)
        },
        r is Ok <==> snap.audio_target is Some || video is Some,
        match r {
            Ok(launch) => launch.file_name == file_name && views(launch.args@) == recording_tokens(
                platform,
                *cfg,
                file_name@,
                snap.audio_target,
                video,
                encoder,
                cfg.mic_denoise && denoise_available,
            ),
            Err(e) => e == RecordError::NothingToRecord,
        },
{
    let denoise = cfg.mic_denoise && denoise_available;
    if cfg.mic_denoise && !denoise {
        let note = "réduction de bruit indisponible (plugin webrtcdsp absent) — micro non filtré";
        shared.set_error(Some(note.to_owned()));
    }
    match Recording::start(
        platform,
        cfg,
        file_name.as_str(),
        snap.audio_target,
        video,
        encoder,
        denoise,
    ) {
        Ok(args) => Ok(Launch { file_name, args }),
        Err(e) => Err(e),
    }
}

/// Plans a recording that begins now, under a name with the time in it.
pub fn start_recording(
    shared: &mut Shared,
    platform: Platform,
    cfg: &Config,
    snap: &Snapshot,
    video: Option<VideoSpec>,
    encoder: VideoEncoder,
    denoise_available: bool,
) -> (r: Result<Launch, RecordError>)
    ensures
        if cfg.mic_denoise && !denoise_available {
            old(shared).only_error(*final(shared), Some(denoise_note()))
        } else {
            *final(shared) == *old(shared)
        },
        r is Ok <==> snap.audio_target is Some || video is Some,
        match r {
            Ok(launch) => {
                &&& exists|stamp: Seq<char>| #[trigger]
                    recording_at(stamp) == launch.file_name@ && is_stamp(stamp)
                &&& views(launch.args@) == recording_tokens(
                    platform,
                    *cfg,
                    launch.file_name@,
                    snap.audio_target,
                    video,
                    encoder,
                    cfg.mic_denoise && denoise_available,
                )
            },
            Err(e) => e == RecordError::NothingToRecord,
        },
{
    let file_name = new_recording_name();
    plan_recording(
        shared,
        platform,
        cfg,
        file_name,
        snap,
        video,
        encoder,
        denoise_available,
    )
}

/// Uses what was read of the voice state; a failure is noted, and counts as no voice session.
pub fn observe(shared: &mut Shared, read: Result<Snapshot, String>) -> (snap: Snapshot)
    ensures
        match read {
            Ok(s) => snap == s && *final(shared) == *old(shared),
            Err(e) => snap == (Snapshot { in_voice: false, audio_target: None })
                && old(shared).only_error(*final(shared), Some("détection vocale : "@ + e@)),
        },
{
    match read {
        Ok(s) => s,
        Err(e) => {
            shared.set_error(Some(concat2("détection vocale : ", e.as_str())));
            Snapshot::default()
        },
    }
}

/// Where the watch stands.
pub struct Watch {
    /// What is being recorded.
    pub current: Option<Recording>,
    /// Whether that was begun by the user alone, outside a voice session: it then ends at once
    /// when the user says so.
    pub manual: bool,
    /// Steps in a row in which a recording went on though none was wanted.
    pub absent_ticks: u32,
    /// Steps to go before a new attempt.
    pub cooldown: u32,
}

/// What a step looks at.
pub struct Input {
    pub in_voice: bool,
    /// Whether recording starts by itself.
    pub enabled: bool,
    /// Whether the user asked for a recording.
    pub force: bool,
    /// Steps without voice before a recording ends.
    pub stop_debounce_s: u32,
}

impl Input {
    /// Whether a voice session is to be recorded.
    pub open spec fn auto_want(self) -> bool {
        self.enabled && self.in_voice
    }

    /// Whether there is to be a recording.
    pub open spec fn want(self) -> bool {
        self.auto_want() || self.force
    }
}

/// What is to be done.
pub enum Action {
    /// Nothing.
    Wait,
    /// Begin a recording; `manual` is to be handed back with it.
    Start { manual: bool },
    /// End this recording and finish its file.
    Stop(Recording),
}

/// What a step found, and what is to be done.
pub struct Tick {
    pub snap: Snapshot,
    /// Whether the recorder had ended by itself.
    pub interrupted: bool,
    pub action: Action,
}

/// The error of a recorder that has ended by itself.
pub open spec fn exit_text(status: Seq<char>) -> Seq<char> {
    "l'enregistreur s'est arrêté de façon inattendue ("@ + status + ") — voir .gstreamer.log"@
}

impl Watch {
    /// Whether the counters are in their ranges.
    pub open spec fn wf(self) -> bool {
        self.absent_ticks < u32::MAX && self.cooldown <= RETRY_COOLDOWN_TICKS
    }

    /// Steps without voice after which the recording ends: none where it was begun by the user
    /// alone or the automatic mode is off.
    pub open spec fn patience(self, input: Input) -> u32 {
        if self.manual || !input.enabled {
            0
        } else {
            input.stop_debounce_s
        }
    }

    /// Where the watch stands after a step, and what is to be done.
    pub open spec fn after(self, input: Input) -> (Watch, Action) {
        if input.want() {
            let here = Watch { absent_ticks: 0, ..self };
            if self.current is Some {
                (here, Action::Wait)
            } else if self.cooldown > 0 {
                (Watch { cooldown: (self.cooldown - 1) as u32, ..here }, Action::Wait)
            } else {
                (here, Action::Start { manual: input.force && !input.auto_want() })
            }
        } else {
            match self.current {
                Some(rec) => {
                    let absent = self.absent_ticks + 1;
                    if absent >= self.patience(input) {
                        (
                            Watch { current: None, manual: false, absent_ticks: 0, ..self },
                            Action::Stop(rec),
                        )
                    } else {
                        (Watch { absent_ticks: absent as u32, ..self }, Action::Wait)
                    }
                },
                None => (self, Action::Wait),
            }
        }
    }

    /// Where the watch stands once the recorder has ended by itself.
    pub open spec fn interrupted(self) -> Watch {
        Watch { current: None, manual: false, cooldown: RETRY_COOLDOWN_TICKS, ..self }
    }

    /// Begins the watch; nothing is being recorded.
    pub fn new() -> (r: Watch)
        ensures
            r == (Watch { current: None, manual: false, absent_ticks: 0, cooldown: 0 }),
            r.wf(),
    {
        Watch { current: None, manual: false, absent_ticks: 0, cooldown: 0 }
    }

    /// Takes note of a recorder that has ended by itself, with the given status: an error. Says
    /// whether there was one.
    pub fn check_exit(&mut self, shared: &mut Shared, exited: Option<String>) -> (r: bool)
        requires
            old(self).wf(),
        ensures
            r == (old(self).current is Some && exited is Some),
            r ==> *final(self) == old(self).interrupted() && old(shared).only_error(
                *final(shared),
                Some(exit_text((exited->0)@)),
            ),
            !r ==> *final(self) == *old(self) && *final(shared) == *old(shared),
            final(self).wf(),
    {
        if self.current.is_none() {
            return false;
        }
        match exited {
            Some(status) => {
                shared.set_error(
                    Some(
                        concat3(
                            "l'enregistreur s'est arrêté de façon inattendue (",
                            status.as_str(),
                            ") — voir .gstreamer.log",
                        ),
                    ),
                );
                self.current = None;
                self.manual = false;
                self.cooldown = RETRY_COOLDOWN_TICKS;
                true
            },
            None => false,
        }
    }

    /// Takes one step.
    pub fn step(&mut self, input: &Input) -> (action: Action)
        requires
            old(self).wf(),
        ensures
            (*final(self), action) == old(self).after(*input),
            final(self).wf(),
    {
        let auto_want = input.enabled && input.in_voice;
        if auto_want || input.force {
            self.absent_ticks = 0;
            if self.current.is_some() {
                Action::Wait
            } else if self.cooldown > 0 {
                self.cooldown = self.cooldown - 1;
                Action::Wait
            } else {
                Action::Start { manual: input.force && !auto_want }
            }
        } else {
            if self.current.is_none() {
                return Action::Wait;
            }
            self.absent_ticks = self.absent_ticks + 1;
            let limit: u32 = if self.manual || !input.enabled {
                0
            } else {
                input.stop_debounce_s
            };
            if self.absent_ticks >= limit {
                self.manual = false;
                self.absent_ticks = 0;
                match self.current.take() {
                    Some(rec) => Action::Stop(rec),
                    None => Action::Wait,
                }
            } else {
                Action::Wait
            }
        }
    }

    /// Takes note of a recording that has begun. Where the settings ask for that, it replaces the
    /// earlier ones.
    pub fn started(
        &mut self,
        shared: &Shared,
        platform: Platform,
        rec: Recording,
        manual: bool,
    ) -> (r: Begun)
        requires
            old(self).wf(),
        ensures
            *final(self) == (Watch { current: Some(rec), manual, ..*old(self) }),
            r.title@ == name_or_self(rec.file@, platform),
            r.replaces == shared.config.keep_only_last,
            final(self).wf(),
    {
        let title = base_name(rec.file.as_str(), platform);
        self.manual = manual;
        self.current = Some(rec);
        Begun { title, replaces: shared.config.keep_only_last }
    }

    /// Takes note of a recording that could not begin: an error, and a pause before the next
    /// attempt.
    pub fn start_failed(&mut self, shared: &mut Shared, reason: &str)
        requires
            old(self).wf(),
        ensures
            *final(self) == (Watch { cooldown: RETRY_COOLDOWN_TICKS, ..*old(self) }),
            old(shared).only_error(*final(shared), Some("démarrage impossible : "@ + reason@)),
            final(self).wf(),
    {
        shared.set_error(Some(concat2("démarrage impossible : ", reason)));
        self.cooldown = RETRY_COOLDOWN_TICKS;
    }

    /// Takes one whole step, given what was read of the voice state and the status of a recorder
    /// that has ended by itself.
    pub fn tick(
        &mut self,
        shared: &mut Shared,
        read: Result<Snapshot, String>,
        exited: Option<String>,
    ) -> (r: Tick)
        requires
            old(self).wf(),
        ensures
            r.snap == match read {
                Ok(s) => s,
                Err(_) => Snapshot { in_voice: false, audio_target: None },
            },
            r.interrupted == (old(self).current is Some && exited is Some),
            (*final(self), r.action) == (if r.interrupted {
                old(self).interrupted()
            } else {
                *old(self)
            }).after(
                Input {
                    in_voice: r.snap.in_voice,
                    enabled: old(shared).enabled,
                    force: old(shared).force,
                    stop_debounce_s: old(shared).config.stop_debounce_s,
                },
            ),
            old(shared).only_error(
                *final(shared),
                if r.interrupted {
                    Some(exit_text((exited->0)@))
                } else if read is Err {
                    Some("détection vocale : "@ + (read->Err_0)@)
                } else {
                    old(shared).status@.last_error
                },
            ),
            final(self).wf(),
    {
        let snap = observe(shared, read);
        let interrupted = self.check_exit(shared, exited);
        let input = Input {
            in_voice: snap.in_voice,
            enabled: shared.enabled,
            force: shared.force,
            stop_debounce_s: shared.config.stop_debounce_s,
        };
        let action = self.step(&input);
        Tick { snap, interrupted, action }
    }

    /// Decides whether the watch ends; what is being recorded is then to be finished first.
    pub fn check_quit(&mut self, shared: &Shared) -> (r: Quit)
        ensures
            if shared.quit {
                &&& r == Quit::Exit(old(self).current)
                &&& *final(self) == (Watch { current: None, ..*old(self) })
            } else {
                &&& r == Quit::GoOn
                &&& *final(self) == *old(self)
            },
    {
        if shared.quit {
            Quit::Exit(self.current.take())
        } else {
            Quit::GoOn
        }
    }
}

/// Whether the application ends.
pub enum Quit {
    GoOn,
    /// It does, once this recording is finished.
    Exit(Option<Recording>),
}

/// What follows a recording that has begun.
pub struct Begun {
    /// Its name, for the notification.
    pub title: String,
    /// Whether the earlier recordings are to be removed.
    pub replaces: bool,
}

/// What follows a finished recording.
pub struct Saved {
    /// Its name, for the notification.
    pub title: String,
    /// The name of the file to be converted to MP4, where that is wanted.
    pub convert: Option<String>,
}

/// Takes note of a finished recording: no error is left, and it is converted where the settings
/// ask for that and it has a name.
pub fn saved(shared: &mut Shared, platform: Platform, file: &str) -> (r: Saved)
    ensures
        old(shared).only_error(*final(shared), None),
        r.title@ == name_or_self(file@, platform),
        opt_text(r.convert) == if old(shared).config.auto_mp4 {
            file_name_on(file@, platform)
        } else {
            None
        },
{
    shared.set_error(None);
    let title = base_name(file, platform);
    let convert = if shared.config.auto_mp4 {
        let chars = crate::text::chars_of(file);
        match find_file_name_on(chars.as_slice(), platform) {
            Some((from, to)) => Some(
                crate::text::string_of(vstd::slice::slice_subrange(chars.as_slice(), from, to)),
            ),
            None => None,
        }
    } else {
        None
    };
    Saved { title, convert }
}

} // verus!
