//! The recording session: settings, a countdown, then recording, and back.
//! The interface hands each event to `Session::update` and performs the
//! action that comes back.
use crate::config::Config;
use crate::recorder::{format_name_of, AudioSource, CaptureRegion, OutputFormat};
use crate::text::{chars_of, concat, string_of};
use vstd::prelude::*;

verus! {

/// The screen the interface shows.
#[derive(Debug, Clone, Copy, PartialEq, Eq, Structural)]
pub enum RecordingState {
    Settings,
    Countdown,
    Recording,
}

/// What happened in the interface, or to the recorder it started.
#[derive(Debug, Clone)]
pub enum Event {
    FormatSelected(OutputFormat),
    /// `true` for the full screen, `false` for a selected region.
    RegionToggled(bool),
    AudioSelected(AudioSource),
    BrowseFolder,
    FolderSelected(String),
    StartRecording,
    StopRecording,
    /// A timer fired; carries the whole seconds since recording began.
    Tick(u64),
    RecorderStarted,
    RecorderFailed,
}

/// What the interface is to do next.
#[derive(Debug, Clone, Copy, PartialEq, Eq, Structural)]
pub enum Action {
    Nothing,
    SaveConfig,
    PickFolder,
    /// Shrink to the compact window and fire a tick after the delay.
    EnterCompact { tick_after_ms: u64 },
    /// Fire a tick after the delay.
    ScheduleTick { after_ms: u64 },
    /// Start the recorder, then report `RecorderStarted` or `RecorderFailed`.
    StartRecorder,
    /// Go back to the settings window, stopping the recorder if asked.
    ReturnToSettings { stop_recorder: bool },
}

/// The seconds counted down before recording.
pub const COUNTDOWN_START: u8 = 3;

/// The delay of each countdown and clock tick.
pub const TICK_MS: u64 = 1000;

/// The delay before the first tick when a region is selected.
pub const SELECTION_DELAY_MS: u64 = 100;

/// The state of the interface.
#[derive(Debug, Clone)]
pub struct Session {
    pub state: RecordingState,
    pub countdown: u8,
    pub elapsed_secs: u64,
    pub config: Config,
}

/// The settings screen over `config`.
pub open spec fn settings_over(config: Config) -> Session {
    Session { state: RecordingState::Settings, countdown: 0, elapsed_secs: 0, config }
}

/// The delay before the first countdown tick.
pub open spec fn first_tick_delay(region: CaptureRegion) -> u64 {
    match region {
        CaptureRegion::Selection => SELECTION_DELAY_MS,
        CaptureRegion::FullScreen => TICK_MS,
    }
}

/// The session after `e`.
pub open spec fn next_session(s: Session, e: Event) -> Session {
    match e {
        Event::FormatSelected(f) => Session { config: Config { format: f, ..s.config }, ..s },
        Event::RegionToggled(full) => Session {
            config: Config {
                region: if full {
                    CaptureRegion::FullScreen
                } else {
                    CaptureRegion::Selection
                },
                ..s.config
            },
            ..s
        },
        Event::AudioSelected(a) => Session { config: Config { audio: a, ..s.config }, ..s },
        Event::BrowseFolder => s,
        Event::FolderSelected(p) => Session { config: Config { output_dir: p, ..s.config }, ..s },
        Event::StartRecording => Session {
            state: RecordingState::Countdown,
            countdown: COUNTDOWN_START,
            elapsed_secs: 0,
            ..s
        },
        Event::StopRecording => settings_over(s.config),
        Event::Tick(secs) => match s.state {
            RecordingState::Countdown => {
                if s.countdown > 1 {
                    Session { countdown: (s.countdown - 1) as u8, ..s }
                } else {
                    s
                }
            },
            RecordingState::Recording => Session { elapsed_secs: secs, ..s },
            RecordingState::Settings => s,
        },
        Event::RecorderStarted => match s.state {
            RecordingState::Countdown => Session {
                state: RecordingState::Recording,
                countdown: 0,
                elapsed_secs: 0,
                ..s
            },
            _ => s,
        },
        Event::RecorderFailed => settings_over(s.config),
    }
}

/// What the interface does after `e`.
pub open spec fn action_for(s: Session, e: Event) -> Action {
    match e {
        Event::FormatSelected(_) => Action::SaveConfig,
        Event::RegionToggled(_) => Action::SaveConfig,
        Event::AudioSelected(_) => Action::SaveConfig,
        Event::BrowseFolder => Action::PickFolder,
        Event::FolderSelected(_) => Action::SaveConfig,
        Event::StartRecording => Action::EnterCompact {
            tick_after_ms: first_tick_delay(s.config.region),
        },
        Event::StopRecording => Action::ReturnToSettings { stop_recorder: true },
        Event::Tick(_) => match s.state {
            RecordingState::Countdown => {
                if s.countdown > 1 {
                    Action::ScheduleTick { after_ms: TICK_MS }
                } else {
                    Action::StartRecorder
                }
            },
            RecordingState::Recording => Action::ScheduleTick { after_ms: TICK_MS },
            RecordingState::Settings => Action::Nothing,
        },
        Event::RecorderStarted => match s.state {
            RecordingState::Countdown => Action::ScheduleTick { after_ms: TICK_MS },
            _ => Action::Nothing,
        },
        Event::RecorderFailed => Action::ReturnToSettings { stop_recorder: false },
    }
}

/// Recording begins only once the recorder has started: a session reaches
/// `Recording` from `Countdown` on `RecorderStarted`, or was recording already.
pub proof fn lemma_recording_needs_started_recorder(s: Session, e: Event)
    ensures
        next_session(s, e).state == RecordingState::Recording ==> s.state
            == RecordingState::Recording || (s.state == RecordingState::Countdown
            && e is RecorderStarted),
{
}

/// From any session, starting a recording and then three ticks count down
/// and then ask for the recorder: the first two ticks schedule the next one,
/// the third asks to start the recorder, and the settings stay as they were.
pub proof fn lemma_countdown_starts_recorder(s: Session, t1: u64, t2: u64, t3: u64)
    ensures
        ({
            let s1 = next_session(s, Event::StartRecording);
            let s2 = next_session(s1, Event::Tick(t1));
            let s3 = next_session(s2, Event::Tick(t2));
            &&& action_for(s, Event::StartRecording) == Action::EnterCompact {
                tick_after_ms: first_tick_delay(s.config.region),
            }
            &&& action_for(s1, Event::Tick(t1)) == Action::ScheduleTick { after_ms: TICK_MS }
            &&& action_for(s2, Event::Tick(t2)) == Action::ScheduleTick { after_ms: TICK_MS }
            &&& action_for(s3, Event::Tick(t3)) == Action::StartRecorder
            &&& next_session(s3, Event::Tick(t3)).state == RecordingState::Countdown
            &&& next_session(s3, Event::Tick(t3)).config == s.config
        }),
{
}

/// Stopping always goes back to the settings with the settings kept, and
/// asks for the recorder to be stopped.
pub proof fn lemma_stop_returns_to_settings(s: Session)
    ensures
        next_session(s, Event::StopRecording) == settings_over(s.config),
        action_for(s, Event::StopRecording) == (Action::ReturnToSettings { stop_recorder: true }),
{
}

impl Session {
    /// The settings screen over the saved settings.
    pub fn new(config: Config) -> (r: Session)
        ensures
            r == settings_over(config),
    {
        Session { state: RecordingState::Settings, countdown: 0, elapsed_secs: 0, config }
    }

    /// Applies `event` and says what the interface is to do.
    pub fn update(&mut self, event: Event) -> (a: Action)
        ensures
            *final(self) == next_session(*old(self), event),
            a == action_for(*old(self), event),
    {
        match event {
            Event::FormatSelected(f) => {
                self.config.format = f;
                Action::SaveConfig
            },
            Event::RegionToggled(full) => {
                self.config.region = if full {
                    CaptureRegion::FullScreen
                } else {
                    CaptureRegion::Selection
                };
                Action::SaveConfig
            },
            Event::AudioSelected(a) => {
                self.config.audio = a;
                Action::SaveConfig
            },
            Event::BrowseFolder => Action::PickFolder,
            Event::FolderSelected(p) => {
                self.config.output_dir = p;
                Action::SaveConfig
            },
            Event::StartRecording => {
                self.state = RecordingState::Countdown;
                self.countdown = COUNTDOWN_START;
                self.elapsed_secs = 0;
                let delay = match self.config.region {
                    CaptureRegion::Selection => SELECTION_DELAY_MS,
                    CaptureRegion::FullScreen => TICK_MS,
                };
                Action::EnterCompact { tick_after_ms: delay }
            },
            Event::StopRecording => {
                self.state = RecordingState::Settings;
                self.countdown = 0;
                self.elapsed_secs = 0;
                Action::ReturnToSettings { stop_recorder: true }
            },
            Event::Tick(secs) => match self.state {
                RecordingState::Countdown => {
                    if self.countdown > 1 {
                        self.countdown = self.countdown - 1;
                        Action::ScheduleTick { after_ms: TICK_MS }
                    } else {
                        Action::StartRecorder
                    }
                },
                RecordingState::Recording => {
                    self.elapsed_secs = secs;
                    Action::ScheduleTick { after_ms: TICK_MS }
                },
                RecordingState::Settings => Action::Nothing,
            },
            Event::RecorderStarted => match self.state {
                RecordingState::Countdown => {
                    self.state = RecordingState::Recording;
                    self.countdown = 0;
                    self.elapsed_secs = 0;
                    Action::ScheduleTick { after_ms: TICK_MS }
                },
                _ => Action::Nothing,
            },
            Event::RecorderFailed => {
                self.state = RecordingState::Settings;
                self.countdown = 0;
                self.elapsed_secs = 0;
                Action::ReturnToSettings { stop_recorder: false }
            },
        }
    }
}

/// The decimal digit for `d`, below ten.
pub open spec fn digit_char(d: nat) -> char {
    "0123456789"@[d as int]
}

/// The decimal numeral of `n`, without leading zeros.
pub open spec fn decimal(n: nat) -> Seq<char>
    decreases n,
{
    if n < 10 {
        seq![digit_char(n)]
    } else {
        decimal(n / 10).push(digit_char(n % 10))
    }
}

/// The numeral of `n` with at least two digits.
pub open spec fn two_digits(n: nat) -> Seq<char> {
    if n < 10 {
        seq!['0'] + decimal(n)
    } else {
        decimal(n)
    }
}

/// Elapsed seconds as `MM:SS`; the minutes may take more than two digits.
pub open spec fn clock_text(secs: nat) -> Seq<char> {
    two_digits(secs / 60) + seq![':'] + two_digits(secs % 60)
}

/// The decimal numeral of `n`.
pub fn decimal_chars(n: u64) -> (r: Vec<char>)
    ensures
        r@ == decimal(n as nat),
    decreases n,
{
    let digits = chars_of("0123456789");
    proof {
        reveal_strlit("0123456789");
    }
    if n < 10 {
        let mut r: Vec<char> = Vec::new();
        r.push(digits[n as usize]);
        assert(r@ =~= seq![digit_char(n as nat)]);
        r
    } else {
        let mut r = decimal_chars(n / 10);
        r.push(digits[(n % 10) as usize]);
        r
    }
}

fn two_digit_chars(n: u64) -> (r: Vec<char>)
    ensures
        r@ == two_digits(n as nat),
{
    if n < 10 {
        let zero = chars_of("0");
        proof {
            reveal_strlit("0");
        }
        concat(&zero, &decimal_chars(n))
    } else {
        decimal_chars(n)
    }
}

/// Elapsed seconds as the recording clock shows them, `MM:SS`.
pub fn format_elapsed(secs: u64) -> (r: String)
    ensures
        r@ == clock_text(secs as nat),
{
    let colon = chars_of(":");
    proof {
        reveal_strlit(":");
    }
    let text = concat(&concat(&two_digit_chars(secs / 60), &colon), &two_digit_chars(secs % 60));
    string_of(&text)
}

/// The line under the title: the format's name and the frame rate.
pub open spec fn subtitle_of(f: OutputFormat) -> Seq<char> {
    format_name_of(f) + " \u{2022} 30FPS"@
}

/// The line under the title.
pub fn subtitle(format: OutputFormat) -> (r: String)
    ensures
        r@ == subtitle_of(format),
{
    string_of(&concat(&chars_of(format.name()), &chars_of(" \u{2022} 30FPS")))
}

} // verus!
