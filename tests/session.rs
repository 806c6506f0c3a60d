use wf_recorder_gui::config::Config;
use wf_recorder_gui::recorder::{AudioSource, CaptureRegion, OutputFormat};
use wf_recorder_gui::session::{format_elapsed, subtitle, Action, Event, RecordingState, Session};

fn session(region: CaptureRegion) -> Session {
    let mut c = Config::with_defaults(None, "/tmp");
    c.region = region;
    Session::new(c)
}

#[test]
fn new_session_shows_settings() {
    let s = session(CaptureRegion::FullScreen);
    assert_eq!(s.state, RecordingState::Settings);
    assert_eq!(s.elapsed_secs, 0);
}

#[test]
fn settings_events_change_the_config_and_save() {
    let mut s = session(CaptureRegion::FullScreen);
    assert_eq!(s.update(Event::FormatSelected(OutputFormat::Mkv)), Action::SaveConfig);
    assert_eq!(s.config.format, OutputFormat::Mkv);
    assert_eq!(s.update(Event::RegionToggled(false)), Action::SaveConfig);
    assert_eq!(s.config.region, CaptureRegion::Selection);
    assert_eq!(s.update(Event::RegionToggled(true)), Action::SaveConfig);
    assert_eq!(s.config.region, CaptureRegion::FullScreen);
    assert_eq!(s.update(Event::AudioSelected(AudioSource::Microphone)), Action::SaveConfig);
    assert_eq!(s.config.audio, AudioSource::Microphone);
    assert_eq!(s.update(Event::BrowseFolder), Action::PickFolder);
    assert_eq!(s.update(Event::FolderSelected("/videos".to_string())), Action::SaveConfig);
    assert_eq!(s.config.output_dir, "/videos");
    assert_eq!(s.state, RecordingState::Settings);
}

#[test]
fn full_screen_counts_down_from_three() {
    let mut s = session(CaptureRegion::FullScreen);
    assert_eq!(s.update(Event::StartRecording), Action::EnterCompact { tick_after_ms: 1000 });
    assert_eq!(s.state, RecordingState::Countdown);
    assert_eq!(s.countdown, 3);
    assert_eq!(s.update(Event::Tick(0)), Action::ScheduleTick { after_ms: 1000 });
    assert_eq!(s.countdown, 2);
    assert_eq!(s.update(Event::Tick(0)), Action::ScheduleTick { after_ms: 1000 });
    assert_eq!(s.countdown, 1);
    assert_eq!(s.update(Event::Tick(0)), Action::StartRecorder);
    assert_eq!(s.state, RecordingState::Countdown);
    assert_eq!(s.update(Event::RecorderStarted), Action::ScheduleTick { after_ms: 1000 });
    assert_eq!(s.state, RecordingState::Recording);
}

#[test]
fn selection_waits_briefly_before_the_first_tick() {
    let mut s = session(CaptureRegion::Selection);
    assert_eq!(s.update(Event::StartRecording), Action::EnterCompact { tick_after_ms: 100 });
}

#[test]
fn recording_ticks_update_the_clock() {
    let mut s = session(CaptureRegion::FullScreen);
    s.update(Event::StartRecording);
    s.update(Event::RecorderStarted);
    assert_eq!(s.update(Event::Tick(5)), Action::ScheduleTick { after_ms: 1000 });
    assert_eq!(s.elapsed_secs, 5);
}

#[test]
fn failed_start_returns_to_settings() {
    let mut s = session(CaptureRegion::FullScreen);
    s.update(Event::StartRecording);
    assert_eq!(s.update(Event::RecorderFailed), Action::ReturnToSettings { stop_recorder: false });
    assert_eq!(s.state, RecordingState::Settings);
}

#[test]
fn stop_returns_to_settings_and_resets_the_clock() {
    let mut s = session(CaptureRegion::FullScreen);
    s.update(Event::StartRecording);
    s.update(Event::RecorderStarted);
    s.update(Event::Tick(42));
    assert_eq!(s.update(Event::StopRecording), Action::ReturnToSettings { stop_recorder: true });
    assert_eq!(s.state, RecordingState::Settings);
    assert_eq!(s.elapsed_secs, 0);
    assert_eq!(s.update(Event::Tick(43)), Action::Nothing);
    assert_eq!(s.state, RecordingState::Settings);
}

#[test]
fn started_outside_a_countdown_is_ignored() {
    let mut s = session(CaptureRegion::FullScreen);
    assert_eq!(s.update(Event::RecorderStarted), Action::Nothing);
    assert_eq!(s.state, RecordingState::Settings);
}

#[test]
fn elapsed_time_is_minutes_and_seconds() {
    assert_eq!(format_elapsed(0), "00:00");
    assert_eq!(format_elapsed(75), "01:15");
    assert_eq!(format_elapsed(599), "09:59");
    assert_eq!(format_elapsed(3600), "60:00");
    assert_eq!(format_elapsed(6001), "100:01");
}

#[test]
fn subtitle_names_format_and_rate() {
    assert_eq!(subtitle(OutputFormat::Mp4), "MP4 \u{2022} 30FPS");
    assert_eq!(subtitle(OutputFormat::WebM), "WebM \u{2022} 30FPS");
}
