use wf_recorder_gui::outputs::AvailableOutput;
use wf_recorder_gui::recorder::{
    default_source, recording_path, AudioSource, CaptureRegion, OutputFormat, Recorder,
    RecordingConfig,
};

fn output(name: &str, description: &str) -> AvailableOutput {
    AvailableOutput { output_name: name.to_string(), description: description.to_string() }
}

fn two_outputs() -> Vec<AvailableOutput> {
    vec![output("DP-1", "Left"), output("DP-2", "Right")]
}

fn strings(v: &[&str]) -> Vec<String> {
    v.iter().map(|s| s.to_string()).collect()
}

#[test]
fn format_extensions_and_codecs() {
    assert_eq!(OutputFormat::WebM.extension(), "webm");
    assert_eq!(OutputFormat::Mp4.extension(), "mp4");
    assert_eq!(OutputFormat::Mkv.extension(), "mkv");
    assert_eq!(OutputFormat::WebM.codec(), "libvpx");
    assert_eq!(OutputFormat::Mp4.codec(), "libx264");
    assert_eq!(OutputFormat::Mkv.codec(), "libx264");
}

#[test]
fn format_names_and_list() {
    assert_eq!(OutputFormat::WebM.name(), "WebM");
    assert_eq!(OutputFormat::Mp4.name(), "MP4");
    assert_eq!(OutputFormat::Mkv.name(), "MKV");
    let all = OutputFormat::all();
    assert_eq!(
        all,
        vec![
            (OutputFormat::WebM, "WebM - Best for web"),
            (OutputFormat::Mp4, "MP4 - Most compatible"),
            (OutputFormat::Mkv, "MKV - Best quality"),
        ]
    );
}

#[test]
fn audio_and_region_labels() {
    assert_eq!(AudioSource::NoAudio.label(), "No Audio");
    assert_eq!(AudioSource::System.label(), "System Audio");
    assert_eq!(AudioSource::Microphone.label(), "Microphone");
    assert_eq!(CaptureRegion::FullScreen.label(), "Full Screen");
    assert_eq!(CaptureRegion::Selection.label(), "Select Region");
}

#[test]
fn new_config_has_defaults() {
    let c = RecordingConfig::new(two_outputs(), "/tmp".to_string());
    assert_eq!(c.available_outputs, two_outputs());
    assert_eq!(c.selected_output, None);
    assert_eq!(c.format, OutputFormat::Mp4);
    assert_eq!(c.audio, AudioSource::NoAudio);
    assert_eq!(c.region, CaptureRegion::FullScreen);
    assert_eq!(c.output_dir, "/tmp");
}

#[test]
fn new_with_defaults_tolerates_a_failed_listing() {
    let c = RecordingConfig::new_with_defaults(None, "/tmp".to_string());
    assert!(c.available_outputs.is_empty());
    assert!(!c.has_multiple_outputs());
    let c = RecordingConfig::new_with_defaults(Some(two_outputs()), "/tmp".to_string());
    assert_eq!(c.get_available_outputs(), &two_outputs());
    assert!(c.has_multiple_outputs());
}

#[test]
fn one_output_is_not_multiple() {
    let c = RecordingConfig::new(vec![output("eDP-1", "Panel")], "/tmp".to_string());
    assert!(!c.has_multiple_outputs());
}

#[test]
fn set_selected_output_by_index() {
    let mut c = RecordingConfig::new(two_outputs(), "/tmp".to_string());
    c.set_selected_output(1);
    assert_eq!(c.get_selected_output(), Some(&output("DP-2", "Right")));
    c.set_selected_output(2);
    assert_eq!(c.get_selected_output(), Some(&output("DP-2", "Right")));
}

#[test]
fn set_selected_output_past_the_end_changes_nothing() {
    let mut c = RecordingConfig::new(two_outputs(), "/tmp".to_string());
    c.set_selected_output(5);
    assert_eq!(c.get_selected_output(), None);
}

#[test]
fn set_selected_output_by_name_picks_the_first_match() {
    let mut c = RecordingConfig::new(
        vec![output("DP-1", "first"), output("DP-2", "x"), output("DP-1", "second")],
        "/tmp".to_string(),
    );
    c.set_selected_output_by_name("DP-1");
    assert_eq!(c.get_selected_output(), Some(&output("DP-1", "first")));
    c.set_selected_output_by_name("HDMI-A-1");
    assert_eq!(c.get_selected_output(), Some(&output("DP-1", "first")));
    c.set_selected_output_by_name("DP-2");
    assert_eq!(c.get_selected_output(), Some(&output("DP-2", "x")));
}

#[test]
fn ensure_output_selected_picks_the_first() {
    let mut c = RecordingConfig::new(two_outputs(), "/tmp".to_string());
    c.ensure_output_selected();
    assert_eq!(c.get_selected_output(), Some(&output("DP-1", "Left")));
    c.set_selected_output(1);
    c.ensure_output_selected();
    assert_eq!(c.get_selected_output(), Some(&output("DP-2", "Right")));
}

#[test]
fn ensure_output_selected_without_outputs() {
    let mut c = RecordingConfig::new(Vec::new(), "/tmp".to_string());
    c.ensure_output_selected();
    assert_eq!(c.get_selected_output(), None);
}

#[test]
fn recording_path_joins_directory_and_name() {
    assert_eq!(
        recording_path("/home/u/Videos", "20240131_235959", OutputFormat::Mp4),
        "/home/u/Videos/recording_20240131_235959.mp4"
    );
    assert_eq!(
        recording_path("/tmp/", "20240101_000000", OutputFormat::WebM),
        "/tmp/recording_20240101_000000.webm"
    );
    assert_eq!(recording_path("", "1", OutputFormat::Mkv), "recording_1.mkv");
}

#[test]
fn generate_filename_is_in_the_output_directory() {
    let mut c = RecordingConfig::new(Vec::new(), "/tmp/out".to_string());
    c.format = OutputFormat::Mkv;
    let name = Recorder::new(c).generate_filename("20240131_235959");
    assert_eq!(name, "/tmp/out/recording_20240131_235959.mkv");
}

#[test]
fn generate_filename_with_the_clock() {
    let c = RecordingConfig::new(Vec::new(), "/tmp/out".to_string());
    let stamp = chrono::Local::now().format("%Y%m%d_%H%M%S").to_string();
    let name = Recorder::new(c).generate_filename(&stamp);
    assert_eq!(name, format!("/tmp/out/recording_{}.mp4", stamp));
    assert_eq!(stamp.len(), 15);
    assert!(stamp.chars().all(|ch| ch.is_ascii_digit() || ch == '_'));
}

#[test]
fn default_source_is_the_first_field_of_the_first_line() {
    let sources = "1\talsa_input.usb-mic\tmodule-alsa-card.c\ts16le 2ch 44100Hz\tRUNNING\n2\tother\n";
    assert_eq!(default_source(sources), Some("1".to_string()));
    assert_eq!(default_source("no-tabs-here\r\nsecond"), Some("no-tabs-here".to_string()));
    assert_eq!(default_source("\n"), Some(String::new()));
    assert_eq!(default_source(""), None);
}

#[test]
fn command_args_full_screen_without_audio() {
    let r = Recorder::new(RecordingConfig::new(vec![output("DP-1", "x")], "/tmp".to_string()));
    assert_eq!(
        r.command_args("/tmp/a.mp4", "", ""),
        strings(&["-f", "/tmp/a.mp4", "--codec", "libx264"])
    );
}

#[test]
fn command_args_system_audio() {
    let mut c = RecordingConfig::new(Vec::new(), "/tmp".to_string());
    c.audio = AudioSource::System;
    c.format = OutputFormat::WebM;
    let r = Recorder::new(c);
    assert_eq!(
        r.command_args("/tmp/a.webm", "", ""),
        strings(&["-f", "/tmp/a.webm", "--codec", "libvpx", "-a"])
    );
}

#[test]
fn command_args_microphone() {
    let mut c = RecordingConfig::new(Vec::new(), "/tmp".to_string());
    c.audio = AudioSource::Microphone;
    let r = Recorder::new(c);
    assert_eq!(
        r.command_args("f.mp4", "alsa_input.mic\tmodule\n", ""),
        strings(&["-f", "f.mp4", "--codec", "libx264", "-a", "alsa_input.mic"])
    );
    assert_eq!(r.command_args("f.mp4", "", ""), strings(&["-f", "f.mp4", "--codec", "libx264"]));
}

#[test]
fn command_args_selection_trims_the_geometry() {
    let mut c = RecordingConfig::new(two_outputs(), "/tmp".to_string());
    c.region = CaptureRegion::Selection;
    c.set_selected_output(1);
    let r = Recorder::new(c);
    assert_eq!(
        r.command_args("f.mp4", "", "  10,20 300x200\n"),
        strings(&["-f", "f.mp4", "--codec", "libx264", "-g", "10,20 300x200"])
    );
}

#[test]
fn command_args_names_the_chosen_output() {
    let mut c = RecordingConfig::new(two_outputs(), "/tmp".to_string());
    c.set_selected_output(1);
    let r = Recorder::new(c);
    assert_eq!(
        r.command_args("f.mp4", "", ""),
        strings(&["-f", "f.mp4", "--codec", "libx264", "-o", "DP-2"])
    );
}

#[test]
fn command_args_single_output_is_not_named() {
    let mut c = RecordingConfig::new(vec![output("DP-1", "x")], "/tmp".to_string());
    c.ensure_output_selected();
    let r = Recorder::new(c);
    assert_eq!(r.command_args("f.mp4", "", ""), strings(&["-f", "f.mp4", "--codec", "libx264"]));
}

#[test]
fn recorder_start_and_stop() {
    let mut r = Recorder::new(RecordingConfig::new(Vec::new(), "/tmp".to_string()));
    assert_eq!(r.pid(), None);
    assert_eq!(r.stop(), None);
    r.mark_started(4242);
    assert_eq!(r.pid(), Some(4242));
    assert_eq!(r.stop(), Some(4242));
    assert_eq!(r.pid(), None);
    assert_eq!(r.stop(), None);
    assert_eq!(r.config().output_dir, "/tmp");
}

#[test]
fn output_choice_needs_several_outputs_and_full_screen() {
    let mut c = RecordingConfig::new(two_outputs(), "/tmp".to_string());
    assert!(c.shows_output_choice());
    c.region = CaptureRegion::Selection;
    assert!(!c.shows_output_choice());
    let single = RecordingConfig::new(vec![output("DP-1", "x")], "/tmp".to_string());
    assert!(!single.shows_output_choice());
}

#[test]
fn apply_settings_copies_the_saved_choices() {
    let mut saved = wf_recorder_gui::config::Config::with_defaults(Some("/home/ann"), "/tmp");
    saved.format = OutputFormat::WebM;
    saved.audio = AudioSource::System;
    saved.region = CaptureRegion::Selection;
    let mut c = RecordingConfig::new(two_outputs(), "/tmp".to_string());
    c.set_selected_output(1);
    c.apply_settings(&saved);
    assert_eq!(c.format, OutputFormat::WebM);
    assert_eq!(c.audio, AudioSource::System);
    assert_eq!(c.region, CaptureRegion::Selection);
    assert_eq!(c.output_dir, "/home/ann/Videos/Screencasts");
    assert_eq!(c.available_outputs, two_outputs());
    assert_eq!(c.get_selected_output(), Some(&output("DP-2", "Right")));
}
