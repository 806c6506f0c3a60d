//! Recording options and the `wf-recorder` process that records with them.
use crate::config::Config;
use crate::outputs::AvailableOutput;
use crate::text::{
    chars_of, concat, find, same_text, first_occurrence, lines, lines_of, slice, string_of, trim, trimmed,
};
use vstd::prelude::*;

verus! {

/// The container format of a recording.
#[derive(Debug, Clone, Copy, PartialEq, Eq, Structural)]
pub enum OutputFormat {
    WebM,
    Mp4,
    Mkv,
}

/// What sound is recorded beside the picture.
#[derive(Debug, Clone, Copy, PartialEq, Eq, Structural)]
pub enum AudioSource {
    NoAudio,
    System,
    Microphone,
}

/// What part of the screen is recorded.
#[derive(Debug, Clone, Copy, PartialEq, Eq, Structural)]
pub enum CaptureRegion {
    FullScreen,
    Selection,
}

/// The file name extension of a format.
pub open spec fn extension_of(f: OutputFormat) -> Seq<char> {
    match f {
        OutputFormat::WebM => "webm"@,
        OutputFormat::Mp4 => "mp4"@,
        OutputFormat::Mkv => "mkv"@,
    }
}

/// The video codec that a format is encoded with.
pub open spec fn codec_of(f: OutputFormat) -> Seq<char> {
    match f {
        OutputFormat::WebM => "libvpx"@,
        OutputFormat::Mp4 => "libx264"@,
        OutputFormat::Mkv => "libx264"@,
    }
}

/// The short name of a format shown to the user.
pub open spec fn format_name_of(f: OutputFormat) -> Seq<char> {
    match f {
        OutputFormat::WebM => "WebM"@,
        OutputFormat::Mp4 => "MP4"@,
        OutputFormat::Mkv => "MKV"@,
    }
}

/// The description of a format offered in the format list.
pub open spec fn format_description_of(f: OutputFormat) -> Seq<char> {
    match f {
        OutputFormat::WebM => "WebM - Best for web"@,
        OutputFormat::Mp4 => "MP4 - Most compatible"@,
        OutputFormat::Mkv => "MKV - Best quality"@,
    }
}

/// The formats in the order the format list offers them.
pub open spec fn format_at(i: int) -> OutputFormat {
    if i == 0 {
        OutputFormat::WebM
    } else if i == 1 {
        OutputFormat::Mp4
    } else {
        OutputFormat::Mkv
    }
}

impl OutputFormat {
    /// The file name extension, without the dot.
    pub fn extension(&self) -> (r: &'static str)
        ensures
            r@ == extension_of(*self),
    {
        match self {
            OutputFormat::WebM => "webm",
            OutputFormat::Mp4 => "mp4",
            OutputFormat::Mkv => "mkv",
        }
    }

    /// Every format with its description, in the order the user is offered them.
    pub fn all() -> (r: Vec<(OutputFormat, &'static str)>)
        ensures
            r@.len() == 3,
            forall|i: int|
                0 <= i < 3 ==> #[trigger] r@[i].0 == format_at(i) && r@[i].1@
                    == format_description_of(format_at(i)),
    {
        let r = vec![
            (OutputFormat::WebM, "WebM - Best for web"),
            (OutputFormat::Mp4, "MP4 - Most compatible"),
            (OutputFormat::Mkv, "MKV - Best quality"),
        ];
        assert(r@[0].0 == format_at(0));
        assert(r@[1].0 == format_at(1));
        assert(r@[2].0 == format_at(2));
        r
    }

    /// The video codec handed to the recorder.
    pub fn codec(&self) -> (r: &'static str)
        ensures
            r@ == codec_of(*self),
    {
        match self {
            OutputFormat::WebM => "libvpx",
            OutputFormat::Mp4 => "libx264",
            OutputFormat::Mkv => "libx264",
        }
    }

    /// The short name shown to the user.
    pub fn name(&self) -> (r: &'static str)
        ensures
            r@ == format_name_of(*self),
    {
        match self {
            OutputFormat::WebM => "WebM",
            OutputFormat::Mp4 => "MP4",
            OutputFormat::Mkv => "MKV",
        }
    }
}

/// The name of an audio source shown to the user.
pub open spec fn audio_label_of(a: AudioSource) -> Seq<char> {
    match a {
        AudioSource::NoAudio => "No Audio"@,
        AudioSource::System => "System Audio"@,
        AudioSource::Microphone => "Microphone"@,
    }
}

impl AudioSource {
    /// The name shown to the user.
    pub fn label(&self) -> (r: &'static str)
        ensures
            r@ == audio_label_of(*self),
    {
        match self {
            AudioSource::NoAudio => "No Audio",
            AudioSource::System => "System Audio",
            AudioSource::Microphone => "Microphone",
        }
    }
}

/// The name of a capture region shown to the user.
pub open spec fn region_label_of(r: CaptureRegion) -> Seq<char> {
    match r {
        CaptureRegion::FullScreen => "Full Screen"@,
        CaptureRegion::Selection => "Select Region"@,
    }
}

impl CaptureRegion {
    /// The name shown to the user.
    pub fn label(&self) -> (r: &'static str)
        ensures
            r@ == region_label_of(*self),
    {
        match self {
            CaptureRegion::FullScreen => "Full Screen",
            CaptureRegion::Selection => "Select Region",
        }
    }
}

/// Everything a recording is made with.
#[derive(Debug, Clone)]
pub struct RecordingConfig {
    pub available_outputs: Vec<AvailableOutput>,
    pub selected_output: Option<AvailableOutput>,
    pub format: OutputFormat,
    pub audio: AudioSource,
    pub region: CaptureRegion,
    pub output_dir: String,
}

/// The first output named `name`, if any.
pub open spec fn first_named(outputs: Seq<AvailableOutput>, name: Seq<char>) -> Option<int> {
    if exists|i: int| 0 <= i < outputs.len() && #[trigger] outputs[i].output_name@ == name {
        Some(
            choose|i: int|
                0 <= i < outputs.len() && #[trigger] outputs[i].output_name@ == name && forall|
                    j: int,
                |
                    0 <= j < i ==> #[trigger] outputs[j].output_name@ != name,
        )
    } else {
        None
    }
}

impl RecordingConfig {
    /// The starting options over the outputs found: MP4, no audio, full
    /// screen, no output chosen.
    pub fn new(available_outputs: Vec<AvailableOutput>, output_dir: String) -> (r: Self)
        ensures
            r.available_outputs == available_outputs,
            r.selected_output is None,
            r.format == OutputFormat::Mp4,
            r.audio == AudioSource::NoAudio,
            r.region == CaptureRegion::FullScreen,
            r.output_dir == output_dir,
    {
        RecordingConfig {
            available_outputs,
            selected_output: None,
            format: OutputFormat::Mp4,
            audio: AudioSource::NoAudio,
            region: CaptureRegion::FullScreen,
            output_dir,
        }
    }

    /// As `new`, with no outputs where the listing failed.
    pub fn new_with_defaults(listed: Option<Vec<AvailableOutput>>, output_dir: String) -> (r: Self)
        ensures
            listed matches Some(v) ==> r.available_outputs == v,
            listed is None ==> r.available_outputs@.len() == 0,
            r.selected_output is None,
            r.format == OutputFormat::Mp4,
            r.audio == AudioSource::NoAudio,
            r.region == CaptureRegion::FullScreen,
            r.output_dir == output_dir,
    {
        let available_outputs = match listed {
            Some(v) => v,
            None => Vec::new(),
        };
        Self::new(available_outputs, output_dir)
    }

    /// More than one output can be chosen from.
    pub fn has_multiple_outputs(&self) -> (r: bool)
        ensures
            r == (self.available_outputs@.len() > 1),
    {
        self.available_outputs.len() > 1
    }

    /// The outputs that can be chosen from.
    pub fn get_available_outputs(&self) -> (r: &Vec<AvailableOutput>)
        ensures
            *r == self.available_outputs,
    {
        &self.available_outputs
    }

    /// Chooses the output at `index`; an index past the end changes nothing.
    pub fn set_selected_output(&mut self, index: usize)
        ensures
            index < old(self).available_outputs@.len() ==> final(self).selected_output == Some(
                old(self).available_outputs@[index as int],
            ),
            index >= old(self).available_outputs@.len() ==> *final(self) == *old(self),
            final(self).available_outputs == old(self).available_outputs,
            final(self).format == old(self).format,
            final(self).audio == old(self).audio,
            final(self).region == old(self).region,
            final(self).output_dir == old(self).output_dir,
    {
        if index < self.available_outputs.len() {
            let chosen = self.available_outputs[index].copied();
            self.selected_output = Some(chosen);
        }
    }

    /// Chooses the first output named `output_name`; an unknown name changes nothing.
    pub fn set_selected_output_by_name(&mut self, output_name: &str)
        ensures
            first_named(old(self).available_outputs@, output_name@) matches Some(i)
                ==> final(self).selected_output == Some(old(self).available_outputs@[i]),
            first_named(old(self).available_outputs@, output_name@) is None ==> *final(self)
                == *old(self),
            final(self).available_outputs == old(self).available_outputs,
            final(self).format == old(self).format,
            final(self).audio == old(self).audio,
            final(self).region == old(self).region,
            final(self).output_dir == old(self).output_dir,
    {
        let n = self.available_outputs.len();
        let mut i: usize = 0;
        while i < n
            invariant
                n == self.available_outputs@.len(),
                *self == *old(self),
                i <= n,
                forall|j: int|
                    0 <= j < i ==> #[trigger] self.available_outputs@[j].output_name@
                        != output_name@,
            decreases n - i,
        {
            if same_text(self.available_outputs[i].output_name.as_str(), output_name) {
                let chosen = self.available_outputs[i].copied();
                proof {
                    let outs = self.available_outputs@;
                    let k = first_named(outs, output_name@)->0;
                    assert(outs[i as int].output_name@ == output_name@);
                    if k < i {
                        assert(outs[k].output_name@ != output_name@);
                    } else if k > i {
                        assert(outs[i as int].output_name@ != output_name@);
                    }
                }
                self.selected_output = Some(chosen);
                return ;
            }
            i = i + 1;
        }
    }

    /// The chosen output, if any.
    pub fn get_selected_output(&self) -> (r: Option<&AvailableOutput>)
        ensures
            r matches Some(o) ==> self.selected_output == Some(*o),
            r is None <==> self.selected_output is None,
    {
        match &self.selected_output {
            Some(o) => Some(o),
            None => None,
        }
    }

    /// Whether the settings offer a choice of output: there is more than one,
    /// and the whole screen is recorded.
    pub fn shows_output_choice(&self) -> (r: bool)
        ensures
            r == (self.available_outputs@.len() > 1 && self.region == CaptureRegion::FullScreen),
    {
        self.has_multiple_outputs() && self.region == CaptureRegion::FullScreen
    }

    /// Takes format, audio, region and output directory from the saved settings.
    pub fn apply_settings(&mut self, settings: &Config)
        ensures
            final(self).format == settings.format,
            final(self).audio == settings.audio,
            final(self).region == settings.region,
            final(self).output_dir == settings.output_dir,
            final(self).available_outputs == old(self).available_outputs,
            final(self).selected_output == old(self).selected_output,
    {
        self.format = settings.format;
        self.audio = settings.audio;
        self.region = settings.region;
        self.output_dir = settings.output_dir.clone();
    }

    /// Chooses the first output when none is chosen yet and there is one.
    pub fn ensure_output_selected(&mut self)
        ensures
            old(self).selected_output is None && old(self).available_outputs@.len() > 0
                ==> final(self).selected_output == Some(old(self).available_outputs@[0]),
            !(old(self).selected_output is None && old(self).available_outputs@.len() > 0)
                ==> *final(self) == *old(self),
            final(self).available_outputs == old(self).available_outputs,
            final(self).format == old(self).format,
            final(self).audio == old(self).audio,
            final(self).region == old(self).region,
            final(self).output_dir == old(self).output_dir,
    {
        if self.selected_output.is_none() && self.available_outputs.len() > 0 {
            let first = self.available_outputs[0].copied();
            self.selected_output = Some(first);
        }
    }
}

/// `name` placed inside directory `dir`.
pub open spec fn joined_path(dir: Seq<char>, name: Seq<char>) -> Seq<char> {
    if dir.len() == 0 || dir.last() == '/' {
        dir + name
    } else {
        dir + seq!['/'] + name
    }
}

/// The file name of a recording started at `timestamp`.
pub open spec fn recording_file_name(timestamp: Seq<char>, f: OutputFormat) -> Seq<char> {
    "recording_"@ + timestamp + "."@ + extension_of(f)
}

/// The text of a line before its first tab.
pub open spec fn first_field(line: Seq<char>) -> Seq<char> {
    match first_occurrence(line, "\t"@) {
        Some(k) => line.take(k as int),
        None => line,
    }
}

/// The source that `pactl list sources short` lists first, if it lists any.
pub open spec fn default_source_of(sources: Seq<char>) -> Option<Seq<char>> {
    if lines_of(sources).len() == 0 {
        None
    } else {
        Some(first_field(lines_of(sources)[0]))
    }
}

/// The recorder's audio arguments.
pub open spec fn audio_args(a: AudioSource, sources: Seq<char>) -> Seq<Seq<char>> {
    match a {
        AudioSource::NoAudio => Seq::empty(),
        AudioSource::System => seq!["-a"@],
        AudioSource::Microphone => match default_source_of(sources) {
            Some(m) => seq!["-a"@, m],
            None => Seq::empty(),
        },
    }
}

/// The recorder's region arguments: the selected geometry, or the chosen
/// output where there is more than one.
pub open spec fn region_args(c: RecordingConfig, selection: Seq<char>) -> Seq<Seq<char>> {
    match c.region {
        CaptureRegion::Selection => seq!["-g"@, trimmed(selection)],
        CaptureRegion::FullScreen => {
            if c.available_outputs@.len() > 1 && c.selected_output is Some {
                seq!["-o"@, c.selected_output->0.output_name@]
            } else {
                Seq::empty()
            }
        },
    }
}

/// The whole command line handed to `wf-recorder`, without the program name.
pub open spec fn recorder_args(
    c: RecordingConfig,
    output_file: Seq<char>,
    sources: Seq<char>,
    selection: Seq<char>,
) -> Seq<Seq<char>> {
    seq!["-f"@, output_file, "--codec"@, codec_of(c.format)] + audio_args(c.audio, sources)
        + region_args(c, selection)
}

/// The views of a vector of strings.
pub open spec fn string_views(v: Seq<String>) -> Seq<Seq<char>> {
    v.map_values(|s: String| s@)
}

/// A recording's file name over a timestamp without `/` holds no `/`, so it
/// names a file directly inside the output directory.
pub proof fn lemma_file_name_has_no_separator(timestamp: Seq<char>, f: OutputFormat)
    requires
        forall|i: int| 0 <= i < timestamp.len() ==> #[trigger] timestamp[i] != '/',
    ensures
        forall|i: int|
            0 <= i < recording_file_name(timestamp, f).len() ==> #[trigger] recording_file_name(
                timestamp,
                f,
            )[i] != '/',
{
    reveal_strlit("recording_");
    reveal_strlit(".");
    reveal_strlit("webm");
    reveal_strlit("mp4");
    reveal_strlit("mkv");
    let name = recording_file_name(timestamp, f);
    let a = "recording_"@;
    let b = "."@;
    let e = extension_of(f);
    assert forall|i: int| 0 <= i < name.len() implies #[trigger] name[i] != '/' by {
        if i < a.len() {
            assert(name[i] == a[i]);
        } else if i < a.len() + timestamp.len() {
            assert(name[i] == timestamp[i - a.len()]);
        } else if i < a.len() + timestamp.len() + 1 {
            assert(name[i] == b[0]);
        } else {
            assert(name[i] == e[i - a.len() - timestamp.len() - 1]);
        }
    }
}


/// `name` inside `dir`, as text.
pub fn join_path(dir: &str, name: &str) -> (r: String)
    ensures
        r@ == joined_path(dir@, name@),
{
    let d = chars_of(dir);
    let n = chars_of(name);
    let path = if d.len() == 0 || d[d.len() - 1] == '/' {
        concat(&d, &n)
    } else {
        proof {
            reveal_strlit("/");
        }
        concat(&concat(&d, &chars_of("/")), &n)
    };
    string_of(&path)
}

/// The path of the recording file started at `timestamp` in `output_dir`.
pub fn recording_path(output_dir: &str, timestamp: &str, format: OutputFormat) -> (r: String)
    ensures
        r@ == joined_path(output_dir@, recording_file_name(timestamp@, format)),
{
    let name = concat(
        &concat(&concat(&chars_of("recording_"), &chars_of(timestamp)), &chars_of(".")),
        &chars_of(format.extension()),
    );
    join_path(output_dir, string_of(&name).as_str())
}

/// The first source in a `pactl list sources short` report, if any.
pub fn default_source(sources: &str) -> (r: Option<String>)
    ensures
        r matches Some(m) ==> default_source_of(sources@) == Some(m@),
        r is None <==> default_source_of(sources@) is None,
{
    let ls = lines(&chars_of(sources));
    if ls.len() == 0 {
        return None;
    }
    let first = &ls[0];
    let tab = chars_of("\t");
    match find(first, &tab) {
        Some(k) => Some(string_of(&slice(first, 0, k))),
        None => Some(string_of(first)),
    }
}

/// A process of the recorder, started with one set of options.
#[derive(Debug, Clone)]
pub struct Recorder {
    config: RecordingConfig,
    pid: Option<u32>,
}

impl Recorder {
    /// The options this recorder records with.
    pub closed spec fn recording_config(&self) -> RecordingConfig {
        self.config
    }

    /// The id of the running recorder process, if one was started and not stopped.
    pub closed spec fn process(&self) -> Option<u32> {
        self.pid
    }

    /// A recorder that has not started.
    pub fn new(config: RecordingConfig) -> (r: Self)
        ensures
            r.recording_config() == config,
            r.process() is None,
    {
        Recorder { config, pid: None }
    }

    /// The options this recorder records with.
    pub fn config(&self) -> (r: &RecordingConfig)
        ensures
            *r == self.recording_config(),
    {
        &self.config
    }

    /// The id of the running recorder process, if any.
    pub fn pid(&self) -> (r: Option<u32>)
        ensures
            r == self.process(),
    {
        self.pid
    }

    /// The path of the file this recorder writes, for a recording started
    /// at `timestamp` (the local time as `%Y%m%d_%H%M%S`). With a timestamp
    /// without `/` it lies directly inside the output directory: see
    /// `lemma_file_name_has_no_separator`.
    pub fn generate_filename(&self, timestamp: &str) -> (r: String)
        ensures
            r@ == joined_path(
                self.recording_config().output_dir@,
                recording_file_name(timestamp@, self.recording_config().format),
            ),
    {
        recording_path(self.config.output_dir.as_str(), timestamp, self.config.format)
    }

    /// The arguments that start `wf-recorder` writing to `output_file`.
    /// `sources` is what `pactl list sources short` printed and is read only
    /// when recording the microphone; `selection` is what the region picker
    /// printed and is read only when recording a region.
    pub fn command_args(&self, output_file: &str, sources: &str, selection: &str) -> (r: Vec<
        String,
    >)
        ensures
            string_views(r@) == recorder_args(
                self.recording_config(),
                output_file@,
                sources@,
                selection@,
            ),
    {
        let mut args: Vec<String> = Vec::new();
        args.push("-f".to_owned());
        args.push(output_file.to_owned());
        args.push("--codec".to_owned());
        args.push(self.config.format.codec().to_owned());
        let ghost base = string_views(args@);
        assert(base =~= seq!["-f"@, output_file@, "--codec"@, codec_of(self.config.format)]);
        match self.config.audio {
            AudioSource::NoAudio => {},
            AudioSource::System => {
                args.push("-a".to_owned());
            },
            AudioSource::Microphone => {
                match default_source(sources) {
                    Some(m) => {
                        args.push("-a".to_owned());
                        args.push(m);
                    },
                    None => {},
                }
            },
        }
        let ghost with_audio = string_views(args@);
        assert(with_audio =~= base + audio_args(self.config.audio, sources@));
        match self.config.region {
            CaptureRegion::Selection => {
                let geometry = trim(&chars_of(selection));
                args.push("-g".to_owned());
                args.push(string_of(&geometry));
            },
            CaptureRegion::FullScreen => {
                if self.config.has_multiple_outputs() {
                    match self.config.get_selected_output() {
                        Some(o) => {
                            args.push("-o".to_owned());
                            args.push(o.output_name.clone());
                        },
                        None => {},
                    }
                }
            },
        }
        assert(string_views(args@) =~= with_audio + region_args(self.config, selection@));
        args
    }

    /// Records that the recorder process `pid` was started.
    pub fn mark_started(&mut self, pid: u32)
        ensures
            final(self).process() == Some(pid),
            final(self).recording_config() == old(self).recording_config(),
    {
        self.pid = Some(pid);
    }

    /// Forgets the running process and hands back its id, which the caller
    /// signals to stop; `None` when nothing runs.
    pub fn stop(&mut self) -> (r: Option<u32>)
        ensures
            r == old(self).process(),
            final(self).process() is None,
            final(self).recording_config() == old(self).recording_config(),
    {
        self.pid.take()
    }
}

} // verus!
