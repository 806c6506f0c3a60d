//! The settings the user chose, which are kept between runs.
use crate::recorder::{join_path, joined_path, AudioSource, CaptureRegion, OutputFormat};
use crate::text::{chars_of, concat, find, first_occurrence, slice, string_of};
use vstd::prelude::*;
use vstd::string::StringSliceAdditionalSpecFns;
use vstd::utf8::{decode_utf8, encode_utf8_decode_utf8, is_char_boundary};

verus! {

/// The saved settings.
#[derive(Debug, Clone)]
pub struct Config {
    pub output_dir: String,
    pub format: OutputFormat,
    pub audio: AudioSource,
    pub region: CaptureRegion,
}

/// A path that names the usual screencast folder.
pub open spec fn names_screencast_dir(path: Seq<char>) -> bool {
    first_occurrence(path, "Videos/Screencasts"@) is Some
}

/// Whether `path` names the usual screencast folder, which is created when missing.
pub fn is_screencast_dir(path: &str) -> (r: bool)
    ensures
        r == names_screencast_dir(path@),
{
    find(&chars_of(path), &chars_of("Videos/Screencasts")).is_some()
}

/// The first character boundary of `bytes` at `i` or later, or the length.
pub open spec fn boundary_from(bytes: Seq<u8>, i: int) -> int
    decreases bytes.len() - i,
{
    if i >= bytes.len() || is_char_boundary(bytes, i) {
        i
    } else {
        boundary_from(bytes, i + 1)
    }
}

/// A path as the settings show it, given its UTF-8 bytes: one longer than 35
/// bytes keeps its last 32 bytes after `...`, the cut moved forward to the
/// next character boundary where it would fall inside a character.
pub open spec fn shortened(bytes: Seq<u8>) -> Seq<char> {
    if bytes.len() > 35 {
        "..."@ + decode_utf8(
            bytes.subrange(boundary_from(bytes, bytes.len() - 32), bytes.len() as int),
        )
    } else {
        decode_utf8(bytes)
    }
}

/// A path as the settings show it.
pub fn shorten_path(path: &str) -> (r: String)
    ensures
        r@ == shortened(path.spec_bytes()),
{
    let ghost bytes = path.spec_bytes();
    proof {
        encode_utf8_decode_utf8(path@);
    }
    let n = path.as_bytes().len();
    if n <= 35 {
        return path.to_owned();
    }
    let mut cut: usize = n - 32;
    assert(boundary_from(bytes, n - 32) == boundary_from(bytes, cut as int));
    while cut < n && !path.is_char_boundary(cut)
        invariant
            n == bytes.len(),
            bytes == path.spec_bytes(),
            n - 32 <= cut <= n,
            boundary_from(bytes, n - 32) == boundary_from(bytes, cut as int),
        decreases n - cut,
    {
        cut = cut + 1;
    }
    let dots = chars_of("...");
    if cut == n {
        assert(bytes.subrange(n as int, n as int) =~= Seq::<u8>::empty());
        return string_of(&dots);
    }
    let (_, tail) = path.split_at(cut);
    proof {
        encode_utf8_decode_utf8(tail@);
    }
    string_of(&concat(&dots, &chars_of(tail)))
}

impl Config {
    /// The settings of a first run: MP4, no audio, full screen, saved in
    /// `Videos/Screencasts` under the home directory, or in the temporary
    /// directory when there is no home.
    pub fn with_defaults(home_dir: Option<&str>, temp_dir: &str) -> (r: Config)
        ensures
            home_dir matches Some(h) ==> r.output_dir@ == joined_path(h@, "Videos/Screencasts"@),
            home_dir is None ==> r.output_dir@ == temp_dir@,
            r.format == OutputFormat::Mp4,
            r.audio == AudioSource::NoAudio,
            r.region == CaptureRegion::FullScreen,
    {
        let output_dir = match home_dir {
            Some(h) => join_path(h, "Videos/Screencasts"),
            None => temp_dir.to_owned(),
        };
        Config {
            output_dir,
            format: OutputFormat::Mp4,
            audio: AudioSource::NoAudio,
            region: CaptureRegion::FullScreen,
        }
    }

    /// The directory of this program's settings inside the user's
    /// configuration directory.
    pub fn config_dir(base_dir: &str) -> (r: String)
        ensures
            r@ == joined_path(base_dir@, "wf-recorder-gui"@),
    {
        join_path(base_dir, "wf-recorder-gui")
    }

    /// The settings file inside the settings directory.
    pub fn config_path(config_dir: &str) -> (r: String)
        ensures
            r@ == joined_path(config_dir@, "config.json"@),
    {
        join_path(config_dir, "config.json")
    }

    /// Keeps the saved output directory where it exists, and otherwise
    /// falls back to `default_dir`.
    pub fn settle_output_dir(&mut self, exists: bool, default_dir: String)
        ensures
            exists ==> *final(self) == *old(self),
            !exists ==> final(self).output_dir == default_dir,
            final(self).format == old(self).format,
            final(self).audio == old(self).audio,
            final(self).region == old(self).region,
    {
        if !exists {
            self.output_dir = default_dir;
        }
    }
}

} // verus!
