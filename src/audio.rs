//! Audio sources as `pactl list sources` reports them.
use crate::text::{begins_with, chars_of, lines, lines_of, slice, starts_with, string_of, trim, trimmed, views};
use vstd::prelude::*;

verus! {

/// One audio source: its system name and its description.
#[derive(Debug, Clone)]
pub struct AudioDevice {
    pub name: String,
    pub description: String,
}

/// Where the reading of a report stands: the sources read to the end, and
/// the one being read.
pub struct ReportState {
    pub done: Seq<(Seq<char>, Seq<char>)>,
    pub current: Option<(Seq<char>, Seq<char>)>,
}

/// Reads one line: `Source #` opens a new source; inside a source, a trimmed
/// line that begins with `Name: ` or `Description: ` sets that field.
pub open spec fn read_line(st: ReportState, line: Seq<char>) -> ReportState {
    if begins_with(line, "Source #"@) {
        ReportState {
            done: match st.current {
                Some(d) => st.done.push(d),
                None => st.done,
            },
            current: Some((Seq::empty(), Seq::empty())),
        }
    } else {
        match st.current {
            None => st,
            Some(d) => {
                let t = trimmed(line);
                if begins_with(t, "Name: "@) {
                    ReportState { current: Some((t.skip("Name: "@.len() as int), d.1)), ..st }
                } else if begins_with(t, "Description: "@) {
                    ReportState {
                        current: Some((d.0, t.skip("Description: "@.len() as int))),
                        ..st
                    }
                } else {
                    st
                }
            },
        }
    }
}

/// The state after reading `ls` in order.
pub open spec fn read_lines(ls: Seq<Seq<char>>) -> ReportState
    decreases ls.len(),
{
    if ls.len() == 0 {
        ReportState { done: Seq::empty(), current: None }
    } else {
        read_line(read_lines(ls.drop_last()), ls.last())
    }
}

/// The sources that a `pactl list sources` report lists, in order.
pub open spec fn devices_in(report: Seq<char>) -> Seq<(Seq<char>, Seq<char>)> {
    let st = read_lines(lines_of(report));
    match st.current {
        Some(d) => st.done.push(d),
        None => st.done,
    }
}

/// The name and description of a source.
pub open spec fn device_views(v: Seq<AudioDevice>) -> Seq<(Seq<char>, Seq<char>)> {
    v.map_values(|d: AudioDevice| (d.name@, d.description@))
}

/// The sources that a `pactl list sources` report lists.
pub fn parse_audio_devices(output: &str) -> (r: Vec<AudioDevice>)
    ensures
        device_views(r@) == devices_in(output@),
{
    let ls = lines(&chars_of(output));
    let source_tag = chars_of("Source #");
    let name_tag = chars_of("Name: ");
    let desc_tag = chars_of("Description: ");
    let mut devices: Vec<AudioDevice> = Vec::new();
    let mut current: Option<AudioDevice> = None;
    let mut i: usize = 0;
    while i < ls.len()
        invariant
            i <= ls@.len(),
            views(ls@) == lines_of(output@),
            source_tag@ == "Source #"@,
            name_tag@ == "Name: "@,
            desc_tag@ == "Description: "@,
            device_views(devices@) == read_lines(views(ls@).take(i as int)).done,
            match current {
                Some(d) => read_lines(views(ls@).take(i as int)).current == Some(
                    (d.name@, d.description@),
                ),
                None => read_lines(views(ls@).take(i as int)).current is None,
            },
        decreases ls@.len() - i,
    {
        let line = &ls[i];
        proof {
            let vs = views(ls@);
            assert(vs.take(i + 1).drop_last() =~= vs.take(i as int));
            assert(vs.take(i + 1).last() == line@);
        }
        if starts_with(line, &source_tag) {
            match current {
                Some(d) => {
                    devices.push(d);
                    assert(device_views(devices@) =~= read_lines(views(ls@).take(i + 1)).done);
                },
                None => {},
            }
            current = Some(AudioDevice { name: String::new(), description: String::new() });
        } else {
            match current {
                None => {},
                Some(mut d) => {
                    let t = trim(line);
                    if starts_with(&t, &name_tag) {
                        d.name = string_of(&slice(&t, name_tag.len(), t.len()));
                        assert(d.name@ =~= t@.skip("Name: "@.len() as int));
                    } else if starts_with(&t, &desc_tag) {
                        d.description = string_of(&slice(&t, desc_tag.len(), t.len()));
                        assert(d.description@ =~= t@.skip("Description: "@.len() as int));
                    }
                    current = Some(d);
                },
            }
        }
        i = i + 1;
    }
    assert(views(ls@).take(ls@.len() as int) =~= views(ls@));
    match current {
        Some(d) => {
            devices.push(d);
        },
        None => {},
    }
    assert(device_views(devices@) =~= devices_in(output@));
    devices
}

} // verus!
