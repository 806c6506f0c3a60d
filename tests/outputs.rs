use wf_recorder_gui::outputs::AvailableOutput;

fn output(name: &str, description: &str) -> AvailableOutput {
    AvailableOutput { output_name: name.to_string(), description: description.to_string() }
}

#[test]
fn parse_line_reads_name_and_description() {
    let line = "Name: HDMI-A-1 Description: Dell Inc. DELL U2720Q ABC123 (HDMI-A-1)";
    let parsed = AvailableOutput::parse_line(line).expect("a described output");
    assert_eq!(parsed.output_name, "HDMI-A-1");
    assert_eq!(parsed.description, "Dell Inc. DELL U2720Q ABC123 (HDMI-A-1)");
}

#[test]
fn parse_line_skips_a_prefix() {
    let parsed = AvailableOutput::parse_line("0. Name: eDP-1 Description: Built-in display").unwrap();
    assert_eq!(parsed, output("eDP-1", "Built-in display"));
}

#[test]
fn parse_line_without_name_is_none() {
    assert_eq!(AvailableOutput::parse_line("Description: only a description"), None);
    assert_eq!(AvailableOutput::parse_line(""), None);
}

#[test]
fn parse_line_without_description_is_none() {
    assert_eq!(AvailableOutput::parse_line("Name: DP-2"), None);
    assert_eq!(AvailableOutput::parse_line("Name: DP-2 Description:"), None);
}

#[test]
fn parse_line_with_empty_description() {
    let parsed = AvailableOutput::parse_line("Name: DP-2 Description: ").unwrap();
    assert_eq!(parsed, output("DP-2", ""));
}

#[test]
fn parse_report_keeps_described_lines_in_order() {
    let report = "Available outputs:\nName: DP-1 Description: Left screen\r\ngarbage\nName: DP-2 Description: Right screen\n";
    let outputs = AvailableOutput::parse_report(report);
    assert_eq!(outputs, vec![output("DP-1", "Left screen"), output("DP-2", "Right screen")]);
}

#[test]
fn parse_report_of_nothing_is_empty() {
    assert!(AvailableOutput::parse_report("").is_empty());
    assert!(AvailableOutput::parse_report("no outputs here\n").is_empty());
}

#[test]
fn display_name_keeps_three_words() {
    let o = output("HDMI-A-1", "Dell Inc. DELL U2720Q ABC123");
    assert_eq!(o.display_name(), "HDMI-A-1 (Dell Inc. DELL)");
}

#[test]
fn display_name_collapses_white_space() {
    let o = output("eDP-1", "  Built-in \t  panel ");
    assert_eq!(o.display_name(), "eDP-1 (Built-in panel)");
}

#[test]
fn display_name_with_empty_description() {
    assert_eq!(output("DP-3", "").display_name(), "DP-3 ()");
}

#[test]
fn copied_output_is_equal() {
    let o = output("DP-1", "Left");
    assert_eq!(o.copied(), o);
}

#[test]
fn written_line_reads_back() {
    let line = format!("Name: {} Description: {}", "HDMI-A-1", "Name: odd Description: text");
    let parsed = AvailableOutput::parse_line(&line).unwrap();
    assert_eq!(parsed.output_name, "HDMI-A-1");
    assert_eq!(parsed.description, "Name: odd Description: text");
}

#[test]
fn name_with_a_colon_reads_back() {
    let parsed = AvailableOutput::parse_line("Name: a:b Description: x").unwrap();
    assert_eq!(parsed, output("a:b", "x"));
}
