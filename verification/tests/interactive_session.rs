use rusty_wire::bands::ITURegion;
use rusty_wire::cli::interactive::{
    project_info_text, InteractiveSession, ProjectInfo, SessionAction, SessionPhase,
};

fn sample_info() -> ProjectInfo {
    ProjectInfo {
        version: "2.2.0".to_string(),
        authors: "A. Ham <a.ham@example.org>".to_string(),
        repository: "https://example.org/rusty-wire".to_string(),
        license: "GPL-2.0-or-later".to_string(),
        os: "linux".to_string(),
        arch: "x86_64".to_string(),
    }
}

/// Splits input the way a line reader hands it out: each line with its
/// newline, then the empty text at the end.
fn next_line(input: &str, pos: &mut usize) -> String {
    let rest = &input[*pos..];
    match rest.find('\n') {
        Some(i) => {
            *pos += i + 1;
            rest[..=i].to_string()
        }
        None => {
            *pos = input.len();
            rest.to_string()
        }
    }
}

/// Drives a session over the given input; calculations are not run here,
/// the dialog just resumes at the menu. Returns the text written and the
/// calculations asked for.
fn drive(input: &str) -> (String, Vec<(Vec<usize>, bool)>, InteractiveSession) {
    let (mut session, out) = InteractiveSession::start(sample_info());
    let mut rendered = out.text;
    let mut action = out.action;
    let mut pos = 0usize;
    let mut calculations = Vec::new();
    for _ in 0..1000 {
        match action {
            SessionAction::ReadLine => {
                let line = next_line(input, &mut pos);
                let o = session.step(&line);
                rendered.push_str(&o.text);
                action = o.action;
            }
            SessionAction::Calculate { indices, quick } => {
                calculations.push((indices, quick));
                let o = session.resume();
                rendered.push_str(&o.text);
                action = o.action;
            }
            SessionAction::Exit => break,
        }
    }
    (rendered, calculations, session)
}

fn run_interactive(input: &str) -> String {
    drive(input).0
}

#[test]
fn run_interactive_with_io_exits_cleanly() {
    let rendered = run_interactive("\n6\n");
    assert!(rendered.contains("Select option (1-6): "));
    assert!(rendered.contains("Exiting Rusty Wire."));
}

#[test]
fn run_interactive_with_io_exits_cleanly_on_eof_menu_input() {
    let rendered = run_interactive("");
    assert!(rendered.contains("Select option (1-6): "));
    assert!(rendered.contains("Exiting Rusty Wire."));
}

#[test]
fn run_interactive_with_io_about_menu_shows_project_info() {
    let rendered = run_interactive("\n5\n6\n");
    assert!(rendered.contains("Project info:"));
    assert!(rendered.contains("Version:"));
    assert!(rendered.contains("Author:"));
    assert!(rendered.contains("GitHub:"));
    assert!(rendered.contains("License:"));
    assert!(rendered.contains("Platform:"));
}

#[test]
fn run_interactive_with_io_can_switch_region() {
    let rendered = run_interactive("\n4\n2\n6\n");
    assert!(rendered.contains("Switched to ITU Region 2."));
    assert!(rendered.contains("List all bands (for Region 2)"));
}

#[test]
fn run_interactive_with_io_quick_calculation_invalid_number() {
    let rendered = run_interactive("\n3\nabc\n6\n");
    assert!(rendered.contains("Enter one band (e.g. 20m): "));
    assert!(rendered.contains("Invalid band. Use a single band name like 20m."));
}

#[test]
fn run_interactive_with_io_lists_bands_to_writer_output() {
    let rendered = run_interactive("\n1\n6\n");
    assert!(rendered.contains("Available bands in Region 1"));
}

#[test]
fn run_interactive_with_io_invalid_menu_option_shows_error() {
    let rendered = run_interactive("\n9\n6\n");
    assert!(rendered.contains("Invalid option. Try again."));
}

#[test]
fn run_interactive_with_io_option_4_changes_region() {
    let rendered = run_interactive("\n4\n3\n6\n");
    assert!(rendered.contains("Switched to ITU Region 3"));
}

#[test]
fn run_interactive_with_io_option_5_shows_project_info() {
    let rendered = run_interactive("\n5\n6\n");
    assert!(rendered.contains("Project info:"));
    assert!(rendered.contains("Version:"));
    assert!(rendered.contains("GitHub:"));
}

#[test]
fn calculate_selected_bands_with_defaults_rejects_invalid_csv_input() {
    let rendered = run_interactive("\n2\nabc,4\n6\n");
    assert!(rendered.contains("Invalid input. Use band names/ranges"));
}

// ---------------------------------------------------------------------------
// Further cases
// ---------------------------------------------------------------------------

#[test]
fn opening_text_has_banner_info_and_region_prompt() {
    let (_, out) = InteractiveSession::start(sample_info());
    assert!(out.text.starts_with(
        "============================================================\nRusty Wire v2.2.0 - Resonant Length and Skip Distance Calculator\n"
    ));
    assert!(out.text.ends_with("Select region (1/2/3, Enter for 1): "));
    assert!(matches!(out.action, SessionAction::ReadLine));
}

#[test]
fn project_info_lines() {
    assert_eq!(
        project_info_text(&sample_info()),
        "Project info:\n  Version: 2.2.0\n  Author: A. Ham <a.ham@example.org>\n  GitHub: https://example.org/rusty-wire\n  License: GPL-2.0-or-later\n  Platform: linux/x86_64\n"
    );
}

#[test]
fn selection_is_handed_to_the_calculation() {
    let (_, calcs, session) = drive("\n2\n40m,20m\n6\n");
    assert_eq!(calcs, vec![(vec![4, 6], false)]);
    assert_eq!(session.last_bands.as_deref(), Some("40m,20m"));
    assert_eq!(session.phase, SessionPhase::Finished);
}

#[test]
fn empty_selection_uses_default_band_set() {
    let (_, calcs, session) = drive("\n2\n\n6\n");
    assert_eq!(calcs, vec![(vec![4, 5, 6, 7, 8, 9, 10], false)]);
    assert_eq!(session.last_bands, None);
}

#[test]
fn blank_answer_reuses_last_bands() {
    let (rendered, calcs, _) = drive("\n3\n 20m \n3\n\n6\n");
    assert_eq!(calcs, vec![(vec![6], true), (vec![6], true)]);
    assert!(rendered.contains("Enter one band (e.g. 20m) [20m]: "));
}

#[test]
fn multi_band_prompt_shows_last_answer() {
    let (rendered, calcs, _) = drive("\n2\n40m,20m\n2\n\n6\n");
    assert_eq!(calcs, vec![(vec![4, 6], false), (vec![4, 6], false)]);
    assert!(rendered.contains(
        "Enter bands (e.g. 40m,20m,10m-15m; Enter for default set) [40m,20m]: "
    ));
}

#[test]
fn rejected_answer_is_not_remembered() {
    let (_, calcs, session) = drive("\n3\n20m\n3\nbanana\n6\n");
    assert_eq!(calcs, vec![(vec![6], true)]);
    assert_eq!(session.last_bands.as_deref(), Some("20m"));
}

#[test]
fn invalid_region_answer_falls_back_to_region_one() {
    let (rendered, _, session) = drive("7\n6\n");
    assert!(rendered.contains("Invalid region. Using default Region 1.\n"));
    assert_eq!(session.region, ITURegion::Region1);
}

#[test]
fn finished_session_stays_finished() {
    let (_, _, mut session) = drive("\n6\n");
    let out = session.step("1\n");
    assert!(matches!(out.action, SessionAction::Exit));
    assert_eq!(out.text, "");
    assert_eq!(session.phase, SessionPhase::Finished);
}

#[test]
fn blank_menu_line_is_not_end_of_input() {
    let rendered = run_interactive("\n\n6\n");
    assert!(rendered.contains("Invalid option. Try again."));
}

#[test]
fn region_stays_between_menu_answers() {
    let (_, calcs, session) = drive("\n4\n2\n1\n5\n9\n2\n20m\n6\n");
    assert_eq!(session.region, ITURegion::Region2);
    assert_eq!(calcs, vec![(vec![6], false)]);
}
