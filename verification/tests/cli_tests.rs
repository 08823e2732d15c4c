use layouts::arrange::Operation;
use layouts::cli::{active_pane, notifies_failure, parse_command, undo_file_name, unknown_action, Command};
use layouts::herdr::{move_outcome, swap_outcome, HerdrClient};
use layouts::operations::LayoutPreset;
use layouts::picker::undo_applied;

#[test]
fn actions_are_read_from_the_command_line() {
    assert!(matches!(parse_command("open", None), Ok(Command::Open)));
    assert!(matches!(parse_command("picker", None), Ok(Command::Picker)));
    assert!(matches!(parse_command("rotate", None), Ok(Command::Operate(Operation::Rotate))));
    assert!(matches!(
        parse_command("apply", Some("grid")),
        Ok(Command::Operate(Operation::Preset(LayoutPreset::Grid)))
    ));
    assert!(matches!(parse_command("shuffle", None), Ok(Command::Unknown(ref a)) if a == "shuffle"));
    assert_eq!(parse_command("apply", None).err().map(|e| e.describe()).as_deref(), Some("A layout name is required"));
    assert_eq!(
        parse_command("apply", Some("spiral")).err().map(|e| e.describe()).as_deref(),
        Some("Unknown layout: spiral")
    );
    assert_eq!(unknown_action("shuffle").describe(), "Unknown Arrange action: shuffle");
}

#[test]
fn the_picker_reports_its_own_failures() {
    assert!(!notifies_failure("picker"));
    assert!(notifies_failure("expand"));
}

#[test]
fn the_active_pane_prefers_the_origin() {
    assert_eq!(active_pane(Some("a".into()), Some("b".into())).ok(), Some("a".to_string()));
    assert_eq!(active_pane(None, Some("b".into())).ok(), Some("b".to_string()));
    assert_eq!(
        active_pane(None, None).err().map(|e| e.describe()).as_deref(),
        Some("The active Herdr pane is unavailable")
    );
}

#[test]
fn undo_records_are_kept_per_tab() {
    assert_eq!(undo_file_name("t7"), "undo-t7.json");
}

#[test]
fn herdr_outcomes_are_checked() {
    assert!(swap_outcome(Some(true), None).is_ok());
    assert_eq!(
        swap_outcome(Some(false), Some("busy".into())).err().map(|e| e.describe()).as_deref(),
        Some("Herdr did not swap panes: busy")
    );
    assert_eq!(
        move_outcome("p3", None, None).err().map(|e| e.describe()).as_deref(),
        Some("Herdr did not move pane p3: unknown reason")
    );
    assert!(HerdrClient::from_setting(None).is_err());
    assert_eq!(HerdrClient::from_setting(Some("/tmp/s".into())).map(|c| c.socket_path).ok().as_deref(), Some("/tmp/s"));
}

#[test]
fn an_undo_with_nothing_to_take_back_is_an_error_in_the_picker() {
    assert!(undo_applied(true).is_ok());
    assert_eq!(undo_applied(false).err().map(|e| e.describe()).as_deref(), Some("Nothing to undo"));
}
