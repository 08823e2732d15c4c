use vstd::prelude::*;
use vstd::string::*;

use crate::arrange::Operation;
use crate::error::{message, AppError, ErrorModel};
use crate::operations::{preset_named, LayoutPreset};
use crate::text::same_text;

verus! {

pub const ACTION_REQUIRED: &'static str = "An Arrange action is required";

pub const LAYOUT_NAME_REQUIRED: &'static str = "A layout name is required";

pub const ACTIVE_PANE_UNAVAILABLE: &'static str = "The active Herdr pane is unavailable";

pub const SOCKET_PATH_MISSING: &'static str = "HERDR_SOCKET_PATH is missing";

pub const STATE_DIR_MISSING: &'static str = "HERDR_PLUGIN_STATE_DIR is missing";

/// The notice shown when undo found nothing to take back.
pub const NOTHING_TO_UNDO_NOTICE: &'static str = "Nothing to undo.";

/// What the command line asks for.
#[derive(Debug)]
pub enum Command {
    /// Open the picker in a popup pane.
    Open,
    /// Run the picker in this pane.
    Picker,
    /// Run an operation on the active tab.
    Operate(Operation),
    /// An action that does not exist.
    Unknown(String),
}

pub enum CommandModel {
    Open,
    Picker,
    Operate(crate::arrange::OperationModel),
    Unknown(Seq<char>),
}

impl View for Command {
    type V = CommandModel;

    open spec fn view(&self) -> CommandModel {
        match self {
            Command::Open => CommandModel::Open,
            Command::Picker => CommandModel::Picker,
            Command::Operate(op) => CommandModel::Operate(op@),
            Command::Unknown(action) => CommandModel::Unknown(action@),
        }
    }
}

/// The command for `action`; `layout_name` is the argument after it.
pub open spec fn spec_command(action: Seq<char>, layout_name: Option<Seq<char>>) -> Result<CommandModel, ErrorModel> {
    if action == "open"@ {
        Ok(CommandModel::Open)
    } else if action == "picker"@ {
        Ok(CommandModel::Picker)
    } else if action == "expand"@ {
        Ok(CommandModel::Operate(crate::arrange::OperationModel::Expand))
    } else if action == "balance"@ {
        Ok(CommandModel::Operate(crate::arrange::OperationModel::Balance))
    } else if action == "rotate"@ {
        Ok(CommandModel::Operate(crate::arrange::OperationModel::Rotate))
    } else if action == "undo"@ {
        Ok(CommandModel::Operate(crate::arrange::OperationModel::Undo))
    } else if action == "apply"@ {
        match layout_name {
            None => Err(ErrorModel::Message(LAYOUT_NAME_REQUIRED@)),
            Some(name) => match preset_named(name) {
                Some(preset) => Ok(CommandModel::Operate(crate::arrange::OperationModel::Preset(preset))),
                None => Err(ErrorModel::Message("Unknown layout: "@ + name)),
            },
        }
    } else {
        Ok(CommandModel::Unknown(action))
    }
}

/// Read the action and, for `apply`, the layout name after it.
pub fn parse_command(action: &str, layout_name: Option<&str>) -> (r: Result<Command, AppError>)
    ensures
        match r {
            Ok(c) => spec_command(action@, match layout_name {
                Some(n) => Some(n@),
                None => None,
            }) == Ok::<CommandModel, ErrorModel>(c@),
            Err(e) => spec_command(action@, match layout_name {
                Some(n) => Some(n@),
                None => None,
            }) == Err::<CommandModel, ErrorModel>(e@),
        },
{
    if same_text(action, "open") {
        Ok(Command::Open)
    } else if same_text(action, "picker") {
        Ok(Command::Picker)
    } else if same_text(action, "expand") {
        Ok(Command::Operate(Operation::Expand))
    } else if same_text(action, "balance") {
        Ok(Command::Operate(Operation::Balance))
    } else if same_text(action, "rotate") {
        Ok(Command::Operate(Operation::Rotate))
    } else if same_text(action, "undo") {
        Ok(Command::Operate(Operation::Undo))
    } else if same_text(action, "apply") {
        match layout_name {
            None => Err(message(LAYOUT_NAME_REQUIRED)),
            Some(name) => match LayoutPreset::from_name(name) {
                Some(preset) => Ok(Command::Operate(Operation::Preset(preset))),
                None => Err(AppError::Message("Unknown layout: ".to_owned().concat(name))),
            },
        }
    } else {
        Ok(Command::Unknown(action.to_owned()))
    }
}

/// The error for an action that does not exist.
pub fn unknown_action(action: &str) -> (e: AppError)
    ensures
        e@ == ErrorModel::Message("Unknown Arrange action: "@ + action@),
{
    AppError::Message("Unknown Arrange action: ".to_owned().concat(action))
}

/// Whether a failure of `action` is also shown as a notification: the
/// picker shows its own errors.
pub fn notifies_failure(action: &str) -> (r: bool)
    ensures
        r == (action@ != "picker"@),
{
    !same_text(action, "picker")
}

/// The pane Arrange works on: the one that opened the picker, else the
/// focused one.
pub fn active_pane(origin: Option<String>, current: Option<String>) -> (r: Result<String, AppError>)
    ensures
        match origin {
            Some(o) => r == Ok::<String, AppError>(o),
            None => match current {
                Some(c) => r == Ok::<String, AppError>(c),
                None => r is Err && r->Err_0@ == ErrorModel::Message(ACTIVE_PANE_UNAVAILABLE@),
            },
        },
{
    match origin {
        Some(o) => Ok(o),
        None => match current {
            Some(c) => Ok(c),
            None => Err(message(ACTIVE_PANE_UNAVAILABLE)),
        },
    }
}

/// The name of the file that keeps the undo record of a tab.
pub fn undo_file_name(tab_id: &str) -> (r: String)
    ensures
        r@ == "undo-"@ + tab_id@ + ".json"@,
{
    "undo-".to_owned().concat(tab_id).concat(".json")
}

/// A value read from the environment, or the error for its absence.
pub fn required_setting(value: Option<String>, missing: &str) -> (r: Result<String, AppError>)
    ensures
        match value {
            Some(v) => r == Ok::<String, AppError>(v),
            None => r is Err && r->Err_0@ == ErrorModel::Message(missing@),
        },
{
    match value {
        Some(v) => Ok(v),
        None => Err(message(missing)),
    }
}

} // verus!
