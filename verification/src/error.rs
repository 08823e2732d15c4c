use vstd::prelude::*;
use vstd::string::*;

verus! {

/// Why an Arrange operation was refused or failed.
#[derive(Debug)]
pub enum AppError {
    /// A refusal or failure explained by a sentence for the user.
    Message(String),
    /// Herdr answered a request with an error object.
    Herdr { code: String, message: String },
    /// Reading or writing failed; the text is the system's explanation.
    Io(String),
    /// A JSON document could not be read or written; the text explains why.
    Json(String),
}

/// An error as a mathematical value.
pub enum ErrorModel {
    Message(Seq<char>),
    Herdr(Seq<char>, Seq<char>),
    Io(Seq<char>),
    Json(Seq<char>),
}

impl ErrorModel {
    /// The sentence shown to the user.
    pub open spec fn text(self) -> Seq<char> {
        match self {
            ErrorModel::Message(m) => m,
            ErrorModel::Herdr(code, message) => "Herdr returned "@ + code + ": "@ + message,
            ErrorModel::Io(text) => text,
            ErrorModel::Json(text) => text,
        }
    }
}

impl View for AppError {
    type V = ErrorModel;

    open spec fn view(&self) -> ErrorModel {
        match self {
            AppError::Message(m) => ErrorModel::Message(m@),
            AppError::Herdr { code, message } => ErrorModel::Herdr(code@, message@),
            AppError::Io(text) => ErrorModel::Io(text@),
            AppError::Json(text) => ErrorModel::Json(text@),
        }
    }
}

pub const MISSING_PANE_ID: &'static str = "The layout contains a pane without an ID";

pub const STALE_SPLIT_PATH: &'static str = "The split path is no longer valid";

pub const SAME_SWAP_PANES: &'static str = "Choose two different panes to swap";

pub const SAME_DROP_TARGET: &'static str = "Choose a different pane as the drop target";

pub const LAYOUT_NEEDS_A_PANE: &'static str = "A layout needs at least one pane";

pub const TWO_TO_FOUR_PANES: &'static str = "Arrange supports two to four panes";

pub const GRID_NEEDS_FOUR: &'static str = "Grid requires four panes";

pub const NO_SPLIT_TO_ROTATE: &'static str = "The focused pane has no split to rotate";

pub const NO_SPLIT_TO_RESIZE: &'static str = "The focused pane has no split to resize";

pub const FOCUSED_SPLIT_GONE: &'static str = "The focused split no longer exists";

pub const FOCUSED_NOT_IN_LAYOUT: &'static str = "The focused pane is not in the current layout";

pub const UNZOOM_FIRST: &'static str = "Unzoom this tab to change its layout";

pub const WORKS_WITH_TWO_TO_FOUR: &'static str = "Arrange works with two to four panes";

pub const NOT_SAME_PANES: &'static str = "The requested layout does not contain the same panes";

pub const DROP_TARGET_GONE: &'static str = "The drop target is no longer available";

impl AppError {
    /// The error is a `Message` whose text is `text`.
    pub open spec fn is_message(self, text: Seq<char>) -> bool {
        self matches AppError::Message(m) && m@ == text
    }
}

/// A `Message` error carrying `text`.
pub fn message(text: &str) -> (e: AppError)
    ensures
        e.is_message(text@),
{
    AppError::Message(text.to_owned())
}

impl AppError {
    /// A copy of the error.
    pub fn duplicate(&self) -> (r: AppError)
        ensures
            r@ == self@,
    {
        match self {
            AppError::Message(m) => AppError::Message(m.clone()),
            AppError::Herdr { code, message } => AppError::Herdr { code: code.clone(), message: message.clone() },
            AppError::Io(text) => AppError::Io(text.clone()),
            AppError::Json(text) => AppError::Json(text.clone()),
        }
    }

    /// The sentence shown to the user.
    pub open spec fn spec_describe(self) -> Seq<char> {
        self@.text()
    }

    /// The sentence shown to the user.
    pub fn describe(&self) -> (r: String)
        ensures
            r@ == self.spec_describe(),
    {
        match self {
            AppError::Message(m) => m.clone(),
            AppError::Herdr { code, message } => {
                let text = "Herdr returned ".to_owned();
                let text = text.concat(code.as_str());
                let text = text.concat(": ");
                text.concat(message.as_str())
            },
            AppError::Io(text) => text.clone(),
            AppError::Json(text) => text.clone(),
        }
    }
}

} // verus!
