use vstd::prelude::*;
use vstd::string::*;

use crate::error::{message, AppError};

verus! {

/// Where Herdr listens for requests from this plugin.
#[derive(Debug)]
pub struct HerdrClient {
    pub socket_path: String,
}

impl HerdrClient {
    /// A client for the socket named by the environment, or the error for
    /// its absence.
    pub fn from_setting(socket_path: Option<String>) -> (r: Result<HerdrClient, AppError>)
        ensures
            match socket_path {
                Some(path) => r matches Ok(client) && client.socket_path == path,
                None => r is Err && r->Err_0.is_message(crate::cli::SOCKET_PATH_MISSING@),
            },
    {
        match socket_path {
            Some(path) => Ok(HerdrClient { socket_path: path }),
            None => Err(message(crate::cli::SOCKET_PATH_MISSING)),
        }
    }
}

pub const EMPTY_RESPONSE: &'static str = "Herdr returned an empty response";

pub const UNKNOWN_REASON: &'static str = "unknown reason";

/// The outcome of a Herdr request: its error when it has one, else its
/// result; a response with neither is an error too.
pub fn response_outcome<T>(result: Option<T>, error: Option<(String, String)>) -> (r: Result<
    T,
    AppError,
>)
    ensures
        match error {
            Some((code, text)) => r matches Err(AppError::Herdr { code: c, message: m }) && c@
                == code@ && m@ == text@,
            None => match result {
                Some(v) => r == Ok::<T, AppError>(v),
                None => r is Err && r->Err_0.is_message(EMPTY_RESPONSE@),
            },
        },
{
    match error {
        Some((code, text)) => Err(AppError::Herdr { code, message: text }),
        None => match result {
            Some(v) => Ok(v),
            None => Err(message(EMPTY_RESPONSE)),
        },
    }
}

/// The reason Herdr gave, or a stand-in when it gave none.
pub open spec fn reason_text(reason: Option<Seq<char>>) -> Seq<char> {
    match reason {
        Some(text) => text,
        None => UNKNOWN_REASON@,
    }
}

fn reason_or_unknown(reason: Option<String>) -> (r: String)
    ensures
        r@ == reason_text(reason.deep_view()),
{
    match reason {
        Some(text) => text,
        None => UNKNOWN_REASON.to_owned(),
    }
}

/// Whether a swap request took effect; Herdr reports it in `swap.changed`.
pub fn swap_outcome(changed: Option<bool>, reason: Option<String>) -> (r: Result<(), AppError>)
    ensures
        changed == Some(true) ==> r is Ok,
        changed != Some(true) ==> r is Err && r->Err_0.is_message(
            "Herdr did not swap panes: "@ + reason_text(reason.deep_view()),
        ),
{
    if changed == Some(true) {
        return Ok(());
    }
    let text = "Herdr did not swap panes: ".to_owned();
    Err(AppError::Message(text.concat(reason_or_unknown(reason).as_str())))
}

/// Whether a move request took effect; Herdr reports it in `move_result.changed`.
pub fn move_outcome(pane_id: &str, changed: Option<bool>, reason: Option<String>) -> (r: Result<
    (),
    AppError,
>)
    ensures
        changed == Some(true) ==> r is Ok,
        changed != Some(true) ==> r is Err && r->Err_0.is_message(
            "Herdr did not move pane "@ + pane_id@ + ": "@ + reason_text(reason.deep_view()),
        ),
{
    if changed == Some(true) {
        return Ok(());
    }
    let text = "Herdr did not move pane ".to_owned();
    let text = text.concat(pane_id);
    let text = text.concat(": ");
    Err(AppError::Message(text.concat(reason_or_unknown(reason).as_str())))
}

/// The keys of a path into a response, joined by dots.
pub open spec fn dotted(keys: Seq<Seq<char>>) -> Seq<char>
    decreases keys.len(),
{
    if keys.len() == 0 {
        Seq::empty()
    } else if keys.len() == 1 {
        keys[0]
    } else {
        dotted(keys.drop_last()) + "."@ + keys.last()
    }
}

/// The error for a response that lacks the text at `path`.
pub fn missing_field(path: &[&str]) -> (e: AppError)
    ensures
        e.is_message("Herdr response is missing "@ + dotted(path.deep_view())),
{
    let mut joined = String::new();
    for i in 0..path.len()
        invariant
            joined@ == dotted(path.deep_view().take(i as int)),
    {
        assert(path.deep_view().take(i + 1).drop_last() =~= path.deep_view().take(i as int));
        if i == 0 {
            joined = path[0].to_owned();
            assert(path.deep_view().take(1)[0] == path@[0]@);
        } else {
            joined = joined.concat(".");
            joined = joined.concat(path[i]);
        }
    }
    assert(path.deep_view().take(path.len() as int) =~= path.deep_view());
    let text = "Herdr response is missing ".to_owned();
    AppError::Message(text.concat(joined.as_str()))
}

} // verus!
