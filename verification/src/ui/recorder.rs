//! The recorder button of the web user interface.
//!
//! The button shows what clicking it does in the current recorder state, and a
//! click sends the state change that its text names.

use vstd::prelude::*;
use crate::json::{RecorderState, RecorderStateChange};
use crate::recording::{spec_recorder_step, RecorderAction, RecorderEvent};
use crate::text::str_eq;

verus! {

/// Text of the recorder button in each recorder state.
pub open spec fn button_text(state: RecorderState) -> Seq<char> {
    match state {
        RecorderState::Stopped => "Record"@,
        RecorderState::Running => "Stop"@,
        RecorderState::Stopping => "Stopping"@,
    }
}

/// CSS class of the recorder button in each recorder state: the text in lower
/// case followed by `_button`.
pub open spec fn button_class(state: RecorderState) -> Seq<char> {
    match state {
        RecorderState::Stopped => "record_button"@,
        RecorderState::Running => "stop_button"@,
        RecorderState::Stopping => "stopping_button"@,
    }
}

/// What a click on a button with text `text` does: send a state change
/// (`Ok(Some(..))`), nothing while the recording stops (`Ok(None)`), or
/// nothing, reporting a text that no state shows (`Err(())`).
pub open spec fn button_click(text: Seq<char>) -> Result<Option<RecorderStateChange>, ()> {
    if text == "Record"@ {
        Ok(Some(RecorderStateChange::Start))
    } else if text == "Stop"@ {
        Ok(Some(RecorderStateChange::Stop))
    } else if text == "Stopping"@ {
        Ok(None)
    } else {
        Err(())
    }
}

/// Text that the recorder button shows in a recorder state.
pub fn recorder_button_text(state: RecorderState) -> (r: &'static str)
    ensures
        r@ == button_text(state),
{
    match state {
        RecorderState::Stopped => "Record",
        RecorderState::Running => "Stop",
        RecorderState::Stopping => "Stopping",
    }
}

/// CSS class that the recorder button has in a recorder state.
pub fn recorder_button_class(state: RecorderState) -> (r: &'static str)
    ensures
        r@ == button_class(state),
{
    match state {
        RecorderState::Stopped => "record_button",
        RecorderState::Running => "stop_button",
        RecorderState::Stopping => "stopping_button",
    }
}

/// Decides what a click on the recorder button does, given the text that the
/// button shows.
pub fn recorder_button_click(text: &str) -> (r: Result<Option<RecorderStateChange>, ()>)
    ensures
        r == button_click(text@),
{
    if str_eq(text, "Record") {
        Ok(Some(RecorderStateChange::Start))
    } else if str_eq(text, "Stop") {
        Ok(Some(RecorderStateChange::Stop))
    } else if str_eq(text, "Stopping") {
        Ok(None)
    } else {
        Err(())
    }
}

/// A click on the recorder button asks the recorder for what the button shows:
/// in the stopped state it starts a recording (when the buffer is free), in
/// the running state it stops the recording, and while the recording stops it
/// sends nothing.
pub proof fn lemma_button_click_does_what_it_shows(state: RecorderState, buffer_in_use: bool)
    ensures
        button_click(button_text(state)) is Ok,
        match button_click(button_text(state)) {
            Ok(Some(change)) => {
                let (next, action) = spec_recorder_step(state, RecorderEvent::Patch(Some(change)), buffer_in_use);
                &&& state == RecorderState::Stopped ==> (if buffer_in_use {
                    next == state && action == RecorderAction::RefuseBufferInUse
                } else {
                    next == RecorderState::Running && action == RecorderAction::Start
                })
                &&& state == RecorderState::Running ==> next == RecorderState::Stopping && action
                    == RecorderAction::Stop
                &&& state != RecorderState::Stopping
            },
            _ => state == RecorderState::Stopping,
        },
{
    reveal_strlit("Record");
    reveal_strlit("Stop");
    reveal_strlit("Stopping");
    assert("Record"@[1] != "Stop"@[1]);
    assert("Record"@.len() != "Stopping"@.len());
    assert("Stop"@.len() != "Stopping"@.len());
}

/// The recorder button reads `Record` while stopped, `Stop` while running and
/// `Stopping` while the recording stops, with the classes `record_button`,
/// `stop_button` and `stopping_button`.
pub proof fn lemma_button_texts()
    ensures
        button_text(RecorderState::Stopped) == "Record"@,
        button_text(RecorderState::Running) == "Stop"@,
        button_text(RecorderState::Stopping) == "Stopping"@,
        button_class(RecorderState::Stopped) == "record_button"@,
        button_class(RecorderState::Running) == "stop_button"@,
        button_class(RecorderState::Stopping) == "stopping_button"@,
        button_click("Record"@) == Ok::<Option<RecorderStateChange>, ()>(Some(RecorderStateChange::Start)),
        button_click("Stop"@) == Ok::<Option<RecorderStateChange>, ()>(Some(RecorderStateChange::Stop)),
        button_click("Stopping"@) == Ok::<Option<RecorderStateChange>, ()>(None),
{
    reveal_strlit("Record");
    reveal_strlit("Stop");
    reveal_strlit("Stopping");
    assert("Record"@[1] != "Stop"@[1]);
    assert("Record"@.len() != "Stopping"@.len());
    assert("Stop"@.len() != "Stopping"@.len());
}

} // verus!
