//! Editor requests that name gameplay actions.
use vstd::prelude::*;

use crate::editor_actions::spec_action_for_id;
use crate::playtest::InputAction;

verus! {

/// A request the editor cannot carry out.
#[derive(Debug)]
pub enum EditorApiError {
    UnknownActionId(String),
}

/// The action for an editor id; none for unknown ids.
pub fn action_from_id(id: &str) -> (r: Option<InputAction>)
    ensures
        r == spec_action_for_id(id@),
{
    crate::editor_actions::action_from_id(id)
}

/// The action for an editor id, or the error naming the unknown id.
pub fn action_or_error(id: &str) -> (r: Result<InputAction, EditorApiError>)
    ensures
        match r {
            Ok(a) => spec_action_for_id(id@) == Some(a),
            Err(EditorApiError::UnknownActionId(s)) => spec_action_for_id(id@) is None && s@ == id@,
        },
{
    match action_from_id(id) {
        Some(a) => Ok(a),
        None => Err(EditorApiError::UnknownActionId(id.to_owned())),
    }
}

} // verus!
