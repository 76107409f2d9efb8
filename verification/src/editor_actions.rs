//! The editor's named gameplay actions.
use vstd::prelude::*;

use crate::playtest::InputAction;

verus! {

/// The action named by an editor id.
pub open spec fn spec_action_for_id(id: Seq<char>) -> Option<InputAction> {
    if id == "moveLeft"@ {
        Some(InputAction::MoveLeft)
    } else if id == "moveRight"@ {
        Some(InputAction::MoveRight)
    } else if id == "softDrop"@ {
        Some(InputAction::SoftDrop)
    } else if id == "rotateCw"@ {
        Some(InputAction::RotateCw)
    } else if id == "rotateCcw"@ {
        Some(InputAction::RotateCcw)
    } else if id == "rotate180"@ {
        Some(InputAction::Rotate180)
    } else if id == "hardDrop"@ {
        Some(InputAction::HardDrop)
    } else if id == "hold"@ {
        Some(InputAction::Hold)
    } else if id == "noop"@ {
        Some(InputAction::Noop)
    } else {
        None
    }
}

/// Whether two strings hold the same characters.
pub fn str_eq(a: &str, b: &str) -> (r: bool)
    ensures
        r == (a@ == b@),
{
    let n = a.unicode_len();
    let m = b.unicode_len();
    if n != m {
        return false;
    }
    let mut i: usize = 0;
    while i < n
        invariant
            n == a@.len(),
            m == b@.len(),
            n == m,
            i <= n,
            forall|k: int| 0 <= k < i ==> a@[k] == b@[k],
        decreases n - i,
    {
        if a.get_char(i) != b.get_char(i) {
            return false;
        }
        i += 1;
    }
    assert(a@ =~= b@);
    true
}

/// The action for an editor id such as "moveLeft" or "hardDrop"; none for unknown ids.
pub fn action_from_id(id: &str) -> (r: Option<InputAction>)
    ensures
        r == spec_action_for_id(id@),
{
    if str_eq(id, "moveLeft") {
        Some(InputAction::MoveLeft)
    } else if str_eq(id, "moveRight") {
        Some(InputAction::MoveRight)
    } else if str_eq(id, "softDrop") {
        Some(InputAction::SoftDrop)
    } else if str_eq(id, "rotateCw") {
        Some(InputAction::RotateCw)
    } else if str_eq(id, "rotateCcw") {
        Some(InputAction::RotateCcw)
    } else if str_eq(id, "rotate180") {
        Some(InputAction::Rotate180)
    } else if str_eq(id, "hardDrop") {
        Some(InputAction::HardDrop)
    } else if str_eq(id, "hold") {
        Some(InputAction::Hold)
    } else if str_eq(id, "noop") {
        Some(InputAction::Noop)
    } else {
        None
    }
}

} // verus!
