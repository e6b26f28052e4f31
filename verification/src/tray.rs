//! The menu of the tray icon.
use vstd::prelude::*;
use vstd::string::StringExecFns;
use crate::text::str_eq;

verus! {

/// What a click in the tray menu asks for.
#[derive(Clone, Copy, Debug, PartialEq, Eq, Structural)]
pub enum TrayAction {
    ToggleVisibility,
    Exit,
}

/// The action of the menu entry with id `event_id`, given the ids of the
/// two entries; `None` for any other entry.
pub fn tray_action(event_id: &str, toggle_id: &str, quit_id: &str) -> (r: Option<TrayAction>)
    ensures
        r == (if event_id@ == toggle_id@ {
            Some(TrayAction::ToggleVisibility)
        } else if event_id@ == quit_id@ {
            Some(TrayAction::Exit)
        } else {
            None
        }),
{
    if str_eq(event_id, toggle_id) {
        Some(TrayAction::ToggleVisibility)
    } else if str_eq(event_id, quit_id) {
        Some(TrayAction::Exit)
    } else {
        None
    }
}

/// Label of the show/hide entry: it offers the opposite of the current
/// state.
pub fn toggle_item_text(visible: bool) -> (r: String)
    ensures
        r@ == (if visible {
            "Hide"@
        } else {
            "Show"@
        }),
{
    if visible {
        String::from_str("Hide")
    } else {
        String::from_str("Show")
    }
}

} // verus!
