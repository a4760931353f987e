use vstd::prelude::*;
use crate::menu::MenuAction;

verus! {

/// What the router needs to know of the main window.
#[derive(Clone, Copy, Debug, PartialEq, Eq, Structural)]
pub struct WindowState {
    /// Whether the window's developer tools panel is open.
    pub devtools_open: bool,
}

/// What the host does in answer to a menu action.
#[derive(Clone, Copy, Debug, PartialEq, Eq, Structural)]
pub enum RouterEffect {
    /// Emit the update-check event into the main window.
    EmitCheckForUpdates,
    /// Open the main window's developer tools.
    OpenDevtools,
    /// Close the main window's developer tools.
    CloseDevtools,
    /// The main window is missing: list the live windows for diagnosis.
    ListWindows,
    /// Nothing to do.
    Nothing,
}

/// Label of the window that menu actions address.
pub open spec fn main_window_label_spec() -> Seq<char> {
    "main"@
}

/// Label of the window that menu actions address.
pub fn main_window_label() -> (r: String)
    ensures
        r@ == main_window_label_spec(),
{
    String::from_str("main")
}

/// Name of the event that asks the interface to check for updates.
pub open spec fn update_event_spec() -> Seq<char> {
    "check-for-updates"@
}

impl RouterEffect {
    /// The event that this effect emits, if it emits one.
    pub fn event_name(&self) -> (r: Option<String>)
        ensures
            *self == RouterEffect::EmitCheckForUpdates ==> (r matches Some(n) && n@
                == update_event_spec()),
            *self != RouterEffect::EmitCheckForUpdates ==> r.is_none(),
    {
        match self {
            RouterEffect::EmitCheckForUpdates => Some(String::from_str("check-for-updates")),
            _ => None,
        }
    }
}

/// The effect of `action` given the main window, or `None` when it is missing.
pub open spec fn route_spec(action: MenuAction, main: Option<WindowState>) -> RouterEffect {
    match action {
        MenuAction::CheckForUpdates => match main {
            Some(_) => RouterEffect::EmitCheckForUpdates,
            None => RouterEffect::Nothing,
        },
        MenuAction::ToggleDevtools => match main {
            Some(w) => if w.devtools_open {
                RouterEffect::CloseDevtools
            } else {
                RouterEffect::OpenDevtools
            },
            None => RouterEffect::ListWindows,
        },
        MenuAction::Unrecognized => RouterEffect::Nothing,
    }
}

/// Decides the effect of `action` given the main window, or `None` when it is missing.
pub fn route(action: MenuAction, main: Option<WindowState>) -> (r: RouterEffect)
    ensures
        r == route_spec(action, main),
{
    match action {
        MenuAction::CheckForUpdates => match main {
            Some(_) => RouterEffect::EmitCheckForUpdates,
            None => RouterEffect::Nothing,
        },
        MenuAction::ToggleDevtools => match main {
            Some(w) => if w.devtools_open {
                RouterEffect::CloseDevtools
            } else {
                RouterEffect::OpenDevtools
            },
            None => RouterEffect::ListWindows,
        },
        MenuAction::Unrecognized => RouterEffect::Nothing,
    }
}

/// The main window after `effect` has been carried out on it.
pub open spec fn window_after_spec(w: WindowState, effect: RouterEffect) -> WindowState {
    match effect {
        RouterEffect::OpenDevtools => WindowState { devtools_open: true },
        RouterEffect::CloseDevtools => WindowState { devtools_open: false },
        _ => w,
    }
}

/// The main window after `effect` has been carried out on it.
pub fn window_after(w: WindowState, effect: RouterEffect) -> (r: WindowState)
    ensures
        r == window_after_spec(w, effect),
{
    match effect {
        RouterEffect::OpenDevtools => WindowState { devtools_open: true },
        RouterEffect::CloseDevtools => WindowState { devtools_open: false },
        _ => w,
    }
}

/// Toggling the developer tools flips the panel, and toggling twice restores it.
pub proof fn law_toggle_twice_restores(w: WindowState)
    ensures
        window_after_spec(w, route_spec(MenuAction::ToggleDevtools, Some(w))).devtools_open
            == !w.devtools_open,
        ({
            let once = window_after_spec(w, route_spec(MenuAction::ToggleDevtools, Some(w)));
            window_after_spec(once, route_spec(MenuAction::ToggleDevtools, Some(once))) == w
        }),
{
}

/// Without a main window no action emits an event or touches a window.
pub proof fn law_no_main_window_no_emission(action: MenuAction)
    ensures
        route_spec(action, None) == RouterEffect::Nothing || route_spec(action, None)
            == RouterEffect::ListWindows,
{
}

} // verus!
