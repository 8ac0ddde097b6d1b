use vstd::prelude::*;
use vstd::string::*;

verus! {

/// Whether the Linux backend uses the desktop portal instead of listening to X11:
/// the session type is `wayland`, a Wayland display is set, or the portal is forced.
pub fn using_xdg(session_type: Option<String>, wayland_display_set: bool, portal_forced: bool) -> (portal: bool)
    ensures
        portal == ((session_type matches Some(t) && t@ == "wayland"@) || wayland_display_set
            || portal_forced),
{
    let is_wayland_session = match session_type {
        Some(t) => t == String::from_str("wayland"),
        None => false,
    };
    is_wayland_session || wayland_display_set || portal_forced
}

} // verus!
