use vstd::prelude::*;
use crate::structs::{copy_keybinds, InternalMessage, KeybindInfo};

verus! {

/// What the desktop-portal backend's loop receives: a shortcut that the portal
/// reports activated or deactivated (by id), a new keybind table, or the failure of
/// the last registration of shortcuts (with the portal's description of it).
#[derive(Debug, Clone, PartialEq, Eq)]
pub enum LoopMessage {
    Activated(String),
    Deactivated(String),
    Update(Vec<KeybindInfo>),
    BindFailed(String),
}

/// A shortcut to register with the portal: its id and the description shown to
/// the user.
#[derive(Debug, Clone, PartialEq, Eq)]
pub struct ShortcutRequest {
    pub id: String,
    pub description: String,
}

/// What the portal backend's loop does next.
#[derive(Debug, Clone, PartialEq, Eq)]
pub enum WaylandAction {
    /// Hand a message to the engine's main loop.
    Send(InternalMessage),
    /// Register these shortcuts with the portal session, replacing the old ones.
    Bind(Vec<ShortcutRequest>),
    /// Nothing to do.
    Nothing,
}

/// Two optional names are the same text, or both absent.
pub open spec fn same_name(a: Option<String>, b: Option<String>) -> bool {
    match (a, b) {
        (None, None) => true,
        (Some(x), Some(y)) => x@ == y@,
        _ => false,
    }
}

/// Two keybind tables differ for the portal: their lengths differ, or at some
/// position the ids or the names differ. Key codes and modifiers do not count:
/// the portal chooses the keys itself.
pub open spec fn keybind_lists_differ(a: Seq<KeybindInfo>, b: Seq<KeybindInfo>) -> bool {
    ||| a.len() != b.len()
    ||| exists|i: int| 0 <= i < a.len() && ((#[trigger] a[i]).id@ != b[i].id@ || !same_name(a[i].name, b[i].name))
}

/// The description under which a keybind is registered: its name, or its id when
/// it has no name.
pub open spec fn shortcut_description(kb: KeybindInfo) -> String {
    match kb.name {
        Some(name) => name,
        None => kb.id,
    }
}

fn same_optional_name(a: &Option<String>, b: &Option<String>) -> (same: bool)
    ensures
        same == same_name(*a, *b),
{
    match (a, b) {
        (None, None) => true,
        (Some(x), Some(y)) => *x == *y,
        _ => false,
    }
}

/// Whether the portal has to be told about a new keybind table.
pub fn needs_update(current: &Vec<KeybindInfo>, incoming: &Vec<KeybindInfo>) -> (differ: bool)
    ensures
        differ == keybind_lists_differ(current@, incoming@),
{
    if current.len() != incoming.len() {
        return true;
    }
    let mut i: usize = 0;
    while i < current.len()
        invariant
            0 <= i <= current.len(),
            current.len() == incoming.len(),
            forall|j: int|
                0 <= j < i ==> (#[trigger] current@[j]).id@ == incoming@[j].id@ && same_name(
                    current@[j].name,
                    incoming@[j].name,
                ),
        decreases current.len() - i,
    {
        if !(current[i].id == incoming[i].id) || !same_optional_name(&current[i].name, &incoming[i].name) {
            assert(current@[i as int].id@ != incoming@[i as int].id@ || !same_name(
                current@[i as int].name,
                incoming@[i as int].name,
            ));
            return true;
        }
        i += 1;
    }
    false
}

/// The shortcuts to register for a keybind table, in table order.
pub fn shortcut_requests(keybinds: &Vec<KeybindInfo>) -> (requests: Vec<ShortcutRequest>)
    ensures
        requests.len() == keybinds.len(),
        forall|i: int|
            0 <= i < keybinds.len() ==> (#[trigger] requests@[i]).id == keybinds@[i].id
                && requests@[i].description == shortcut_description(keybinds@[i]),
{
    let mut requests: Vec<ShortcutRequest> = Vec::new();
    let mut i: usize = 0;
    while i < keybinds.len()
        invariant
            0 <= i <= keybinds.len(),
            requests.len() == i,
            forall|j: int|
                0 <= j < i ==> (#[trigger] requests@[j]).id == keybinds@[j].id
                    && requests@[j].description == shortcut_description(keybinds@[j]),
        decreases keybinds.len() - i,
    {
        let kb = &keybinds[i];
        let description = match &kb.name {
            Some(name) => name.clone(),
            None => kb.id.clone(),
        };
        requests.push(ShortcutRequest { id: kb.id.clone(), description });
        i += 1;
    }
    requests
}

/// One step of the portal backend's loop. An activation or deactivation is handed
/// to the main loop as a pressed or released portal event; a failed registration
/// as a recoverable platform error, so that the controlling process hears of it. A
/// keybind table that
/// differs from the current one (see `keybind_lists_differ`) becomes the current
/// one and is registered; one that does not differ is ignored.
pub fn wayland_step(current: &mut Vec<KeybindInfo>, message: LoopMessage) -> (action: WaylandAction)
    ensures
        match message {
            LoopMessage::Activated(id) => *final(current) == *old(current) && action == WaylandAction::Send(
                InternalMessage::WaylandEvent { id, pressed: true },
            ),
            LoopMessage::Deactivated(id) => *final(current) == *old(current) && action
                == WaylandAction::Send(InternalMessage::WaylandEvent { id, pressed: false }),
            LoopMessage::BindFailed(text) => *final(current) == *old(current) && action
                == WaylandAction::Send(InternalMessage::PlatformError(text)),
            LoopMessage::Update(keybinds) => if keybind_lists_differ(old(current)@, keybinds@) {
                &&& final(current)@ == keybinds@
                &&& action matches WaylandAction::Bind(requests)
                &&& requests.len() == keybinds.len()
                &&& forall|i: int|
                    0 <= i < keybinds.len() ==> (#[trigger] requests@[i]).id == keybinds@[i].id
                        && requests@[i].description == shortcut_description(keybinds@[i])
            } else {
                *final(current) == *old(current) && action == WaylandAction::Nothing
            },
        },
{
    match message {
        LoopMessage::Activated(id) => WaylandAction::Send(InternalMessage::WaylandEvent { id, pressed: true }),
        LoopMessage::Deactivated(id) => WaylandAction::Send(
            InternalMessage::WaylandEvent { id, pressed: false },
        ),
        LoopMessage::BindFailed(text) => WaylandAction::Send(InternalMessage::PlatformError(text)),
        LoopMessage::Update(keybinds) => {
            if needs_update(current, &keybinds) {
                *current = copy_keybinds(&keybinds);
                WaylandAction::Bind(shortcut_requests(&keybinds))
            } else {
                WaylandAction::Nothing
            }
        },
    }
}

/// A keybind table does not differ from itself.
pub proof fn law_lists_differ_irreflexive(a: Seq<KeybindInfo>)
    ensures
        !keybind_lists_differ(a, a),
{
}

/// After an update step the current table no longer differs from the table that
/// was sent, so sending the same table again registers nothing.
pub proof fn law_update_settles(current: Seq<KeybindInfo>, incoming: Seq<KeybindInfo>)
    ensures
        ({
            let after = if keybind_lists_differ(current, incoming) {
                incoming
            } else {
                current
            };
            !keybind_lists_differ(after, incoming)
        }),
{
}

/// Whether two tables differ does not depend on which one is the current one.
pub proof fn law_lists_differ_symmetric(a: Seq<KeybindInfo>, b: Seq<KeybindInfo>)
    ensures
        keybind_lists_differ(a, b) == keybind_lists_differ(b, a),
{
    if keybind_lists_differ(a, b) && a.len() == b.len() {
        let i = choose|i: int| 0 <= i < a.len() && ((#[trigger] a[i]).id@ != b[i].id@ || !same_name(a[i].name, b[i].name));
        assert(b[i].id@ != a[i].id@ || !same_name(b[i].name, a[i].name));
    }
    if keybind_lists_differ(b, a) && a.len() == b.len() {
        let i = choose|i: int| 0 <= i < b.len() && ((#[trigger] b[i]).id@ != a[i].id@ || !same_name(b[i].name, a[i].name));
        assert(a[i].id@ != b[i].id@ || !same_name(a[i].name, b[i].name));
    }
}

/// Tables that do not differ have the same length, and at every position the same
/// id and the same name: both absent, or both present with the same text. So a
/// table whose ids or names (present, absent or changed) differ in any way from the
/// current one is registered again.
pub proof fn law_unchanged_tables_agree(a: Seq<KeybindInfo>, b: Seq<KeybindInfo>)
    requires
        !keybind_lists_differ(a, b),
    ensures
        a.len() == b.len(),
        forall|i: int|
            0 <= i < a.len() ==> (#[trigger] a[i]).id@ == b[i].id@ && (a[i].name is None) == (
            b[i].name is None) && (a[i].name matches Some(x) ==> (b[i].name matches Some(y) && x@ == y@)),
{
    assert forall|i: int| 0 <= i < a.len() implies (#[trigger] a[i]).id@ == b[i].id@ && (a[i].name is None) == (
    b[i].name is None) && (a[i].name matches Some(x) ==> (b[i].name matches Some(y) && x@ == y@)) by {
        assert(!((a[i]).id@ != b[i].id@ || !same_name(a[i].name, b[i].name)));
    }
}

/// Tables of the same length with the same ids and the same names at every
/// position do not differ, whatever their key codes and modifiers.
pub proof fn law_tables_with_same_ids_and_names_agree(a: Seq<KeybindInfo>, b: Seq<KeybindInfo>)
    requires
        a.len() == b.len(),
        forall|i: int|
            0 <= i < a.len() ==> (#[trigger] a[i]).id@ == b[i].id@ && (a[i].name is None) == (
            b[i].name is None) && (a[i].name matches Some(x) ==> (b[i].name matches Some(y) && x@ == y@)),
    ensures
        !keybind_lists_differ(a, b),
{
    assert forall|i: int| 0 <= i < a.len() implies !((#[trigger] a[i]).id@ != b[i].id@ || !same_name(
        a[i].name,
        b[i].name,
    )) by {
        assert(a[i].id@ == b[i].id@);
    }
}

/// A keybind is registered under its name when it has one and under its id
/// otherwise.
pub proof fn law_description_is_name_or_id(kb: KeybindInfo)
    ensures
        kb.name matches Some(n) ==> shortcut_description(kb) == n,
        kb.name is None ==> shortcut_description(kb) == kb.id,
{
}

} // verus!
