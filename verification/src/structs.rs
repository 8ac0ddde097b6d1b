use std::collections::HashSet;
use vstd::prelude::*;

verus! {

broadcast use vstd::std_specs::hash::group_hash_axioms;

/// Virtual-key code of the Shift modifier.
pub const VK_SHIFT: u32 = 16;
/// Virtual-key code of the Control modifier.
pub const VK_CONTROL: u32 = 17;
/// Virtual-key code of the Alt modifier.
pub const VK_ALT: u32 = 18;
/// Virtual-key code of the Meta (Windows, Super, Command) modifier.
pub const VK_META: u32 = 91;

/// One configured keybind: an identifier, an optional human-readable name, the
/// virtual-key code of its main key (none for a keybind that only a desktop portal
/// can trigger), and the modifiers that must be held with it.
#[derive(Debug, Clone, PartialEq, Eq)]
pub struct KeybindInfo {
    pub id: String,
    pub name: Option<String>,
    pub keycode: Option<u32>,
    pub ctrl: bool,
    pub alt: bool,
    pub shift: bool,
    pub meta: bool,
}

/// A command read from the controlling process.
#[derive(Debug, Clone, PartialEq, Eq)]
pub enum IncomingMessage {
    /// Replace the whole keybind table.
    SetKeybinds { keybinds: Vec<KeybindInfo> },
}

/// A notification for the controlling process.
#[derive(Debug, Clone, PartialEq, Eq)]
pub enum OutgoingMessage {
    Pressed { id: String },
    Released { id: String },
    Error { message: String },
}

/// What the engine's main loop receives from its input sources.
#[derive(Debug, Clone, PartialEq, Eq)]
pub enum InternalMessage {
    Command(IncomingMessage),
    RawKey { keycode: u32, pressed: bool },
    WaylandEvent { id: String, pressed: bool },
    /// A platform backend ran into a problem it can recover from; the text says which.
    PlatformError(String),
    FatalError(String),
    Quit,
}

/// The modifier state that a key press is matched against.
#[derive(Debug, Clone, Copy, PartialEq, Eq)]
pub struct Modifiers {
    pub ctrl: bool,
    pub alt: bool,
    pub shift: bool,
    pub meta: bool,
}

/// The state of the key engine: the keybind table, the keys currently held down,
/// and the keybinds currently active, each with the key code that activated it.
/// `active_keybinds` is a map from keybind id to key code: no id occurs twice in it
/// (see `wf`).
pub struct EngineState {
    pub keybinds: Vec<KeybindInfo>,
    pub pressed_keys: HashSet<u32>,
    pub active_keybinds: Vec<(String, u32)>,
}

/// The modifiers considered held when `keycode` goes down while the keys in
/// `pressed` (which already include `keycode`) are down. A modifier key does not
/// count as held for its own press.
pub open spec fn held_modifiers(pressed: Set<u32>, keycode: u32) -> Modifiers {
    Modifiers {
        ctrl: pressed.contains(VK_CONTROL) && keycode != VK_CONTROL,
        alt: pressed.contains(VK_ALT) && keycode != VK_ALT,
        shift: pressed.contains(VK_SHIFT) && keycode != VK_SHIFT,
        meta: pressed.contains(VK_META) && keycode != VK_META,
    }
}

/// A keybind fires for a press of `keycode` under `mods` when its key is that key
/// and its modifiers are exactly those held.
pub open spec fn fires(kb: KeybindInfo, keycode: u32, mods: Modifiers) -> bool {
    &&& kb.keycode == Some(keycode)
    &&& kb.ctrl == mods.ctrl
    &&& kb.alt == mods.alt
    &&& kb.shift == mods.shift
    &&& kb.meta == mods.meta
}

/// Whether the id `id` is active in `active`.
pub open spec fn id_active(active: Seq<(String, u32)>, id: Seq<char>) -> bool {
    exists|i: int| 0 <= i < active.len() && (#[trigger] active[i]).0@ == id
}

/// The active keybinds and the events after a press of `keycode` under `mods`,
/// going through the keybinds in table order: each firing keybind whose id is not
/// active yet becomes active and is reported pressed once.
pub open spec fn press_outcome(
    kbs: Seq<KeybindInfo>,
    active: Seq<(String, u32)>,
    keycode: u32,
    mods: Modifiers,
) -> (Seq<(String, u32)>, Seq<OutgoingMessage>)
    decreases kbs.len(),
{
    if kbs.len() == 0 {
        (active, Seq::empty())
    } else {
        let prev = press_outcome(kbs.drop_last(), active, keycode, mods);
        let kb = kbs.last();
        if fires(kb, keycode, mods) && !id_active(prev.0, kb.id@) {
            (prev.0.push((kb.id, keycode)), prev.1.push(OutgoingMessage::Pressed { id: kb.id }))
        } else {
            prev
        }
    }
}

/// The active keybinds and the events after `keycode` is released: every keybind
/// that this key activated is reported released (in the order of `active`) and
/// leaves the active set; the others stay, in order.
pub open spec fn release_outcome(active: Seq<(String, u32)>, keycode: u32) -> (
    Seq<(String, u32)>,
    Seq<OutgoingMessage>,
)
    decreases active.len(),
{
    if active.len() == 0 {
        (Seq::empty(), Seq::empty())
    } else {
        let prev = release_outcome(active.drop_last(), keycode);
        let entry = active.last();
        if entry.1 == keycode {
            (prev.0, prev.1.push(OutgoingMessage::Released { id: entry.0 }))
        } else {
            (prev.0.push(entry), prev.1)
        }
    }
}

/// No id occurs twice in `active`.
pub open spec fn ids_distinct(active: Seq<(String, u32)>) -> bool {
    forall|i: int, j: int|
        0 <= i < j < active.len() ==> (#[trigger] active[i]).0@ != (#[trigger] active[j]).0@
}

/// Every key code in `active` is in `pressed`.
pub open spec fn codes_held(active: Seq<(String, u32)>, pressed: Set<u32>) -> bool {
    forall|i: int| 0 <= i < active.len() ==> pressed.contains((#[trigger] active[i]).1)
}

/// A press only appends to the active set: the new entries carry the pressed key
/// code, and the events report them as pressed, in the same order.
pub proof fn lemma_press_shape(kbs: Seq<KeybindInfo>, active: Seq<(String, u32)>, keycode: u32, mods: Modifiers)
    ensures
        ({
            let r = press_outcome(kbs, active, keycode, mods);
            &&& active.len() <= r.0.len()
            &&& r.0.subrange(0, active.len() as int) == active
            &&& r.1.len() == r.0.len() - active.len()
            &&& forall|j: int| active.len() <= j < r.0.len() ==> (#[trigger] r.0[j]).1 == keycode
            &&& forall|j: int|
                0 <= j < r.1.len() ==> #[trigger] r.1[j] == OutgoingMessage::Pressed {
                    id: r.0[active.len() + j].0,
                }
        }),
    decreases kbs.len(),
{
    if kbs.len() > 0 {
        lemma_press_shape(kbs.drop_last(), active, keycode, mods);
        let r = press_outcome(kbs, active, keycode, mods);
        assert(r.0.subrange(0, active.len() as int) =~= active);
    }
}

/// A press keeps the ids of the active set distinct.
pub proof fn lemma_press_distinct(kbs: Seq<KeybindInfo>, active: Seq<(String, u32)>, keycode: u32, mods: Modifiers)
    requires
        ids_distinct(active),
    ensures
        ids_distinct(press_outcome(kbs, active, keycode, mods).0),
    decreases kbs.len(),
{
    if kbs.len() > 0 {
        lemma_press_distinct(kbs.drop_last(), active, keycode, mods);
        let prev = press_outcome(kbs.drop_last(), active, keycode, mods);
        let kb = kbs.last();
        if fires(kb, keycode, mods) && !id_active(prev.0, kb.id@) {
            let next = prev.0.push((kb.id, keycode));
            assert forall|i: int, j: int| 0 <= i < j < next.len() implies (#[trigger] next[i]).0@
                != (#[trigger] next[j]).0@ by {
                if j == prev.0.len() {
                    assert(prev.0[i] == next[i]);
                }
            }
        }
    }
}

/// Every keybind that fires for the press ends up active.
pub proof fn lemma_fired_active(kbs: Seq<KeybindInfo>, active: Seq<(String, u32)>, keycode: u32, mods: Modifiers)
    ensures
        forall|i: int|
            0 <= i < kbs.len() && fires(#[trigger] kbs[i], keycode, mods) ==> id_active(
                press_outcome(kbs, active, keycode, mods).0,
                kbs[i].id@,
            ),
    decreases kbs.len(),
{
    if kbs.len() > 0 {
        let front = kbs.drop_last();
        lemma_fired_active(front, active, keycode, mods);
        let prev = press_outcome(front, active, keycode, mods);
        let r = press_outcome(kbs, active, keycode, mods);
        assert(r.0.subrange(0, prev.0.len() as int) =~= prev.0);
        assert forall|i: int|
            0 <= i < kbs.len() && fires(#[trigger] kbs[i], keycode, mods) implies id_active(r.0, kbs[i].id@) by {
            if i < kbs.len() - 1 {
                assert(front[i] == kbs[i]);
                let w = choose|w: int| 0 <= w < prev.0.len() && (#[trigger] prev.0[w]).0@ == kbs[i].id@;
                assert(r.0[w] == prev.0[w]);
            } else if !id_active(prev.0, kbs[i].id@) {
                assert(r.0[prev.0.len() as int].0@ == kbs[i].id@);
            } else {
                let w = choose|w: int| 0 <= w < prev.0.len() && (#[trigger] prev.0[w]).0@ == kbs[i].id@;
                assert(r.0[w] == prev.0[w]);
            }
        }
    }
}

/// A press in which every firing keybind is already active changes nothing and
/// reports nothing.
pub proof fn lemma_press_quiet(kbs: Seq<KeybindInfo>, active: Seq<(String, u32)>, keycode: u32, mods: Modifiers)
    requires
        forall|i: int|
            0 <= i < kbs.len() && fires(#[trigger] kbs[i], keycode, mods) ==> id_active(active, kbs[i].id@),
    ensures
        press_outcome(kbs, active, keycode, mods) == (active, Seq::<OutgoingMessage>::empty()),
    decreases kbs.len(),
{
    if kbs.len() > 0 {
        let front = kbs.drop_last();
        assert forall|i: int|
            0 <= i < front.len() && fires(#[trigger] front[i], keycode, mods) implies id_active(active, front[i].id@) by {
            assert(front[i] == kbs[i]);
        }
        lemma_press_quiet(front, active, keycode, mods);
        assert(fires(kbs[kbs.len() - 1], keycode, mods) ==> id_active(active, kbs[kbs.len() - 1].id@));
    }
}

/// What a release keeps comes from the active set, in order, and does not carry
/// the released key code; distinct ids stay distinct.
pub proof fn lemma_release_shape(active: Seq<(String, u32)>, keycode: u32)
    ensures
        ({
            let r = release_outcome(active, keycode);
            &&& forall|j: int| 0 <= j < r.0.len() ==> (#[trigger] r.0[j]).1 != keycode && active.contains(r.0[j])
            &&& ids_distinct(active) ==> ids_distinct(r.0)
        }),
    decreases active.len(),
{
    if active.len() > 0 {
        let front = active.drop_last();
        lemma_release_shape(front, keycode);
        let prev = release_outcome(front, keycode);
        let r = release_outcome(active, keycode);
        let e = active.last();
        assert forall|j: int| 0 <= j < r.0.len() implies (#[trigger] r.0[j]).1 != keycode && active.contains(r.0[j]) by {
            if j < prev.0.len() {
                assert(r.0[j] == prev.0[j]);
                let m = choose|m: int| 0 <= m < front.len() && front[m] == prev.0[j];
                assert(active[m] == front[m]);
            } else {
                assert(active[active.len() - 1] == e);
            }
        }
        if ids_distinct(active) {
            assert(ids_distinct(front)) by {
                assert forall|i: int, j: int| 0 <= i < j < front.len() implies (#[trigger] front[i]).0@
                    != (#[trigger] front[j]).0@ by {
                    assert(front[i] == active[i] && front[j] == active[j]);
                }
            }
            if e.1 != keycode {
                assert forall|i: int, j: int| 0 <= i < j < r.0.len() implies (#[trigger] r.0[i]).0@
                    != (#[trigger] r.0[j]).0@ by {
                    if j == prev.0.len() {
                        assert(r.0[i] == prev.0[i]);
                        let m = choose|m: int| 0 <= m < front.len() && front[m] == prev.0[i];
                        assert(active[m] == front[m]);
                        assert(active[active.len() - 1] == e);
                    } else {
                        assert(r.0[i] == prev.0[i] && r.0[j] == prev.0[j]);
                    }
                }
            } else {
                assert(r.0 == prev.0);
            }
        }
    }
}

/// The held keys, the active keybinds and the notifications after one raw key
/// event, as `EngineState::handle_key` computes them.
pub open spec fn key_transition(
    keybinds: Seq<KeybindInfo>,
    pressed: Set<u32>,
    active: Seq<(String, u32)>,
    keycode: u32,
    is_pressed: bool,
) -> (Set<u32>, Seq<(String, u32)>, Seq<OutgoingMessage>) {
    if is_pressed {
        let held = pressed.insert(keycode);
        let r = press_outcome(keybinds, active, keycode, held_modifiers(held, keycode));
        (held, r.0, r.1)
    } else {
        let r = release_outcome(active, keycode);
        (pressed.remove(keycode), r.0, r.1)
    }
}

/// How the main loop goes on after a message.
#[derive(Debug, Clone, Copy, PartialEq, Eq)]
pub enum Flow {
    /// Wait for the next message.
    Continue,
    /// Leave the loop: the input stream has ended.
    Quit,
    /// End the process with a failure status after the notifications are written.
    Abort,
}

/// What the main loop does in answer to one message: the notifications to write,
/// in order; the keybind table to hand to the platform backend, if any; and how
/// to go on.
pub struct Reaction {
    pub events: Vec<OutgoingMessage>,
    pub forward: Option<Vec<KeybindInfo>>,
    pub flow: Flow,
}

impl KeybindInfo {
    /// An exact copy of the keybind.
    pub fn duplicate(&self) -> (copy: KeybindInfo)
        ensures
            copy == *self,
    {
        let name = match &self.name {
            Some(n) => Some(n.clone()),
            None => None,
        };
        KeybindInfo {
            id: self.id.clone(),
            name,
            keycode: self.keycode,
            ctrl: self.ctrl,
            alt: self.alt,
            shift: self.shift,
            meta: self.meta,
        }
    }
}

/// An exact copy of a keybind table.
pub fn copy_keybinds(keybinds: &Vec<KeybindInfo>) -> (copy: Vec<KeybindInfo>)
    ensures
        copy@ == keybinds@,
{
    let mut copy: Vec<KeybindInfo> = Vec::new();
    let mut i: usize = 0;
    while i < keybinds.len()
        invariant
            0 <= i <= keybinds.len(),
            copy@ == keybinds@.take(i as int),
        decreases keybinds.len() - i,
    {
        copy.push(keybinds[i].duplicate());
        i += 1;
        assert(copy@ =~= keybinds@.take(i as int));
    }
    assert(keybinds@.take(keybinds.len() as int) =~= keybinds@);
    copy
}

/// Whether some active entry has the id `id`.
fn is_active(active: &Vec<(String, u32)>, id: &String) -> (found: bool)
    ensures
        found == id_active(active@, id@),
{
    let mut i: usize = 0;
    while i < active.len()
        invariant
            0 <= i <= active.len(),
            forall|j: int| 0 <= j < i ==> (#[trigger] active@[j]).0@ != id@,
        decreases active.len() - i,
    {
        if active[i].0 == *id {
            assert(active@[i as int].0@ == id@);
            return true;
        }
        i += 1;
    }
    false
}

impl Default for EngineState {
    /// An engine with no keybinds, no key held and nothing active.
    fn default() -> (state: EngineState)
        ensures
            state.keybinds@ == Seq::<KeybindInfo>::empty(),
            state.pressed_keys@ == Set::<u32>::empty(),
            state.active_keybinds@ == Seq::<(String, u32)>::empty(),
            state.wf(),
    {
        EngineState { keybinds: Vec::new(), pressed_keys: HashSet::new(), active_keybinds: Vec::new() }
    }
}

impl EngineState {
    /// An engine with no keybinds, no key held and nothing active.
    pub fn new() -> (state: EngineState)
        ensures
            state.keybinds@ == Seq::<KeybindInfo>::empty(),
            state.pressed_keys@ == Set::<u32>::empty(),
            state.active_keybinds@ == Seq::<(String, u32)>::empty(),
            state.wf(),
    {
        EngineState { keybinds: Vec::new(), pressed_keys: HashSet::new(), active_keybinds: Vec::new() }
    }

    /// Replaces the keybind table. Held keys and active keybinds stay as they are:
    /// an active keybind is still reported released when its key goes up.
    pub fn set_keybinds(&mut self, keybinds: Vec<KeybindInfo>)
        ensures
            final(self).keybinds == keybinds,
            final(self).pressed_keys == old(self).pressed_keys,
            final(self).active_keybinds == old(self).active_keybinds,
    {
        self.keybinds = keybinds;
    }

    /// Answers one message of the main loop.
    ///
    /// A new keybind table replaces the engine's and is handed on to the platform
    /// backend; a raw key event goes through `handle_key`; an event from the
    /// desktop portal is reported as is; a recoverable platform error is reported
    /// and the loop goes on; a fatal error is reported and ends the process with a
    /// failure status; the end of input ends the loop.
    pub fn handle_message(&mut self, message: InternalMessage) -> (reaction: Reaction)
        ensures
            old(self).wf() ==> final(self).wf(),
            match message {
                InternalMessage::Command(IncomingMessage::SetKeybinds { keybinds }) => {
                    &&& final(self).keybinds@ == keybinds@
                    &&& final(self).pressed_keys == old(self).pressed_keys
                    &&& final(self).active_keybinds == old(self).active_keybinds
                    &&& reaction.events@ == Seq::<OutgoingMessage>::empty()
                    &&& reaction.forward == Some(keybinds)
                    &&& reaction.flow == Flow::Continue
                },
                InternalMessage::RawKey { keycode, pressed } => {
                    &&& final(self).keybinds == old(self).keybinds
                    &&& (final(self).pressed_keys@, final(self).active_keybinds@, reaction.events@)
                        == key_transition(
                        old(self).keybinds@,
                        old(self).pressed_keys@,
                        old(self).active_keybinds@,
                        keycode,
                        pressed,
                    )
                    &&& reaction.forward.is_none()
                    &&& reaction.flow == Flow::Continue
                },
                InternalMessage::WaylandEvent { id, pressed } => {
                    &&& *final(self) == *old(self)
                    &&& reaction.events@ == seq![
                        if pressed {
                            OutgoingMessage::Pressed { id }
                        } else {
                            OutgoingMessage::Released { id }
                        },
                    ]
                    &&& reaction.forward.is_none()
                    &&& reaction.flow == Flow::Continue
                },
                InternalMessage::PlatformError(message) => {
                    &&& *final(self) == *old(self)
                    &&& reaction.events@ == seq![OutgoingMessage::Error { message }]
                    &&& reaction.forward.is_none()
                    &&& reaction.flow == Flow::Continue
                },
                InternalMessage::FatalError(message) => {
                    &&& *final(self) == *old(self)
                    &&& reaction.events@ == seq![OutgoingMessage::Error { message }]
                    &&& reaction.forward.is_none()
                    &&& reaction.flow == Flow::Abort
                },
                InternalMessage::Quit => {
                    &&& *final(self) == *old(self)
                    &&& reaction.events@ == Seq::<OutgoingMessage>::empty()
                    &&& reaction.forward.is_none()
                    &&& reaction.flow == Flow::Quit
                },
            },
    {
        match message {
            InternalMessage::Command(IncomingMessage::SetKeybinds { keybinds }) => {
                self.set_keybinds(copy_keybinds(&keybinds));
                Reaction { events: Vec::new(), forward: Some(keybinds), flow: Flow::Continue }
            },
            InternalMessage::RawKey { keycode, pressed } => {
                let events = self.handle_key(keycode, pressed);
                Reaction { events, forward: None, flow: Flow::Continue }
            },
            InternalMessage::WaylandEvent { id, pressed } => {
                let event = if pressed {
                    OutgoingMessage::Pressed { id }
                } else {
                    OutgoingMessage::Released { id }
                };
                let mut events = Vec::new();
                events.push(event);
                Reaction { events, forward: None, flow: Flow::Continue }
            },
            InternalMessage::PlatformError(message) => {
                let mut events = Vec::new();
                events.push(OutgoingMessage::Error { message });
                Reaction { events, forward: None, flow: Flow::Continue }
            },
            InternalMessage::FatalError(message) => {
                let mut events = Vec::new();
                events.push(OutgoingMessage::Error { message });
                Reaction { events, forward: None, flow: Flow::Abort }
            },
            InternalMessage::Quit => Reaction { events: Vec::new(), forward: None, flow: Flow::Quit },
        }
    }

    /// The engine's invariant: the active set is a map from keybind id to key code
    /// (no id occurs twice), and a keybind is active only while the key that
    /// activated it is held.
    pub open spec fn wf(&self) -> bool {
        &&& ids_distinct(self.active_keybinds@)
        &&& codes_held(self.active_keybinds@, self.pressed_keys@)
    }

    /// Feeds one raw key event to the engine and returns the notifications it
    /// causes, in order.
    ///
    /// A press records the key as held, then goes through the keybind table in
    /// order: a keybind whose key is this key, whose modifiers are exactly the
    /// modifiers held (a modifier key does not count for its own press) and whose id
    /// is not active yet becomes active and is reported `Pressed`. A release forgets
    /// the key and reports `Released` for every keybind that this key activated.
    pub fn handle_key(&mut self, keycode: u32, is_pressed: bool) -> (events: Vec<OutgoingMessage>)
        ensures
            old(self).wf() ==> final(self).wf(),
            final(self).keybinds == old(self).keybinds,
            is_pressed ==> final(self).pressed_keys@ == old(self).pressed_keys@.insert(keycode),
            is_pressed ==> (final(self).active_keybinds@, events@) == press_outcome(
                old(self).keybinds@,
                old(self).active_keybinds@,
                keycode,
                held_modifiers(old(self).pressed_keys@.insert(keycode), keycode),
            ),
            !is_pressed ==> final(self).pressed_keys@ == old(self).pressed_keys@.remove(keycode),
            !is_pressed ==> (final(self).active_keybinds@, events@) == release_outcome(
                old(self).active_keybinds@,
                keycode,
            ),
    {
        let mut events: Vec<OutgoingMessage> = Vec::new();
        if is_pressed {
            self.pressed_keys.insert(keycode);
            let mods = Modifiers {
                ctrl: self.pressed_keys.contains(&VK_CONTROL) && keycode != VK_CONTROL,
                alt: self.pressed_keys.contains(&VK_ALT) && keycode != VK_ALT,
                shift: self.pressed_keys.contains(&VK_SHIFT) && keycode != VK_SHIFT,
                meta: self.pressed_keys.contains(&VK_META) && keycode != VK_META,
            };
            assert(mods == held_modifiers(self.pressed_keys@, keycode));
            let ghost kbs = self.keybinds@;
            let ghost start = self.active_keybinds@;
            let mut i: usize = 0;
            while i < self.keybinds.len()
                invariant
                    0 <= i <= self.keybinds.len(),
                    self.keybinds@ == kbs,
                    self.keybinds == old(self).keybinds,
                    self.pressed_keys@ == old(self).pressed_keys@.insert(keycode),
                    (self.active_keybinds@, events@) == press_outcome(
                        kbs.take(i as int),
                        start,
                        keycode,
                        mods,
                    ),
                decreases self.keybinds.len() - i,
            {
                assert(kbs.take(i + 1).drop_last() =~= kbs.take(i as int));
                let kb = &self.keybinds[i];
                let key_matches = match kb.keycode {
                    Some(kc) => kc == keycode,
                    None => false,
                };
                if key_matches && kb.ctrl == mods.ctrl && kb.alt == mods.alt && kb.shift == mods.shift
                    && kb.meta == mods.meta && !is_active(&self.active_keybinds, &kb.id) {
                    let id = kb.id.clone();
                    self.active_keybinds.push((id.clone(), keycode));
                    events.push(OutgoingMessage::Pressed { id });
                }
                i += 1;
            }
            assert(kbs.take(kbs.len() as int) =~= kbs);
            proof {
                if old(self).wf() {
                    lemma_press_shape(kbs, start, keycode, mods);
                    lemma_press_distinct(kbs, start, keycode, mods);
                    let r = press_outcome(kbs, start, keycode, mods);
                    assert forall|j: int| 0 <= j < r.0.len() implies self.pressed_keys@.contains(
                        (#[trigger] r.0[j]).1) by {
                        if j < start.len() {
                            assert(r.0.subrange(0, start.len() as int)[j] == r.0[j]);
                        }
                    }
                }
            }
        } else {
            self.pressed_keys.remove(&keycode);
            let ghost start = self.active_keybinds@;
            let mut kept: Vec<(String, u32)> = Vec::new();
            let mut i: usize = 0;
            while i < self.active_keybinds.len()
                invariant
                    0 <= i <= self.active_keybinds.len(),
                    self.active_keybinds@ == start,
                    self.keybinds == old(self).keybinds,
                    self.pressed_keys@ == old(self).pressed_keys@.remove(keycode),
                    (kept@, events@) == release_outcome(start.take(i as int), keycode),
                decreases self.active_keybinds.len() - i,
            {
                assert(start.take(i + 1).drop_last() =~= start.take(i as int));
                let entry = &self.active_keybinds[i];
                if entry.1 == keycode {
                    events.push(OutgoingMessage::Released { id: entry.0.clone() });
                } else {
                    kept.push((entry.0.clone(), entry.1));
                }
                i += 1;
            }
            assert(start.take(start.len() as int) =~= start);
            proof {
                lemma_release_shape(start, keycode);
                if old(self).wf() {
                    assert forall|j: int| 0 <= j < kept@.len() implies self.pressed_keys@.contains(
                        (#[trigger] kept@[j]).1) by {
                        let m = choose|m: int| 0 <= m < start.len() && start[m] == kept@[j];
                    }
                }
            }
            self.active_keybinds = kept;
        }
        events
    }
}

} // verus!
