use vstd::prelude::*;
use crate::structs::{
    codes_held, held_modifiers, id_active, ids_distinct, key_transition, lemma_fired_active,
    lemma_press_distinct, lemma_press_quiet, lemma_press_shape, lemma_release_shape, press_outcome,
    release_outcome, fires, KeybindInfo, Modifiers, OutgoingMessage,
};

verus! {

/// The id that a notification is about (empty for an error).
pub open spec fn event_id(e: OutgoingMessage) -> Seq<char> {
    match e {
        OutgoingMessage::Pressed { id } => id@,
        OutgoingMessage::Released { id } => id@,
        OutgoingMessage::Error { .. } => Seq::empty(),
    }
}

/// Releasing keys distributes over the two halves of the active set.
proof fn lemma_release_concat(a: Seq<(String, u32)>, b: Seq<(String, u32)>, keycode: u32)
    ensures
        release_outcome(a + b, keycode) == ({
            let ra = release_outcome(a, keycode);
            let rb = release_outcome(b, keycode);
            (ra.0 + rb.0, ra.1 + rb.1)
        }),
    decreases b.len(),
{
    if b.len() == 0 {
        assert(a + b =~= a);
        let ra = release_outcome(a, keycode);
        assert(ra.0 + Seq::<(String, u32)>::empty() =~= ra.0);
        assert(ra.1 + Seq::<OutgoingMessage>::empty() =~= ra.1);
    } else {
        lemma_release_concat(a, b.drop_last(), keycode);
        assert((a + b).drop_last() =~= a + b.drop_last());
        assert((a + b).last() == b.last());
        let ra = release_outcome(a, keycode);
        let rb0 = release_outcome(b.drop_last(), keycode);
        assert(ra.0 + rb0.0.push(b.last()) =~= (ra.0 + rb0.0).push(b.last()));
        assert(ra.1 + rb0.1.push(OutgoingMessage::Released { id: b.last().0 }) =~= (ra.1
            + rb0.1).push(OutgoingMessage::Released { id: b.last().0 }));
    }
}

/// Releasing a key that no entry carries changes nothing and reports nothing.
proof fn lemma_release_none(a: Seq<(String, u32)>, keycode: u32)
    requires
        forall|j: int| 0 <= j < a.len() ==> (#[trigger] a[j]).1 != keycode,
    ensures
        release_outcome(a, keycode) == (a, Seq::<OutgoingMessage>::empty()),
    decreases a.len(),
{
    if a.len() > 0 {
        assert forall|j: int| 0 <= j < a.drop_last().len() implies (#[trigger] a.drop_last()[j]).1 != keycode by {
            assert(a.drop_last()[j] == a[j]);
        }
        lemma_release_none(a.drop_last(), keycode);
        assert(a.drop_last().push(a.last()) =~= a);
    }
}

/// Releasing a key that every entry carries empties the set and reports each entry
/// released, in order.
proof fn lemma_release_all(b: Seq<(String, u32)>, keycode: u32)
    requires
        forall|j: int| 0 <= j < b.len() ==> (#[trigger] b[j]).1 == keycode,
    ensures
        release_outcome(b, keycode).0 == Seq::<(String, u32)>::empty(),
        release_outcome(b, keycode).1.len() == b.len(),
        forall|j: int|
            0 <= j < b.len() ==> #[trigger] release_outcome(b, keycode).1[j]
                == (OutgoingMessage::Released { id: b[j].0 }),
    decreases b.len(),
{
    if b.len() > 0 {
        assert forall|j: int| 0 <= j < b.drop_last().len() implies (#[trigger] b.drop_last()[j]).1 == keycode by {
            assert(b.drop_last()[j] == b[j]);
        }
        lemma_release_all(b.drop_last(), keycode);
        let prev = release_outcome(b.drop_last(), keycode);
        let r = release_outcome(b, keycode);
        assert forall|j: int| 0 <= j < b.len() implies #[trigger] r.1[j] == (OutgoingMessage::Released {
            id: b[j].0,
        }) by {
            if j < b.len() - 1 {
                assert(r.1[j] == prev.1[j]);
                assert(b.drop_last()[j] == b[j]);
            }
        }
    }
}

/// Key auto-repeat does not re-trigger: pressing a key a second time while it is
/// held reports nothing and leaves the active keybinds as the first press left them.
pub proof fn law_repeated_press_is_silent(
    kbs: Seq<KeybindInfo>,
    active: Seq<(String, u32)>,
    pressed: Set<u32>,
    keycode: u32,
)
    ensures
        ({
            let held = pressed.insert(keycode);
            let once = press_outcome(kbs, active, keycode, held_modifiers(held, keycode));
            let twice = press_outcome(kbs, once.0, keycode, held_modifiers(held.insert(keycode), keycode));
            twice == (once.0, Seq::<OutgoingMessage>::empty())
        }),
{
    let held = pressed.insert(keycode);
    assert(held.insert(keycode) =~= held);
    let mods = held_modifiers(held, keycode);
    lemma_fired_active(kbs, active, keycode, mods);
    let once = press_outcome(kbs, active, keycode, mods);
    lemma_press_quiet(kbs, once.0, keycode, mods);
}

/// Releasing a key that is not held (in a well-formed engine) reports nothing and
/// changes no active keybind.
pub proof fn law_release_of_unheld_key_is_silent(
    active: Seq<(String, u32)>,
    pressed: Set<u32>,
    keycode: u32,
)
    requires
        codes_held(active, pressed),
        !pressed.contains(keycode),
    ensures
        release_outcome(active, keycode) == (active, Seq::<OutgoingMessage>::empty()),
{
    lemma_release_none(active, keycode);
}

/// Pressing a key that is not held and releasing it again returns the engine to
/// the state it had: the same held keys and the same active keybinds; and the
/// release reports, for each keybind that the press reported pressed, its release,
/// in the same order.
pub proof fn law_press_release_round_trip(
    kbs: Seq<KeybindInfo>,
    active: Seq<(String, u32)>,
    pressed: Set<u32>,
    keycode: u32,
)
    requires
        codes_held(active, pressed),
        !pressed.contains(keycode),
    ensures
        ({
            let held = pressed.insert(keycode);
            let down = press_outcome(kbs, active, keycode, held_modifiers(held, keycode));
            let up = release_outcome(down.0, keycode);
            &&& held.remove(keycode) == pressed
            &&& up.0 == active
            &&& up.1.len() == down.1.len()
            &&& forall|i: int|
                0 <= i < down.1.len() ==> (#[trigger] down.1[i] matches OutgoingMessage::Pressed { id }
                    && up.1[i] == (OutgoingMessage::Released { id }))
        }),
{
    let held = pressed.insert(keycode);
    assert(held.remove(keycode) =~= pressed);
    let mods = held_modifiers(held, keycode);
    lemma_press_shape(kbs, active, keycode, mods);
    let down = press_outcome(kbs, active, keycode, mods);
    let added = down.0.subrange(active.len() as int, down.0.len() as int);
    assert(down.0 =~= active + added);
    assert forall|j: int| 0 <= j < active.len() implies (#[trigger] active[j]).1 != keycode by {
        assert(pressed.contains(active[j].1));
    }
    lemma_release_none(active, keycode);
    assert forall|j: int| 0 <= j < added.len() implies (#[trigger] added[j]).1 == keycode by {
        assert(added[j] == down.0[active.len() + j]);
    }
    lemma_release_all(added, keycode);
    lemma_release_concat(active, added, keycode);
    let up = release_outcome(down.0, keycode);
    assert(active + Seq::<(String, u32)>::empty() =~= active);
    assert(up.1 =~= release_outcome(added, keycode).1);
    assert forall|i: int| 0 <= i < down.1.len() implies (#[trigger] down.1[i] matches OutgoingMessage::Pressed {
        id,
    } && up.1[i] == (OutgoingMessage::Released { id })) by {
        assert(added[i] == down.0[active.len() + i]);
    }
}

/// One press reports each id at most once, and never one that was already active.
pub proof fn law_press_reports_new_ids_once(
    kbs: Seq<KeybindInfo>,
    active: Seq<(String, u32)>,
    keycode: u32,
    mods: Modifiers,
)
    requires
        ids_distinct(active),
    ensures
        ({
            let r = press_outcome(kbs, active, keycode, mods);
            &&& forall|i: int| 0 <= i < r.1.len() ==> !id_active(active, event_id(#[trigger] r.1[i]))
            &&& forall|i: int, j: int|
                0 <= i < j < r.1.len() ==> event_id(#[trigger] r.1[i]) != event_id(#[trigger] r.1[j])
        }),
{
    lemma_press_shape(kbs, active, keycode, mods);
    lemma_press_distinct(kbs, active, keycode, mods);
    let r = press_outcome(kbs, active, keycode, mods);
    assert forall|i: int| 0 <= i < r.1.len() implies !id_active(active, event_id(#[trigger] r.1[i])) by {
        let k = active.len() + i;
        assert(event_id(r.1[i]) == r.0[k].0@);
        if id_active(active, r.0[k].0@) {
            let w = choose|w: int| 0 <= w < active.len() && (#[trigger] active[w]).0@ == r.0[k].0@;
            assert(r.0.subrange(0, active.len() as int)[w] == r.0[w]);
        }
    }
    assert forall|i: int, j: int| 0 <= i < j < r.1.len() implies event_id(#[trigger] r.1[i]) != event_id(
        #[trigger] r.1[j],
    ) by {
        assert(event_id(r.1[i]) == r.0[active.len() + i].0@);
        assert(event_id(r.1[j]) == r.0[active.len() + j].0@);
    }
}

/// One input of the key engine: a raw key event (`EngineState::handle_key`) or a
/// new keybind table (`EngineState::set_keybinds`).
pub enum EngineInput {
    Key { keycode: u32, pressed: bool },
    Table(Vec<KeybindInfo>),
}

/// The keybind table, held keys, active keybinds and all notifications after the
/// engine, started empty (`EngineState::new`, `EngineState::default`), has taken
/// `inputs` in order.
pub open spec fn engine_run(inputs: Seq<EngineInput>) -> (
    Seq<KeybindInfo>,
    Set<u32>,
    Seq<(String, u32)>,
    Seq<OutgoingMessage>,
)
    decreases inputs.len(),
{
    if inputs.len() == 0 {
        (Seq::empty(), Set::empty(), Seq::empty(), Seq::empty())
    } else {
        let prev = engine_run(inputs.drop_last());
        match inputs.last() {
            EngineInput::Key { keycode, pressed } => {
                let r = key_transition(prev.0, prev.1, prev.2, keycode, pressed);
                (prev.0, r.0, r.1, prev.3 + r.2)
            },
            EngineInput::Table(keybinds) => (keybinds@, prev.1, prev.2, prev.3),
        }
    }
}

/// The notifications about `id`, in order: `true` for pressed, `false` for released.
pub open spec fn presses_of(events: Seq<OutgoingMessage>, id: Seq<char>) -> Seq<bool>
    decreases events.len(),
{
    if events.len() == 0 {
        Seq::empty()
    } else {
        let prev = presses_of(events.drop_last(), id);
        match events.last() {
            OutgoingMessage::Pressed { id: x } => if x@ == id {
                prev.push(true)
            } else {
                prev
            },
            OutgoingMessage::Released { id: x } => if x@ == id {
                prev.push(false)
            } else {
                prev
            },
            OutgoingMessage::Error { .. } => prev,
        }
    }
}

/// A run of notifications that begins with a press and alternates.
pub open spec fn alternating(s: Seq<bool>) -> bool {
    forall|i: int| 0 <= i < s.len() ==> #[trigger] s[i] == (i % 2 == 0)
}

/// The notifications so far agree with the active set: for every id they alternate
/// pressed, released, pressed, ... and the id is active exactly when the last of
/// them is a press.
pub open spec fn trace_consistent(active: Seq<(String, u32)>, events: Seq<OutgoingMessage>) -> bool {
    &&& ids_distinct(active)
    &&& forall|id: Seq<char>|
        alternating(#[trigger] presses_of(events, id)) && (id_active(active, id) <==> presses_of(
            events,
            id,
        ).len() % 2 == 1)
}

/// Some notification is about `id`.
pub open spec fn has_event_for(events: Seq<OutgoingMessage>, id: Seq<char>) -> bool {
    exists|j: int| 0 <= j < events.len() && event_id(#[trigger] events[j]) == id
}

/// The ids of the notifications are distinct.
pub open spec fn event_ids_distinct(events: Seq<OutgoingMessage>) -> bool {
    forall|i: int, j: int|
        0 <= i < j < events.len() ==> event_id(#[trigger] events[i]) != event_id(#[trigger] events[j])
}

proof fn lemma_presses_concat(a: Seq<OutgoingMessage>, b: Seq<OutgoingMessage>, id: Seq<char>)
    ensures
        presses_of(a + b, id) == presses_of(a, id) + presses_of(b, id),
    decreases b.len(),
{
    if b.len() == 0 {
        assert(a + b =~= a);
        assert(presses_of(a, id) + Seq::<bool>::empty() =~= presses_of(a, id));
    } else {
        lemma_presses_concat(a, b.drop_last(), id);
        assert((a + b).drop_last() =~= a + b.drop_last());
        assert((a + b).last() == b.last());
        let pa = presses_of(a, id);
        let pb = presses_of(b.drop_last(), id);
        assert(pa + pb.push(true) =~= (pa + pb).push(true));
        assert(pa + pb.push(false) =~= (pa + pb).push(false));
    }
}

/// A notification is a press (`kind`) or a release (`!kind`).
pub open spec fn is_kind(e: OutgoingMessage, kind: bool) -> bool {
    if kind {
        e matches OutgoingMessage::Pressed { .. }
    } else {
        e matches OutgoingMessage::Released { .. }
    }
}

/// Notifications of one kind with distinct ids say of `id` at most one thing.
proof fn lemma_presses_single(events: Seq<OutgoingMessage>, id: Seq<char>, kind: bool)
    requires
        event_ids_distinct(events),
        forall|j: int| 0 <= j < events.len() ==> is_kind(#[trigger] events[j], kind),
    ensures
        presses_of(events, id) == if has_event_for(events, id) {
            seq![kind]
        } else {
            Seq::<bool>::empty()
        },
    decreases events.len(),
{
    if events.len() > 0 {
        let front = events.drop_last();
        assert forall|j: int| 0 <= j < front.len() implies is_kind(#[trigger] front[j], kind) by {
            assert(front[j] == events[j]);
        }
        assert(event_ids_distinct(front)) by {
            assert forall|i: int, j: int| 0 <= i < j < front.len() implies event_id(#[trigger] front[i])
                != event_id(#[trigger] front[j]) by {
                assert(front[i] == events[i] && front[j] == events[j]);
            }
        }
        lemma_presses_single(front, id, kind);
        let last = events.last();
        assert(events[events.len() - 1] == last);
        if event_id(last) == id {
            assert(has_event_for(events, id));
            if has_event_for(front, id) {
                let j = choose|j: int| 0 <= j < front.len() && event_id(#[trigger] front[j]) == id;
                assert(front[j] == events[j]);
            }
            assert(Seq::<bool>::empty().push(kind) =~= seq![kind]);
        } else {
            if has_event_for(events, id) {
                let j = choose|j: int| 0 <= j < events.len() && event_id(#[trigger] events[j]) == id;
                assert(front[j] == events[j]);
            }
            if has_event_for(front, id) {
                let j = choose|j: int| 0 <= j < front.len() && event_id(#[trigger] front[j]) == id;
                assert(front[j] == events[j]);
            }
        }
    }
}

/// A press keeps the notifications consistent with the active set.
proof fn lemma_press_keeps_trace(
    kbs: Seq<KeybindInfo>,
    active: Seq<(String, u32)>,
    events: Seq<OutgoingMessage>,
    keycode: u32,
    mods: Modifiers,
)
    requires
        trace_consistent(active, events),
    ensures
        ({
            let r = press_outcome(kbs, active, keycode, mods);
            trace_consistent(r.0, events + r.1)
        }),
{
    let r = press_outcome(kbs, active, keycode, mods);
    lemma_press_shape(kbs, active, keycode, mods);
    lemma_press_distinct(kbs, active, keycode, mods);
    law_press_reports_new_ids_once(kbs, active, keycode, mods);
    assert(event_ids_distinct(r.1));
    assert forall|j: int| 0 <= j < r.1.len() implies is_kind(#[trigger] r.1[j], true) by {}
    assert forall|id: Seq<char>|
        alternating(#[trigger] presses_of(events + r.1, id)) && (id_active(r.0, id) <==> presses_of(
            events + r.1,
            id,
        ).len() % 2 == 1) by {
        lemma_presses_concat(events, r.1, id);
        lemma_presses_single(r.1, id, true);
        let s = presses_of(events, id);
        assert(alternating(s) && (id_active(active, id) <==> s.len() % 2 == 1));
        if has_event_for(r.1, id) {
            let j = choose|j: int| 0 <= j < r.1.len() && event_id(#[trigger] r.1[j]) == id;
            assert(!id_active(active, event_id(r.1[j])));
            assert(s.len() % 2 == 0);
            assert(presses_of(events + r.1, id) =~= s.push(true));
            assert(r.0[active.len() + j].0@ == id);
            assert(id_active(r.0, id));
        } else {
            assert(presses_of(events + r.1, id) =~= s);
            if id_active(r.0, id) {
                let w = choose|w: int| 0 <= w < r.0.len() && (#[trigger] r.0[w]).0@ == id;
                if w >= active.len() {
                    let j = w - active.len();
                    assert(event_id(r.1[j]) == id);
                } else {
                    assert(r.0.subrange(0, active.len() as int)[w] == r.0[w]);
                    assert(active[w] == r.0[w]);
                }
            }
            if id_active(active, id) {
                let w = choose|w: int| 0 <= w < active.len() && (#[trigger] active[w]).0@ == id;
                assert(r.0.subrange(0, active.len() as int)[w] == r.0[w]);
            }
        }
    }
}

/// Some entry of `active` has the id `id` and the key code `keycode`.
pub open spec fn entry_with_code(active: Seq<(String, u32)>, id: Seq<char>, keycode: u32) -> bool {
    exists|m: int| 0 <= m < active.len() && (#[trigger] active[m]).0@ == id && active[m].1 == keycode
}

/// Some entry of `active` has the id `id` and a key code other than `keycode`.
pub open spec fn entry_without_code(active: Seq<(String, u32)>, id: Seq<char>, keycode: u32) -> bool {
    exists|m: int| 0 <= m < active.len() && (#[trigger] active[m]).0@ == id && active[m].1 != keycode
}

/// The notifications of a release are releases with distinct ids, one for each
/// entry of the released key; what stays active is every entry of another key.
proof fn lemma_release_events(active: Seq<(String, u32)>, keycode: u32)
    requires
        ids_distinct(active),
    ensures
        ({
            let r = release_outcome(active, keycode);
            &&& event_ids_distinct(r.1)
            &&& forall|j: int| 0 <= j < r.1.len() ==> (#[trigger] r.1[j] matches OutgoingMessage::Released { .. })
            &&& forall|id: Seq<char>| #[trigger] has_event_for(r.1, id) == entry_with_code(active, id, keycode)
            &&& forall|id: Seq<char>| #[trigger] id_active(r.0, id) == entry_without_code(active, id, keycode)
        }),
    decreases active.len(),
{
    if active.len() > 0 {
        let front = active.drop_last();
        let e = active.last();
        assert(active[active.len() - 1] == e);
        assert(ids_distinct(front)) by {
            assert forall|i: int, j: int| 0 <= i < j < front.len() implies (#[trigger] front[i]).0@
                != (#[trigger] front[j]).0@ by {
                assert(front[i] == active[i] && front[j] == active[j]);
            }
        }
        lemma_release_events(front, keycode);
        let prev = release_outcome(front, keycode);
        let r = release_outcome(active, keycode);
        // the last entry's id occurs nowhere in front
        assert forall|m: int| 0 <= m < front.len() implies (#[trigger] front[m]).0@ != e.0@ by {
            assert(front[m] == active[m]);
        }
        assert(!entry_with_code(front, e.0@, keycode));
        assert(!entry_without_code(front, e.0@, keycode));
        assert forall|id: Seq<char>| #[trigger] entry_with_code(active, id, keycode) == (entry_with_code(
            front,
            id,
            keycode,
        ) || (e.0@ == id && e.1 == keycode)) by {
            if entry_with_code(active, id, keycode) {
                let m = choose|m: int| 0 <= m < active.len() && (#[trigger] active[m]).0@ == id && active[m].1 == keycode;
                if m < front.len() {
                    assert(front[m] == active[m]);
                }
            }
            if entry_with_code(front, id, keycode) {
                let m = choose|m: int| 0 <= m < front.len() && (#[trigger] front[m]).0@ == id && front[m].1 == keycode;
                assert(front[m] == active[m]);
            }
        }
        assert forall|id: Seq<char>| #[trigger] entry_without_code(active, id, keycode) == (
        entry_without_code(front, id, keycode) || (e.0@ == id && e.1 != keycode)) by {
            if entry_without_code(active, id, keycode) {
                let m = choose|m: int| 0 <= m < active.len() && (#[trigger] active[m]).0@ == id && active[m].1 != keycode;
                if m < front.len() {
                    assert(front[m] == active[m]);
                }
            }
            if entry_without_code(front, id, keycode) {
                let m = choose|m: int| 0 <= m < front.len() && (#[trigger] front[m]).0@ == id && front[m].1 != keycode;
                assert(front[m] == active[m]);
            }
        }
        if e.1 == keycode {
            assert(r.0 == prev.0);
            let ev = OutgoingMessage::Released { id: e.0 };
            assert(r.1 == prev.1.push(ev));
            assert forall|id: Seq<char>| #[trigger] has_event_for(r.1, id) == (has_event_for(prev.1, id) || e.0@ == id) by {
                if has_event_for(r.1, id) {
                    let j = choose|j: int| 0 <= j < r.1.len() && event_id(#[trigger] r.1[j]) == id;
                    if j < prev.1.len() {
                        assert(r.1[j] == prev.1[j]);
                    }
                }
                if has_event_for(prev.1, id) {
                    let j = choose|j: int| 0 <= j < prev.1.len() && event_id(#[trigger] prev.1[j]) == id;
                    assert(r.1[j] == prev.1[j]);
                }
                if e.0@ == id {
                    assert(event_id(r.1[prev.1.len() as int]) == id);
                }
            }
            assert(!has_event_for(prev.1, e.0@));
            assert forall|i: int, j: int| 0 <= i < j < r.1.len() implies event_id(#[trigger] r.1[i]) != event_id(
                #[trigger] r.1[j],
            ) by {
                assert(r.1[i] == prev.1[i]);
                if j < prev.1.len() {
                    assert(r.1[j] == prev.1[j]);
                } else {
                    assert(has_event_for(prev.1, event_id(prev.1[i])));
                }
            }
            assert forall|j: int| 0 <= j < r.1.len() implies (#[trigger] r.1[j] matches OutgoingMessage::Released { .. }) by {
                if j < prev.1.len() {
                    assert(r.1[j] == prev.1[j]);
                }
            }
        } else {
            assert(r.1 == prev.1);
            assert(r.0 == prev.0.push(e));
            assert forall|id: Seq<char>| #[trigger] id_active(r.0, id) == (id_active(prev.0, id) || e.0@ == id) by {
                if id_active(r.0, id) {
                    let w = choose|w: int| 0 <= w < r.0.len() && (#[trigger] r.0[w]).0@ == id;
                    if w < prev.0.len() {
                        assert(r.0[w] == prev.0[w]);
                    }
                }
                if id_active(prev.0, id) {
                    let w = choose|w: int| 0 <= w < prev.0.len() && (#[trigger] prev.0[w]).0@ == id;
                    assert(r.0[w] == prev.0[w]);
                }
                if e.0@ == id {
                    assert(r.0[prev.0.len() as int].0@ == id);
                }
            }
        }
    }
}

/// A release keeps the notifications consistent with the active set.
proof fn lemma_release_keeps_trace(active: Seq<(String, u32)>, events: Seq<OutgoingMessage>, keycode: u32)
    requires
        trace_consistent(active, events),
    ensures
        ({
            let r = release_outcome(active, keycode);
            trace_consistent(r.0, events + r.1)
        }),
{
    let r = release_outcome(active, keycode);
    lemma_release_events(active, keycode);
    lemma_release_shape(active, keycode);
    assert forall|j: int| 0 <= j < r.1.len() implies is_kind(#[trigger] r.1[j], false) by {}
    assert forall|id: Seq<char>|
        alternating(#[trigger] presses_of(events + r.1, id)) && (id_active(r.0, id) <==> presses_of(
            events + r.1,
            id,
        ).len() % 2 == 1) by {
        lemma_presses_concat(events, r.1, id);
        lemma_presses_single(r.1, id, false);
        let s = presses_of(events, id);
        assert(alternating(s) && (id_active(active, id) <==> s.len() % 2 == 1));
        assert(has_event_for(r.1, id) == entry_with_code(active, id, keycode));
        assert(id_active(r.0, id) == entry_without_code(active, id, keycode));
        if entry_with_code(active, id, keycode) {
            let m = choose|m: int| 0 <= m < active.len() && (#[trigger] active[m]).0@ == id && active[m].1 == keycode;
            assert(id_active(active, id));
            assert(s.len() % 2 == 1);
            assert(presses_of(events + r.1, id) =~= s.push(false));
            if entry_without_code(active, id, keycode) {
                let n = choose|n: int| 0 <= n < active.len() && (#[trigger] active[n]).0@ == id && active[n].1 != keycode;
                assert(m != n);
                if m < n {
                    assert(active[m].0@ != active[n].0@);
                } else {
                    assert(active[n].0@ != active[m].0@);
                }
            }
        } else {
            assert(presses_of(events + r.1, id) =~= s);
            if id_active(active, id) {
                let w = choose|w: int| 0 <= w < active.len() && (#[trigger] active[w]).0@ == id;
                assert(entry_without_code(active, id, keycode));
            }
            if entry_without_code(active, id, keycode) {
                let w = choose|w: int| 0 <= w < active.len() && (#[trigger] active[w]).0@ == id && active[w].1 != keycode;
                assert(id_active(active, id));
            }
        }
    }
}

/// Every keybind's notifications alternate. Whatever raw key events and new keybind
/// tables an engine that started empty has taken, the notifications about any one
/// id run pressed, released, pressed, ... beginning with pressed, and the id is
/// active exactly when the last of them is a press. The active ids stay distinct.
pub proof fn law_notifications_alternate_per_id(inputs: Seq<EngineInput>)
    ensures
        ({
            let run = engine_run(inputs);
            &&& ids_distinct(run.2)
            &&& forall|id: Seq<char>|
                alternating(#[trigger] presses_of(run.3, id)) && (id_active(run.2, id) <==> presses_of(
                    run.3,
                    id,
                ).len() % 2 == 1)
        }),
    decreases inputs.len(),
{
    if inputs.len() == 0 {
        let run = engine_run(inputs);
        assert forall|id: Seq<char>|
            alternating(#[trigger] presses_of(run.3, id)) && (id_active(run.2, id) <==> presses_of(
                run.3,
                id,
            ).len() % 2 == 1) by {}
    } else {
        law_notifications_alternate_per_id(inputs.drop_last());
        let prev = engine_run(inputs.drop_last());
        assert(trace_consistent(prev.2, prev.3));
        match inputs.last() {
            EngineInput::Key { keycode, pressed } => {
                if pressed {
                    lemma_press_keeps_trace(
                        prev.0,
                        prev.2,
                        prev.3,
                        keycode,
                        held_modifiers(prev.1.insert(keycode), keycode),
                    );
                } else {
                    lemma_release_keeps_trace(prev.2, prev.3, keycode);
                }
            },
            EngineInput::Table(_) => {},
        }
        let run = engine_run(inputs);
        assert(trace_consistent(run.2, run.3));
    }
}

/// A keybind matches a press of `keycode` while the keys `held` are down (the
/// pressed key included): its key is that key, and each of its modifier flags says
/// whether that modifier's key (Shift 16, Control 17, Alt 18, Meta 91) is held as
/// another key than the one pressed.
pub open spec fn matches_press(kb: KeybindInfo, held: Set<u32>, keycode: u32) -> bool {
    &&& kb.keycode == Some(keycode)
    &&& kb.shift == (held.contains(16u32) && keycode != 16)
    &&& kb.ctrl == (held.contains(17u32) && keycode != 17)
    &&& kb.alt == (held.contains(18u32) && keycode != 18)
    &&& kb.meta == (held.contains(91u32) && keycode != 91)
}

/// Every press notification comes from a keybind that fires, in table order.
proof fn lemma_press_events_from_firing(
    kbs: Seq<KeybindInfo>,
    active: Seq<(String, u32)>,
    keycode: u32,
    mods: Modifiers,
)
    ensures
        forall|j: int|
            #![trigger press_outcome(kbs, active, keycode, mods).1[j]]
            0 <= j < press_outcome(kbs, active, keycode, mods).1.len() ==> exists|i: int|
                0 <= i < kbs.len() && fires(#[trigger] kbs[i], keycode, mods)
                    && press_outcome(kbs, active, keycode, mods).1[j] == (OutgoingMessage::Pressed {
                    id: kbs[i].id,
                }),
    decreases kbs.len(),
{
    if kbs.len() > 0 {
        let front = kbs.drop_last();
        lemma_press_events_from_firing(front, active, keycode, mods);
        let prev = press_outcome(front, active, keycode, mods);
        let r = press_outcome(kbs, active, keycode, mods);
        assert forall|j: int| #![trigger r.1[j]] 0 <= j < r.1.len() implies exists|i: int|
            0 <= i < kbs.len() && fires(#[trigger] kbs[i], keycode, mods) && r.1[j] == (
            OutgoingMessage::Pressed { id: kbs[i].id }) by {
            if j < prev.1.len() {
                assert(r.1[j] == prev.1[j]);
                let i = choose|i: int|
                    0 <= i < front.len() && fires(#[trigger] front[i], keycode, mods) && prev.1[j] == (
                    OutgoingMessage::Pressed { id: front[i].id });
                assert(front[i] == kbs[i]);
            } else {
                let i = kbs.len() - 1;
                assert(kbs[i] == kbs.last());
            }
        }
    }
}

/// A key press fires exactly the keybinds that match it. Every keybind whose key
/// is the pressed key and whose Shift, Control, Alt and Meta flags are exactly the
/// modifier keys held (other than the pressed key itself) is active afterwards;
/// and every press notification names such a keybind.
pub proof fn law_press_fires_exactly_matching_keybinds(
    kbs: Seq<KeybindInfo>,
    pressed: Set<u32>,
    active: Seq<(String, u32)>,
    keycode: u32,
)
    ensures
        ({
            let held = pressed.insert(keycode);
            let r = key_transition(kbs, pressed, active, keycode, true);
            &&& forall|i: int|
                0 <= i < kbs.len() && matches_press(#[trigger] kbs[i], held, keycode) ==> id_active(
                    r.1,
                    kbs[i].id@,
                )
            &&& forall|j: int|
                #![trigger r.2[j]]
                0 <= j < r.2.len() ==> exists|i: int|
                    0 <= i < kbs.len() && matches_press(#[trigger] kbs[i], held, keycode) && r.2[j]
                        == (OutgoingMessage::Pressed { id: kbs[i].id })
        }),
{
    let held = pressed.insert(keycode);
    let mods = held_modifiers(held, keycode);
    lemma_fired_active(kbs, active, keycode, mods);
    lemma_press_events_from_firing(kbs, active, keycode, mods);
    assert forall|i: int| 0 <= i < kbs.len() implies #[trigger] matches_press(kbs[i], held, keycode) == fires(
        kbs[i],
        keycode,
        mods,
    ) by {}
}

/// A release notifies exactly the keybinds that the released key activated: with
/// distinct active ids, an id is reported released exactly when its entry carries
/// the released key, and an id stays active exactly when its entry carries another key.
pub proof fn law_release_reports_entries_of_key(active: Seq<(String, u32)>, keycode: u32)
    requires
        ids_distinct(active),
    ensures
        ({
            let r = release_outcome(active, keycode);
            &&& forall|j: int| 0 <= j < r.1.len() ==> (#[trigger] r.1[j] matches OutgoingMessage::Released { .. })
            &&& forall|id: Seq<char>| #[trigger] has_event_for(r.1, id) == entry_with_code(active, id, keycode)
            &&& forall|id: Seq<char>| #[trigger] id_active(r.0, id) == entry_without_code(active, id, keycode)
        }),
{
    lemma_release_events(active, keycode);
}

} // verus!
