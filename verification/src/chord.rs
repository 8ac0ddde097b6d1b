use vstd::prelude::*;
use crate::structs::OutgoingMessage;

verus! {

/// A key chord as the uiohook backends see a key event: the modifiers held and the
/// character the key produces, if any.
#[derive(Debug, Clone, PartialEq, Eq)]
pub struct Chord {
    pub shift: bool,
    pub alt: bool,
    pub ctrl: bool,
    pub character: Option<String>,
}

/// Two chords are the same: the same modifiers and the same character text (or
/// both without a character).
pub open spec fn same_chord(a: Chord, b: Chord) -> bool {
    &&& a.shift == b.shift
    &&& a.alt == b.alt
    &&& a.ctrl == b.ctrl
    &&& match (a.character, b.character) {
        (None, None) => true,
        (Some(x), Some(y)) => x@ == y@,
        _ => false,
    }
}

/// Whether two chords are the same (see `same_chord`).
pub fn chords_equal(a: &Chord, b: &Chord) -> (same: bool)
    ensures
        same == same_chord(*a, *b),
{
    if a.shift != b.shift || a.alt != b.alt || a.ctrl != b.ctrl {
        return false;
    }
    match (&a.character, &b.character) {
        (None, None) => true,
        (Some(x), Some(y)) => *x == *y,
        _ => false,
    }
}

/// The chord tracker of the X11 uiohook backend: the chord that is down together
/// with the id of the keybind it triggered, if any.
pub struct ChordTracker {
    pub down: Option<(Chord, String)>,
}

/// The notifications of a key press with chord `chord`, whose keybind (looked up in
/// the keybind table) is `bound`, when `down` is what the tracker holds: nothing
/// when the same chord is already down (key repeat); otherwise the release of the
/// keybind that was down, if any, then the press of the bound keybind, if any.
pub open spec fn chord_press_events(down: Option<(Chord, String)>, chord: Chord, bound: Option<String>) -> Seq<
    OutgoingMessage,
> {
    match down {
        Some((c, id)) => if same_chord(c, chord) {
            Seq::empty()
        } else {
            seq![OutgoingMessage::Released { id }] + (match bound {
                Some(b) => seq![OutgoingMessage::Pressed { id: b }],
                None => Seq::empty(),
            })
        },
        None => match bound {
            Some(b) => seq![OutgoingMessage::Pressed { id: b }],
            None => Seq::empty(),
        },
    }
}

/// What the tracker holds after that press.
pub open spec fn chord_press_down(down: Option<(Chord, String)>, chord: Chord, bound: Option<String>) -> Option<
    (Chord, String),
> {
    match down {
        Some((c, id)) => if same_chord(c, chord) {
            down
        } else {
            match bound {
                Some(b) => Some((chord, b)),
                None => None,
            }
        },
        None => match bound {
            Some(b) => Some((chord, b)),
            None => None,
        },
    }
}

/// The notifications of a key release when `down` is what the tracker holds.
pub open spec fn chord_release_events(down: Option<(Chord, String)>) -> Seq<OutgoingMessage> {
    match down {
        Some((_, id)) => seq![OutgoingMessage::Released { id }],
        None => Seq::empty(),
    }
}

impl ChordTracker {
    /// A tracker with no chord down.
    pub fn new() -> (tracker: ChordTracker)
        ensures
            tracker.down.is_none(),
    {
        ChordTracker { down: None }
    }

    /// A key went down with chord `chord`; `bound` is the id of the keybind that the
    /// keybind table holds for that chord, if any. Returns the notifications.
    pub fn on_key_pressed(&mut self, chord: Chord, bound: Option<String>) -> (events: Vec<OutgoingMessage>)
        ensures
            events@ == chord_press_events(old(self).down, chord, bound),
            final(self).down == chord_press_down(old(self).down, chord, bound),
    {
        let mut events: Vec<OutgoingMessage> = Vec::new();
        let ghost old_down = self.down;
        let previous = self.down.take();
        match previous {
            Some((c, id)) => {
                if chords_equal(&c, &chord) {
                    self.down = Some((c, id));
                    return events;
                }
                events.push(OutgoingMessage::Released { id });
            },
            None => {},
        }
        match bound {
            Some(b) => {
                events.push(OutgoingMessage::Pressed { id: b.clone() });
                self.down = Some((chord, b));
            },
            None => {},
        }
        proof {
            assert(events@ =~= chord_press_events(old_down, chord, bound));
        }
        events
    }

    /// A key went up: the keybind that was down, if any, is reported released.
    pub fn on_key_released(&mut self) -> (events: Vec<OutgoingMessage>)
        ensures
            final(self).down.is_none(),
            events@ == chord_release_events(old(self).down),
    {
        let mut events: Vec<OutgoingMessage> = Vec::new();
        match self.down.take() {
            Some((_, id)) => events.push(OutgoingMessage::Released { id }),
            None => {},
        }
        events
    }
}

/// The notifications of the Windows uiohook backend when the chord `next` is seen
/// while `down` is the chord held: nothing when they are the same; otherwise the
/// release of the keybind of `down` (`down_id`, looked up in the keybind table),
/// then the press of the keybind of `next` (`next_id`), each if there is one.
pub open spec fn shortcut_events(down: Chord, next: Chord, down_id: Option<String>, next_id: Option<String>) -> Seq<
    OutgoingMessage,
> {
    if same_chord(next, down) {
        Seq::empty()
    } else {
        (match down_id {
            Some(d) => seq![OutgoingMessage::Released { id: d }],
            None => Seq::empty(),
        }) + (match next_id {
            Some(n) => seq![OutgoingMessage::Pressed { id: n }],
            None => Seq::empty(),
        })
    }
}

/// One key event of the Windows uiohook backend: `next` is the chord of the event,
/// `down_id` and `next_id` the ids that the keybind table holds for the chord held
/// and for `next`. A different chord replaces the one held.
pub fn shortcut_transition(down: &mut Chord, next: Chord, down_id: Option<String>, next_id: Option<String>) -> (events:
    Vec<OutgoingMessage>)
    ensures
        events@ == shortcut_events(*old(down), next, down_id, next_id),
        same_chord(next, *old(down)) ==> *final(down) == *old(down),
        !same_chord(next, *old(down)) ==> *final(down) == next,
{
    let mut events: Vec<OutgoingMessage> = Vec::new();
    if chords_equal(&next, down) {
        return events;
    }
    match down_id {
        Some(d) => events.push(OutgoingMessage::Released { id: d }),
        None => {},
    }
    match next_id {
        Some(n) => events.push(OutgoingMessage::Pressed { id: n }),
        None => {},
    }
    *down = next;
    proof {
        assert(events@ =~= shortcut_events(*old(down), next, down_id, next_id));
    }
    events
}

/// Key repeat does not re-trigger: pressing the same chord again, with the same
/// keybind bound to it, reports nothing and changes nothing.
pub proof fn law_chord_repeat_is_silent(down: Option<(Chord, String)>, chord: Chord, bound: Option<String>)
    ensures
        ({
            let after = chord_press_down(down, chord, bound);
            &&& chord_press_events(after, chord, bound) == Seq::<OutgoingMessage>::empty()
            &&& chord_press_down(after, chord, bound) == after
        }),
{
}

/// At most one keybind is down at a time: a press reports at most one release and
/// at most one press, the release first, and the release is of the keybind that was
/// down; what is down afterwards is the keybind just reported pressed.
pub proof fn law_chord_press_releases_before_pressing(
    down: Option<(Chord, String)>,
    chord: Chord,
    bound: Option<String>,
)
    ensures
        ({
            let events = chord_press_events(down, chord, bound);
            let after = chord_press_down(down, chord, bound);
            &&& events.len() <= 2
            &&& forall|i: int|
                0 <= i < events.len() && (#[trigger] events[i] matches OutgoingMessage::Released { .. }) ==> i == 0
                    && (down matches Some((_, id)) && events[i] == (OutgoingMessage::Released { id }))
            &&& forall|i: int|
                0 <= i < events.len() && (#[trigger] events[i] matches OutgoingMessage::Pressed { .. }) ==> i
                    == events.len() - 1 && (after matches Some((_, id)) && events[i] == (
                    OutgoingMessage::Pressed { id }))
        }),
{
}

/// Every chord press is balanced by the release that follows it: when a chord
/// with a bound keybind goes down and that chord was not already down, the next
/// release reports exactly that keybind released.
pub proof fn law_chord_press_then_release(down: Option<(Chord, String)>, chord: Chord, bound: String)
    requires
        !(down matches Some((c, _)) && same_chord(c, chord)),
    ensures
        chord_press_events(down, chord, Some(bound)).last() == (OutgoingMessage::Pressed { id: bound }),
        chord_release_events(chord_press_down(down, chord, Some(bound))) == seq![
            OutgoingMessage::Released { id: bound },
        ],
{
}

/// One input of the chord tracker: a key press with its chord and bound keybind
/// (`ChordTracker::on_key_pressed`), or a key release (`ChordTracker::on_key_released`).
pub enum ChordInput {
    Press(Chord, Option<String>),
    Release,
}

/// What the tracker holds and all notifications after a tracker that started
/// with nothing down (`ChordTracker::new`) has taken `inputs` in order.
pub open spec fn chord_run(inputs: Seq<ChordInput>) -> (Option<(Chord, String)>, Seq<OutgoingMessage>)
    decreases inputs.len(),
{
    if inputs.len() == 0 {
        (None, Seq::empty())
    } else {
        let prev = chord_run(inputs.drop_last());
        match inputs.last() {
            ChordInput::Press(chord, bound) => (
                chord_press_down(prev.0, chord, bound),
                prev.1 + chord_press_events(prev.0, chord, bound),
            ),
            ChordInput::Release => (None, prev.1 + chord_release_events(prev.0)),
        }
    }
}

/// The id a notification is about (the text, for an error).
pub open spec fn message_id(e: OutgoingMessage) -> String {
    match e {
        OutgoingMessage::Pressed { id } => id,
        OutgoingMessage::Released { id } => id,
        OutgoingMessage::Error { message } => message,
    }
}

/// The notification at `i` is a press at an even position, and at an odd one the
/// release of the keybind pressed just before.
pub open spec fn well_placed(events: Seq<OutgoingMessage>, i: int) -> bool {
    if i % 2 == 0 {
        events[i] matches OutgoingMessage::Pressed { .. }
    } else {
        events[i] == (OutgoingMessage::Released { id: message_id(events[i - 1]) })
    }
}

/// The tracker's notifications alternate press, release, press, ... beginning with
/// a press; each release is of the keybind pressed just before it; and a keybind is
/// down exactly when the last notification is its press.
pub open spec fn chord_trace_alternates(down: Option<(Chord, String)>, events: Seq<OutgoingMessage>) -> bool {
    &&& forall|i: int| 0 <= i < events.len() ==> #[trigger] well_placed(events, i)
    &&& match down {
        Some((_, id)) => events.len() % 2 == 1 && events.last() == (OutgoingMessage::Pressed { id }),
        None => events.len() % 2 == 0,
    }
}

proof fn lemma_chord_step(down: Option<(Chord, String)>, events: Seq<OutgoingMessage>, input: ChordInput)
    requires
        chord_trace_alternates(down, events),
    ensures
        match input {
            ChordInput::Press(chord, bound) => chord_trace_alternates(
                chord_press_down(down, chord, bound),
                events + chord_press_events(down, chord, bound),
            ),
            ChordInput::Release => chord_trace_alternates(None, events + chord_release_events(down)),
        },
{
    let n = events.len() as int;
    match input {
        ChordInput::Press(chord, bound) => {
            let added = chord_press_events(down, chord, bound);
            let all = events + added;
            match down {
                Some((c, id)) => {
                    if same_chord(c, chord) {
                        assert(all =~= events);
                    } else {
                        let rel = OutgoingMessage::Released { id };
                        assert(events[n - 1] == (OutgoingMessage::Pressed { id }));
                        match bound {
                            Some(b) => {
                                let prs = OutgoingMessage::Pressed { id: b };
                                assert(all =~= events.push(rel).push(prs));
                                assert forall|i: int| 0 <= i < all.len() implies #[trigger] well_placed(all, i) by {
                                    if i < n {
                                        assert(all[i] == events[i]);
                                        assert(well_placed(events, i));
                                        if i % 2 == 1 {
                                            assert(all[i - 1] == events[i - 1]);
                                        }
                                    } else if i == n {
                                        assert(all[i - 1] == events[n - 1]);
                                    }
                                }
                            },
                            None => {
                                assert(all =~= events.push(rel));
                                assert forall|i: int| 0 <= i < all.len() implies #[trigger] well_placed(all, i) by {
                                    if i < n {
                                        assert(all[i] == events[i]);
                                        assert(well_placed(events, i));
                                        if i % 2 == 1 {
                                            assert(all[i - 1] == events[i - 1]);
                                        }
                                    } else {
                                        assert(all[i - 1] == events[n - 1]);
                                    }
                                }
                            },
                        }
                    }
                },
                None => {
                    match bound {
                        Some(b) => {
                            let prs = OutgoingMessage::Pressed { id: b };
                            assert(all =~= events.push(prs));
                            assert forall|i: int| 0 <= i < all.len() implies #[trigger] well_placed(all, i) by {
                                if i < n {
                                    assert(all[i] == events[i]);
                                    assert(well_placed(events, i));
                                    if i % 2 == 1 {
                                        assert(all[i - 1] == events[i - 1]);
                                    }
                                }
                            }
                        },
                        None => {
                            assert(all =~= events);
                        },
                    }
                },
            }
        },
        ChordInput::Release => {
            let all = events + chord_release_events(down);
            match down {
                Some((c, id)) => {
                    let rel = OutgoingMessage::Released { id };
                    assert(events[n - 1] == (OutgoingMessage::Pressed { id }));
                    assert(all =~= events.push(rel));
                    assert forall|i: int| 0 <= i < all.len() implies #[trigger] well_placed(all, i) by {
                        if i < n {
                            assert(all[i] == events[i]);
                            assert(well_placed(events, i));
                            if i % 2 == 1 {
                                assert(all[i - 1] == events[i - 1]);
                            }
                        } else {
                            assert(all[i - 1] == events[n - 1]);
                        }
                    }
                },
                None => {
                    assert(all =~= events);
                },
            }
        },
    }
}

/// Whatever presses and releases a tracker that started with nothing down has
/// seen, its notifications alternate press, release, press, ... beginning with a
/// press; each release is of the keybind pressed just before it; and a keybind is
/// down exactly when the last notification is its press.
pub proof fn law_chord_notifications_alternate(inputs: Seq<ChordInput>)
    ensures
        chord_trace_alternates(chord_run(inputs).0, chord_run(inputs).1),
    decreases inputs.len(),
{
    if inputs.len() > 0 {
        law_chord_notifications_alternate(inputs.drop_last());
        let prev = chord_run(inputs.drop_last());
        lemma_chord_step(prev.0, prev.1, inputs.last());
    }
}

/// Two chords count as the same exactly when their Shift, Alt and Control flags
/// are equal and their characters are both absent or both present with equal text.
pub proof fn law_same_chord_is_full_equality(a: Chord, b: Chord)
    ensures
        same_chord(a, b) <==> (a.shift == b.shift && a.alt == b.alt && a.ctrl == b.ctrl && (a.character is None) == (
            b.character is None) && (a.character matches Some(x) ==> (b.character matches Some(y) && x@ == y@))),
{
}

/// A press of a chord that differs from the one held (in a modifier or in its
/// character) first reports the held keybind released.
pub proof fn law_changed_chord_releases_held(c: Chord, id: String, chord: Chord, bound: Option<String>)
    requires
        !(c.shift == chord.shift && c.alt == chord.alt && c.ctrl == chord.ctrl && (c.character is None) == (
            chord.character is None) && (c.character matches Some(x) ==> (chord.character matches Some(y) && x@ == y@))),
    ensures
        chord_press_events(Some((c, id)), chord, bound).len() >= 1,
        chord_press_events(Some((c, id)), chord, bound)[0] == (OutgoingMessage::Released { id }),
        chord_press_down(Some((c, id)), chord, bound) == match bound {
            Some(b) => Some((chord, b)),
            None => None,
        },
{
}

/// When the chord changes (in a modifier or in its character), the Windows backend
/// reports the held chord's keybind released, if it has one, and then the new
/// chord's keybind pressed, if it has one, and nothing else; when it does not
/// change, it reports nothing.
pub proof fn law_shortcut_change_releases_then_presses(
    down: Chord,
    next: Chord,
    down_id: Option<String>,
    next_id: Option<String>,
)
    ensures
        ({
            let ev = shortcut_events(down, next, down_id, next_id);
            let changed = !(next.shift == down.shift && next.alt == down.alt && next.ctrl == down.ctrl && (next.character is None) == (
            down.character is None) && (next.character matches Some(x) ==> (down.character matches Some(y) && x@ == y@)));
            &&& !changed ==> ev.len() == 0
            &&& changed ==> ev.len() == (if down_id is Some { 1int } else { 0int }) + (if next_id is Some {
                1int
            } else {
                0int
            })
            &&& changed ==> (down_id matches Some(d) ==> ev[0] == (OutgoingMessage::Released { id: d }))
            &&& changed ==> (next_id matches Some(n) ==> ev.last() == (OutgoingMessage::Pressed { id: n }))
        }),
{
    let ev = shortcut_events(down, next, down_id, next_id);
    if !same_chord(next, down) {
        let r = match down_id {
            Some(d) => seq![OutgoingMessage::Released { id: d }],
            None => Seq::<OutgoingMessage>::empty(),
        };
        let p = match next_id {
            Some(n) => seq![OutgoingMessage::Pressed { id: n }],
            None => Seq::<OutgoingMessage>::empty(),
        };
        assert(ev == r + p);
        if down_id is Some {
            assert(ev[0] == r[0]);
        }
        if next_id is Some {
            assert(ev.last() == p[0]);
        }
    }
}

} // verus!
