use vstd::prelude::*;
use vstd::string::*;
use crate::errors::GoofbindError;
use crate::structs::{EngineState, KeybindInfo, Modifiers};

verus! {

/// The `+`-separated segments of a keybind text, in order; a text without `+` is
/// one segment, and an empty text is one empty segment.
pub open spec fn segments(text: Seq<char>) -> Seq<Seq<char>>
    decreases text.len(),
{
    if text.len() == 0 {
        seq![Seq::<char>::empty()]
    } else {
        let prev = segments(text.drop_last());
        if text.last() == '+' {
            prev.push(Seq::<char>::empty())
        } else {
            prev.update(prev.len() - 1, prev.last().push(text.last()))
        }
    }
}

/// The code of a character with ASCII upper-case letters folded to lower case.
pub open spec fn folded_code(c: char) -> u32 {
    if 65 <= (c as u32) <= 90 {
        ((c as u32) + 32) as u32
    } else {
        c as u32
    }
}

/// A segment names a (lower-case) word, ignoring ASCII case.
pub open spec fn names_word(segment: Seq<char>, word: Seq<char>) -> bool {
    &&& segment.len() == word.len()
    &&& forall|i: int| 0 <= i < segment.len() ==> folded_code(#[trigger] segment[i]) == word[i] as u32
}

pub open spec fn shift_word() -> Seq<char> {
    seq!['s', 'h', 'i', 'f', 't']
}

pub open spec fn ctrl_word() -> Seq<char> {
    seq!['c', 't', 'r', 'l']
}

pub open spec fn alt_word() -> Seq<char> {
    seq!['a', 'l', 't']
}

pub open spec fn meta_word() -> Seq<char> {
    seq!['m', 'e', 't', 'a']
}

/// A segment names one of the four modifiers.
pub open spec fn is_modifier_name(segment: Seq<char>) -> bool {
    names_word(segment, shift_word()) || names_word(segment, ctrl_word()) || names_word(
        segment,
        alt_word(),
    ) || names_word(segment, meta_word())
}

/// Some segment of `segs` names `word`.
pub open spec fn some_names(segs: Seq<Seq<char>>, word: Seq<char>) -> bool {
    exists|i: int| 0 <= i < segs.len() && names_word(#[trigger] segs[i], word)
}

/// Every segment of `segs` names a modifier.
pub open spec fn all_modifiers(segs: Seq<Seq<char>>) -> bool {
    forall|i: int| 0 <= i < segs.len() ==> is_modifier_name(#[trigger] segs[i])
}

/// The virtual-key code of a key segment: a single ASCII letter gives the code of
/// its upper-case form, a single ASCII digit its own code; anything else none.
pub open spec fn key_segment_code(segment: Seq<char>) -> Option<u32> {
    if segment.len() == 1 {
        let c = segment[0] as u32;
        if (65 <= c <= 90) || (48 <= c <= 57) {
            Some(c)
        } else if 97 <= c <= 122 {
            Some((c - 32) as u32)
        } else {
            None
        }
    } else {
        None
    }
}

/// What a keybind text such as `shift+alt+m` describes: the segments before the
/// last name modifiers (`shift`, `ctrl`, `alt`, `meta`, in any ASCII case), the last
/// segment is the key. The key code is absent, so that the keybind never fires,
/// when a modifier segment names no modifier or the key is not a single ASCII
/// letter or digit.
pub open spec fn parsed_keybind(text: Seq<char>) -> (Option<u32>, Modifiers) {
    let segs = segments(text);
    let mods = segs.drop_last();
    (
        if all_modifiers(mods) {
            key_segment_code(segs.last())
        } else {
            None
        },
        Modifiers {
            ctrl: some_names(mods, ctrl_word()),
            alt: some_names(mods, alt_word()),
            shift: some_names(mods, shift_word()),
            meta: some_names(mods, meta_word()),
        },
    )
}

/// The keybind table without the keybinds whose id is `id`, in order.
pub open spec fn without_id(keybinds: Seq<KeybindInfo>, id: Seq<char>) -> Seq<KeybindInfo>
    decreases keybinds.len(),
{
    if keybinds.len() == 0 {
        Seq::empty()
    } else {
        let prev = without_id(keybinds.drop_last(), id);
        if keybinds.last().id@ == id {
            prev
        } else {
            prev.push(keybinds.last())
        }
    }
}

proof fn lemma_segments_nonempty(text: Seq<char>)
    ensures
        segments(text).len() >= 1,
    decreases text.len(),
{
    if text.len() > 0 {
        lemma_segments_nonempty(text.drop_last());
    }
}

/// Whether a segment names `word` (given as its lower-case characters).
fn segment_names(segment: &Vec<char>, word: &Vec<char>) -> (names: bool)
    ensures
        names == names_word(segment@, word@),
{
    if segment.len() != word.len() {
        return false;
    }
    let mut i: usize = 0;
    while i < segment.len()
        invariant
            0 <= i <= segment.len(),
            segment.len() == word.len(),
            forall|j: int| 0 <= j < i ==> folded_code(#[trigger] segment@[j]) == word@[j] as u32,
        decreases segment.len() - i,
    {
        let code = segment[i] as u32;
        let folded = if 65 <= code && code <= 90 {
            code + 32
        } else {
            code
        };
        if folded != word[i] as u32 {
            return false;
        }
        i += 1;
    }
    true
}

/// The key code of the key segment.
fn key_code(segment: &Vec<char>) -> (code: Option<u32>)
    ensures
        code == key_segment_code(segment@),
{
    if segment.len() != 1 {
        return None;
    }
    let c = segment[0] as u32;
    if (65 <= c && c <= 90) || (48 <= c && c <= 57) {
        Some(c)
    } else if 97 <= c && c <= 122 {
        Some(c - 32)
    } else {
        None
    }
}

/// Reads a keybind text such as `shift+alt+m` (see `parsed_keybind`).
pub fn parse_keybind(text: &str) -> (parsed: (Option<u32>, Modifiers))
    ensures
        parsed == parsed_keybind(text@),
{
    let shift = vec!['s', 'h', 'i', 'f', 't'];
    let ctrl = vec!['c', 't', 'r', 'l'];
    let alt = vec!['a', 'l', 't'];
    let meta = vec!['m', 'e', 't', 'a'];
    assert(shift@ =~= shift_word());
    assert(ctrl@ =~= ctrl_word());
    assert(alt@ =~= alt_word());
    assert(meta@ =~= meta_word());
    let n = text.unicode_len();
    let mut current: Vec<char> = Vec::new();
    let mut all_known = true;
    let mut mods = Modifiers { ctrl: false, alt: false, shift: false, meta: false };
    let mut i: usize = 0;
    proof {
        assert(text@.take(0) =~= Seq::<char>::empty());
        assert(segments(text@.take(0)).drop_last() =~= Seq::<Seq<char>>::empty());
    }
    while i < n
        invariant
            0 <= i <= n,
            n == text@.len(),
            shift@ == shift_word(),
            ctrl@ == ctrl_word(),
            alt@ == alt_word(),
            meta@ == meta_word(),
            segments(text@.take(i as int)).len() >= 1,
            current@ == segments(text@.take(i as int)).last(),
            all_known == all_modifiers(segments(text@.take(i as int)).drop_last()),
            mods.ctrl == some_names(segments(text@.take(i as int)).drop_last(), ctrl_word()),
            mods.alt == some_names(segments(text@.take(i as int)).drop_last(), alt_word()),
            mods.shift == some_names(segments(text@.take(i as int)).drop_last(), shift_word()),
            mods.meta == some_names(segments(text@.take(i as int)).drop_last(), meta_word()),
        decreases n - i,
    {
        let c = text.get_char(i);
        let ghost before = segments(text@.take(i as int));
        proof {
            assert(text@.take(i + 1).drop_last() =~= text@.take(i as int));
            assert(text@.take(i + 1).last() == c);
        }
        if c == '+' {
            let is_shift = segment_names(&current, &shift);
            let is_ctrl = segment_names(&current, &ctrl);
            let is_alt = segment_names(&current, &alt);
            let is_meta = segment_names(&current, &meta);
            let ghost after = segments(text@.take(i + 1));
            proof {
                assert(after == before.push(Seq::<char>::empty()));
                assert(after.drop_last() =~= before);
                assert(before =~= before.drop_last().push(before.last()));
            }
            all_known = all_known && (is_shift || is_ctrl || is_alt || is_meta);
            mods = Modifiers {
                ctrl: mods.ctrl || is_ctrl,
                alt: mods.alt || is_alt,
                shift: mods.shift || is_shift,
                meta: mods.meta || is_meta,
            };
            current = Vec::new();
            proof {
                let prefix = before.drop_last();
                assert(all_known == all_modifiers(before)) by {
                    if all_known {
                        assert forall|k: int| 0 <= k < before.len() implies is_modifier_name(#[trigger] before[k]) by {
                            if k < prefix.len() {
                                assert(before[k] == prefix[k]);
                            }
                        }
                    } else {
                        if !all_modifiers(prefix) {
                            let k = choose|k: int| 0 <= k < prefix.len() && !is_modifier_name(#[trigger] prefix[k]);
                            assert(before[k] == prefix[k]);
                        } else {
                            assert(!is_modifier_name(before[before.len() - 1]));
                        }
                    }
                }
                assert forall|w: Seq<char>| #[trigger] some_names(before, w) == (some_names(prefix, w) || names_word(before.last(), w)) by {
                    if some_names(prefix, w) {
                        let k = choose|k: int| 0 <= k < prefix.len() && names_word(#[trigger] prefix[k], w);
                        assert(before[k] == prefix[k]);
                    }
                    if some_names(before, w) && !names_word(before.last(), w) {
                        let k = choose|k: int| 0 <= k < before.len() && names_word(#[trigger] before[k], w);
                        assert(prefix[k] == before[k]);
                    }
                }
                assert(mods.ctrl == some_names(before, ctrl_word()));
                assert(mods.alt == some_names(before, alt_word()));
                assert(mods.shift == some_names(before, shift_word()));
                assert(mods.meta == some_names(before, meta_word()));
                assert(current@ =~= after.last());
            }
        } else {
            current.push(c);
            proof {
                let after = segments(text@.take(i + 1));
                assert(after == before.update(before.len() - 1, before.last().push(c)));
                assert(after.drop_last() =~= before.drop_last());
            }
        }
        i += 1;
    }
    proof {
        assert(text@.take(n as int) =~= text@);
    }
    let keycode = if all_known {
        key_code(&current)
    } else {
        None
    };
    (keycode, mods)
}

/// Removes the keybinds whose id is `id`, keeping the others in order.
fn remove_id(keybinds: &Vec<KeybindInfo>, id: &String) -> (kept: Vec<KeybindInfo>)
    ensures
        kept@ == without_id(keybinds@, id@),
{
    let mut kept: Vec<KeybindInfo> = Vec::new();
    let mut i: usize = 0;
    while i < keybinds.len()
        invariant
            0 <= i <= keybinds.len(),
            kept@ == without_id(keybinds@.take(i as int), id@),
        decreases keybinds.len() - i,
    {
        assert(keybinds@.take(i + 1).drop_last() =~= keybinds@.take(i as int));
        if !(keybinds[i].id == *id) {
            kept.push(keybinds[i].duplicate());
        }
        i += 1;
    }
    assert(keybinds@.take(keybinds.len() as int) =~= keybinds@);
    kept
}

/// The keybind that `register_keybind` adds for a text and an id.
pub open spec fn registered_keybind(text: Seq<char>, id: String) -> KeybindInfo {
    let parsed = parsed_keybind(text);
    KeybindInfo {
        id,
        name: None,
        keycode: parsed.0,
        ctrl: parsed.1.ctrl,
        alt: parsed.1.alt,
        shift: parsed.1.shift,
        meta: parsed.1.meta,
    }
}

/// The keybind table after registering the text `text` under `id`.
pub open spec fn table_after_register(keybinds: Seq<KeybindInfo>, text: Seq<char>, id: String) -> Seq<
    KeybindInfo,
> {
    without_id(keybinds, id@).push(registered_keybind(text, id))
}

/// Registers the keybind described by a text such as `shift+alt+m` (see
/// `parsed_keybind`) under `id`, replacing any keybind with that id; it is
/// appended at the end of the table. Held keys and active keybinds are not touched.
pub fn register_keybind(state: &mut EngineState, keybind: String, id: String) -> (result: Result<
    (),
    GoofbindError,
>)
    ensures
        result is Ok,
        final(state).keybinds@ == table_after_register(old(state).keybinds@, keybind@, id),
        final(state).pressed_keys == old(state).pressed_keys,
        final(state).active_keybinds == old(state).active_keybinds,
{
    let parsed = parse_keybind(keybind.as_str());
    let mut keybinds = remove_id(&state.keybinds, &id);
    keybinds.push(
        KeybindInfo {
            id,
            name: None,
            keycode: parsed.0,
            ctrl: parsed.1.ctrl,
            alt: parsed.1.alt,
            shift: parsed.1.shift,
            meta: parsed.1.meta,
        },
    );
    state.set_keybinds(keybinds);
    Ok(())
}

/// Removes every keybind with the id `id`. Held keys and active keybinds are not
/// touched: a keybind that is active is still reported released when its key goes up.
pub fn unregister_keybind(state: &mut EngineState, id: String) -> (result: Result<(), GoofbindError>)
    ensures
        result is Ok,
        final(state).keybinds@ == without_id(old(state).keybinds@, id@),
        final(state).pressed_keys == old(state).pressed_keys,
        final(state).active_keybinds == old(state).active_keybinds,
{
    let keybinds = remove_id(&state.keybinds, &id);
    state.set_keybinds(keybinds);
    Ok(())
}

proof fn lemma_without_id_idempotent(keybinds: Seq<KeybindInfo>, id: Seq<char>)
    ensures
        without_id(without_id(keybinds, id), id) == without_id(keybinds, id),
        forall|i: int| 0 <= i < without_id(keybinds, id).len() ==> (#[trigger] without_id(keybinds, id)[i]).id@ != id,
    decreases keybinds.len(),
{
    if keybinds.len() > 0 {
        lemma_without_id_idempotent(keybinds.drop_last(), id);
        let prev = without_id(keybinds.drop_last(), id);
        if keybinds.last().id@ != id {
            let next = prev.push(keybinds.last());
            assert(next.drop_last() =~= prev);
        }
    }
}

/// Unregistering an id undoes registering it: registering a keybind under an id
/// and then unregistering that id leaves the table that unregistering alone leaves.
pub proof fn law_unregister_undoes_register(keybinds: Seq<KeybindInfo>, text: Seq<char>, id: String)
    ensures
        without_id(without_id(keybinds, id@).push(registered_keybind(text, id)), id@) == without_id(
            keybinds,
            id@,
        ),
{
    lemma_without_id_idempotent(keybinds, id@);
    let pushed = without_id(keybinds, id@).push(registered_keybind(text, id));
    assert(pushed.drop_last() =~= without_id(keybinds, id@));
}

/// After unregistering an id, no keybind with that id is left.
pub proof fn law_unregister_removes_id(keybinds: Seq<KeybindInfo>, id: Seq<char>)
    ensures
        forall|i: int| 0 <= i < without_id(keybinds, id).len() ==> (#[trigger] without_id(keybinds, id)[i]).id@ != id,
{
    lemma_without_id_idempotent(keybinds, id);
}

/// A character with ASCII upper-case letters folded to lower case.
pub open spec fn lower_char(c: char) -> char {
    if 65 <= (c as u32) <= 90 {
        (((c as u32) + 32) as u32) as char
    } else {
        c
    }
}

/// A text with its ASCII upper-case letters folded to lower case.
pub open spec fn ascii_lowercase(text: Seq<char>) -> Seq<char> {
    text.map_values(|c: char| lower_char(c))
}

proof fn lemma_lower_char(c: char)
    ensures
        folded_code(lower_char(c)) == folded_code(c),
        (lower_char(c) == '+') == (c == '+'),
        (lower_char(c) as u32 == c as u32) || (65 <= (c as u32) <= 90 && lower_char(c) as u32 == (c as u32) + 32),
{
    if 65 <= (c as u32) <= 90 {
        assert((((c as u32) + 32) as u32) as char as u32 == (c as u32) + 32);
    }
}

proof fn lemma_segments_lowercase(text: Seq<char>)
    ensures
        segments(ascii_lowercase(text)) == segments(text).map_values(|s: Seq<char>| ascii_lowercase(s)),
    decreases text.len(),
{
    lemma_segments_nonempty(text);
    if text.len() == 0 {
        assert(ascii_lowercase(text) =~= Seq::<char>::empty());
        assert(segments(text).map_values(|s: Seq<char>| ascii_lowercase(s)) =~= seq![Seq::<char>::empty()]) by {
            assert(ascii_lowercase(Seq::<char>::empty()) =~= Seq::<char>::empty());
        }
    } else {
        let front = text.drop_last();
        let c = text.last();
        lemma_segments_lowercase(front);
        lemma_segments_nonempty(front);
        lemma_lower_char(c);
        let low = ascii_lowercase(text);
        assert(low.drop_last() =~= ascii_lowercase(front));
        assert(low.last() == lower_char(c));
        let prev = segments(front);
        let lowprev = prev.map_values(|s: Seq<char>| ascii_lowercase(s));
        if c == '+' {
            assert(ascii_lowercase(Seq::<char>::empty()) =~= Seq::<char>::empty());
            assert(segments(text).map_values(|s: Seq<char>| ascii_lowercase(s)) =~= lowprev.push(
                Seq::<char>::empty(),
            ));
        } else {
            assert(ascii_lowercase(prev.last().push(c)) =~= ascii_lowercase(prev.last()).push(lower_char(c)));
            assert(segments(text).map_values(|s: Seq<char>| ascii_lowercase(s)) =~= lowprev.update(
                lowprev.len() - 1,
                lowprev.last().push(lower_char(c)),
            ));
        }
    }
}

proof fn lemma_segment_lowercase(segment: Seq<char>)
    ensures
        forall|w: Seq<char>| #[trigger] names_word(ascii_lowercase(segment), w) == names_word(segment, w),
        key_segment_code(ascii_lowercase(segment)) == key_segment_code(segment),
{
    let low = ascii_lowercase(segment);
    assert forall|i: int| 0 <= i < segment.len() implies folded_code(#[trigger] low[i]) == folded_code(segment[i]) by {
        lemma_lower_char(segment[i]);
    }
    assert forall|w: Seq<char>| #[trigger] names_word(low, w) == names_word(segment, w) by {
        if names_word(low, w) {
            assert forall|i: int| 0 <= i < segment.len() implies folded_code(#[trigger] segment[i]) == w[i] as u32 by {
                assert(folded_code(low[i]) == folded_code(segment[i]));
            }
        }
        if names_word(segment, w) {
            assert forall|i: int| 0 <= i < low.len() implies folded_code(#[trigger] low[i]) == w[i] as u32 by {
                assert(folded_code(low[i]) == folded_code(segment[i]));
            }
        }
    }
    if segment.len() == 1 {
        lemma_lower_char(segment[0]);
    }
}

/// The ASCII case of a keybind text does not matter: `SHIFT+CTRL+A` describes the
/// same keybind as `shift+ctrl+a`.
pub proof fn law_keybind_text_ignores_case(text: Seq<char>)
    ensures
        parsed_keybind(ascii_lowercase(text)) == parsed_keybind(text),
{
    lemma_segments_lowercase(text);
    lemma_segments_nonempty(text);
    let segs = segments(text);
    let low = segs.map_values(|s: Seq<char>| ascii_lowercase(s));
    let mods = segs.drop_last();
    let lmods = low.drop_last();
    assert forall|i: int| 0 <= i < segs.len() implies #[trigger] low[i] == ascii_lowercase(segs[i]) by {}
    assert forall|i: int, w: Seq<char>| 0 <= i < mods.len() implies #[trigger] names_word(lmods[i], w)
        == names_word(mods[i], w) by {
        assert(lmods[i] == ascii_lowercase(mods[i]));
        lemma_segment_lowercase(mods[i]);
    }
    lemma_segment_lowercase(segs.last());
    assert(low.last() == ascii_lowercase(segs.last()));
    assert(all_modifiers(lmods) == all_modifiers(mods)) by {
        if all_modifiers(mods) {
            assert forall|i: int| 0 <= i < lmods.len() implies is_modifier_name(#[trigger] lmods[i]) by {
                assert(is_modifier_name(mods[i]));
            }
        }
        if all_modifiers(lmods) {
            assert forall|i: int| 0 <= i < mods.len() implies is_modifier_name(#[trigger] mods[i]) by {
                assert(is_modifier_name(lmods[i]));
            }
        }
    }
    assert forall|w: Seq<char>| #[trigger] some_names(lmods, w) == some_names(mods, w) by {
        if some_names(lmods, w) {
            let k = choose|k: int| 0 <= k < lmods.len() && names_word(#[trigger] lmods[k], w);
            assert(names_word(mods[k], w));
        }
        if some_names(mods, w) {
            let k = choose|k: int| 0 <= k < mods.len() && names_word(#[trigger] mods[k], w);
            assert(names_word(lmods[k], w));
        }
    }
}

/// Whether a keybind's id is other than `id`.
pub open spec fn has_other_id(id: Seq<char>) -> spec_fn(KeybindInfo) -> bool {
    |kb: KeybindInfo| kb.id@ != id
}

/// Unregistering keeps exactly the keybinds with other ids, in their order.
pub proof fn law_unregister_keeps_others_in_order(keybinds: Seq<KeybindInfo>, id: Seq<char>)
    ensures
        without_id(keybinds, id) == keybinds.filter(has_other_id(id)),
    decreases keybinds.len(),
{
    reveal(Seq::filter);
    if keybinds.len() > 0 {
        law_unregister_keeps_others_in_order(keybinds.drop_last(), id);
    }
}

/// After registering, the table holds exactly one keybind with the id: the new
/// one, last, with no name and with the key code and modifiers that the text
/// describes; the keybinds with other ids stay, in their order, before it.
pub proof fn law_register_leaves_one_keybind_per_id(keybinds: Seq<KeybindInfo>, text: Seq<char>, id: String)
    ensures
        ({
            let after = table_after_register(keybinds, text, id);
            let parsed = parsed_keybind(text);
            &&& after.len() >= 1
            &&& after.last().id == id
            &&& after.last().name is None
            &&& after.last().keycode == parsed.0
            &&& after.last().ctrl == parsed.1.ctrl && after.last().alt == parsed.1.alt
            &&& after.last().shift == parsed.1.shift && after.last().meta == parsed.1.meta
            &&& forall|i: int| 0 <= i < after.len() - 1 ==> (#[trigger] after[i]).id@ != id@
            &&& after.drop_last() == keybinds.filter(has_other_id(id@))
        }),
{
    lemma_without_id_idempotent(keybinds, id@);
    law_unregister_keeps_others_in_order(keybinds, id@);
    let after = table_after_register(keybinds, text, id);
    assert(after.drop_last() =~= without_id(keybinds, id@));
    assert forall|i: int| 0 <= i < after.len() - 1 implies (#[trigger] after[i]).id@ != id@ by {
        assert(after[i] == without_id(keybinds, id@)[i]);
    }
}

/// A text made of one modifier name (in lower case), `+` and an ASCII letter
/// describes the keybind on that letter's upper-case code with exactly that modifier.
pub proof fn law_modifier_and_letter(c: char)
    requires
        ('a' <= c <= 'z') || ('A' <= c <= 'Z'),
    ensures
        ({
            let code = if 'a' <= c <= 'z' {
                Some(((c as u32) - 32) as u32)
            } else {
                Some(c as u32)
            };
            &&& parsed_keybind(seq!['s', 'h', 'i', 'f', 't', '+', c]) == (code, Modifiers {
                ctrl: false,
                alt: false,
                shift: true,
                meta: false,
            })
            &&& parsed_keybind(seq!['c', 't', 'r', 'l', '+', c]) == (code, Modifiers {
                ctrl: true,
                alt: false,
                shift: false,
                meta: false,
            })
            &&& parsed_keybind(seq!['a', 'l', 't', '+', c]) == (code, Modifiers {
                ctrl: false,
                alt: true,
                shift: false,
                meta: false,
            })
            &&& parsed_keybind(seq!['m', 'e', 't', 'a', '+', c]) == (code, Modifiers {
                ctrl: false,
                alt: false,
                shift: false,
                meta: true,
            })
        }),
{
    let words = seq![shift_word(), ctrl_word(), alt_word(), meta_word()];
    assert forall|a: int, b: int| 0 <= a < 4 && 0 <= b < 4 implies names_word(
        #[trigger] words[a],
        #[trigger] words[b],
    ) == (a == b) by {
        if a != b && words[a].len() == words[b].len() && names_word(words[a], words[b]) {
            assert(folded_code(words[a][0]) == words[b][0] as u32);
            assert(folded_code(words[a][1]) == words[b][1] as u32);
        }
        if a == b {
            assert forall|i: int| 0 <= i < words[a].len() implies folded_code(#[trigger] words[a][i])
                == words[b][i] as u32 by {}
        }
    }
    assert(names_word(words[0], words[0]) && names_word(words[1], words[1]));
    assert(names_word(words[2], words[2]) && names_word(words[3], words[3]));
    assert(!names_word(words[0], words[1]) && !names_word(words[0], words[2]) && !names_word(words[0], words[3]));
    assert(!names_word(words[1], words[0]) && !names_word(words[1], words[2]) && !names_word(words[1], words[3]));
    assert(!names_word(words[2], words[0]) && !names_word(words[2], words[1]) && !names_word(words[2], words[3]));
    assert(!names_word(words[3], words[0]) && !names_word(words[3], words[1]) && !names_word(words[3], words[2]));
    lemma_one_modifier(shift_word(), c);
    lemma_one_modifier(ctrl_word(), c);
    lemma_one_modifier(alt_word(), c);
    lemma_one_modifier(meta_word(), c);
    assert(shift_word().push('+').push(c) =~= seq!['s', 'h', 'i', 'f', 't', '+', c]);
    assert(ctrl_word().push('+').push(c) =~= seq!['c', 't', 'r', 'l', '+', c]);
    assert(alt_word().push('+').push(c) =~= seq!['a', 'l', 't', '+', c]);
    assert(meta_word().push('+').push(c) =~= seq!['m', 'e', 't', 'a', '+', c]);
    assert(seq![c][0] == c);
}

/// A modifier name, `+` and a key character describe that key with the modifiers
/// that the name names.
proof fn lemma_one_modifier(w: Seq<char>, c: char)
    requires
        forall|i: int| 0 <= i < w.len() ==> w[i] != '+',
        c != '+',
        is_modifier_name(w),
    ensures
        parsed_keybind(w.push('+').push(c)) == (key_segment_code(seq![c]), Modifiers {
            ctrl: names_word(w, ctrl_word()),
            alt: names_word(w, alt_word()),
            shift: names_word(w, shift_word()),
            meta: names_word(w, meta_word()),
        }),
{
    lemma_two_segments(w, c);
    let mods = seq![w];
    assert(mods[0] == w);
    assert(all_modifiers(mods));
    assert forall|word: Seq<char>| #[trigger] some_names(mods, word) == names_word(w, word) by {
        if names_word(w, word) {
            assert(names_word(mods[0], word));
        }
    }
}

/// A text without `+` is one segment.
proof fn lemma_segments_plain(w: Seq<char>)
    requires
        forall|i: int| 0 <= i < w.len() ==> w[i] != '+',
    ensures
        segments(w) == seq![w],
    decreases w.len(),
{
    if w.len() > 0 {
        lemma_segments_plain(w.drop_last());
        assert(w.drop_last().push(w.last()) =~= w);
        assert(seq![w.drop_last()].update(0, w.drop_last().push(w.last())) =~= seq![w]);
    } else {
        assert(w =~= Seq::<char>::empty());
    }
}

/// The segments of a word without `+`, then `+`, then a character other than `+`,
/// are the word and the character.
proof fn lemma_two_segments(w: Seq<char>, c: char)
    requires
        forall|i: int| 0 <= i < w.len() ==> w[i] != '+',
        c != '+',
    ensures
        segments(w.push('+').push(c)) == seq![w, seq![c]],
        segments(w.push('+').push(c)).drop_last() == seq![w],
        segments(w.push('+').push(c)).last() == seq![c],
{
    lemma_segments_plain(w);
    let t1 = w.push('+');
    let t2 = t1.push(c);
    assert(t1.drop_last() =~= w);
    assert(t2.drop_last() =~= t1);
    assert(segments(t1) == seq![w].push(Seq::<char>::empty()));
    assert(Seq::<char>::empty().push(c) =~= seq![c]);
    assert(segments(t2) =~= seq![w, seq![c]]);
    assert(seq![w, seq![c]].drop_last() =~= seq![w]);
}

} // verus!
