//! The hotkey state machine: the set of currently pressed keys, the
//! registered bindings, and which bindings fire on each raw key event.
//!
//! Matching is deliberately a superset match: a binding fires when its
//! trigger is pressed and every one of its modifiers is held, whatever
//! extra keys are held besides. The OS-level listener thread lives
//! outside the core; it feeds events to [`HotkeyManager::on_event`] and
//! dispatches the returned binding ids to their callbacks without
//! blocking the event stream.

use vstd::prelude::*;
use crate::text::str_eq;

verus! {

/// A keyboard key, by the names the bindings use; any other key travels
/// as its raw code.
#[derive(Clone, Copy, Debug, PartialEq, Eq, Structural)]
pub enum Key {
    Alt,
    AltGr,
    ControlLeft,
    ControlRight,
    ShiftLeft,
    ShiftRight,
    MetaLeft,
    MetaRight,
    Space,
    Return,
    Escape,
    Tab,
    Backspace,
    Other(u32),
}

/// A raw keyboard event.
#[derive(Clone, Copy, Debug, PartialEq, Eq, Structural)]
pub enum KeyEvent {
    Press(Key),
    Release(Key),
}

/// One registered shortcut: its required modifiers, its trigger key, and
/// the id its callback is filed under outside the core.
#[derive(Debug, Clone)]
pub struct HotkeyBinding {
    pub id: u64,
    pub modifiers: Vec<Key>,
    pub trigger: Key,
}

/// A binding fires on a press of `k` when `k` is its trigger and every
/// modifier is among the pressed keys — a superset match: extra pressed
/// keys never block it.
pub open spec fn spec_binding_fires(b: HotkeyBinding, pressed: Seq<Key>, k: Key) -> bool {
    b.trigger == k && forall|i: int|
        0 <= i < b.modifiers@.len() ==> pressed.contains(#[trigger] b.modifiers@[i])
}

/// The ids of the bindings that fire on a press of `k`, in registration
/// order.
pub open spec fn fired_ids(bs: Seq<HotkeyBinding>, pressed: Seq<Key>, k: Key) -> Seq<u64>
    decreases bs.len(),
{
    if bs.len() == 0 {
        Seq::empty()
    } else {
        let rest = fired_ids(bs.drop_last(), pressed, k);
        if spec_binding_fires(bs.last(), pressed, k) {
            rest.push(bs.last().id)
        } else {
            rest
        }
    }
}

/// The bindings that do not carry exactly the given modifiers and
/// trigger, in order.
pub open spec fn bindings_without(bs: Seq<HotkeyBinding>, mods: Seq<Key>, trigger: Key) -> Seq<
    HotkeyBinding,
>
    decreases bs.len(),
{
    if bs.len() == 0 {
        Seq::empty()
    } else if bs[0].modifiers@ == mods && bs[0].trigger == trigger {
        bindings_without(bs.drop_first(), mods, trigger)
    } else {
        seq![bs[0]] + bindings_without(bs.drop_first(), mods, trigger)
    }
}

/// Tracks pressed keys and registered bindings.
pub struct HotkeyManager {
    bindings: Vec<HotkeyBinding>,
    pressed: Vec<Key>,
    next_id: u64,
}

impl HotkeyManager {
    /// The registered bindings.
    pub closed spec fn spec_bindings(&self) -> Seq<HotkeyBinding> {
        self.bindings@
    }

    /// The pressed keys, as the state tracks them.
    pub closed spec fn spec_pressed(&self) -> Seq<Key> {
        self.pressed@
    }

    /// Whether the state holds `k` as pressed: membership in the
    /// pressed keys.
    pub open spec fn is_pressed(&self, k: Key) -> bool {
        self.spec_pressed().contains(k)
    }

    /// The id the next registration will take.
    pub closed spec fn spec_next_id(&self) -> u64 {
        self.next_id
    }

    /// A fresh manager: no bindings, nothing pressed.
    pub fn new() -> (r: HotkeyManager)
        ensures
            r.spec_bindings().len() == 0,
            r.spec_pressed().len() == 0,
            r.spec_next_id() == 0,
    {
        HotkeyManager { bindings: Vec::new(), pressed: Vec::new(), next_id: 0 }
    }

    /// Register a binding; its callback is filed under the returned id
    /// outside the core.
    pub fn register(&mut self, modifiers: Vec<Key>, trigger: Key) -> (id: u64)
        requires
            old(self).spec_next_id() < u64::MAX,
        ensures
            id == old(self).spec_next_id(),
            final(self).spec_next_id() == id + 1,
            final(self).spec_bindings() == old(self).spec_bindings().push(
                HotkeyBinding { id, modifiers: modifiers, trigger },
            ),
            final(self).spec_pressed() == old(self).spec_pressed(),
    {
        let id = self.next_id;
        self.next_id = id + 1;
        let ghost mods = modifiers@;
        self.bindings.push(HotkeyBinding { id, modifiers, trigger });
        id
    }

    /// Remove every binding with exactly these modifiers and this
    /// trigger.
    pub fn remove_hotkey(&mut self, modifiers: &Vec<Key>, trigger: Key)
        ensures
            final(self).spec_bindings() == bindings_without(
                old(self).spec_bindings(),
                modifiers@,
                trigger,
            ),
            final(self).spec_pressed() == old(self).spec_pressed(),
    {
        let mut j: usize = 0;
        proof {
            assert(self.bindings@.take(0) =~= Seq::<HotkeyBinding>::empty());
            assert(self.bindings@.skip(0) =~= self.bindings@);
            assert(Seq::<HotkeyBinding>::empty() + bindings_without(
                self.bindings@,
                modifiers@,
                trigger,
            ) =~= bindings_without(self.bindings@, modifiers@, trigger));
        }
        while j < self.bindings.len()
            invariant
                j <= self.bindings@.len(),
                bindings_without(old(self).bindings@, modifiers@, trigger) == self.bindings@.take(
                    j as int,
                ) + bindings_without(self.bindings@.skip(j as int), modifiers@, trigger),
                forall|k: int|
                    0 <= k < j ==> !(#[trigger] self.bindings@[k].modifiers@ == modifiers@
                        && self.bindings@[k].trigger == trigger),
                self.pressed == old(self).pressed,
                self.next_id == old(self).next_id,
            decreases self.bindings@.len() - j,
        {
            proof {
                let s = self.bindings@;
                assert(s.skip(j as int)[0] == s[j as int]);
                assert(s.skip(j as int).drop_first() =~= s.skip(j + 1));
            }
            let same_mods = keys_eq(&self.bindings[j].modifiers, modifiers);
            let same_trigger = self.bindings[j].trigger == trigger;
            if same_mods && same_trigger {
                let ghost before = self.bindings@;
                self.bindings.remove(j);
                proof {
                    assert(bindings_without(before.skip(j as int), modifiers@, trigger)
                        == bindings_without(before.skip(j as int).drop_first(), modifiers@, trigger));
                    assert(self.bindings@.take(j as int) =~= before.take(j as int));
                    assert(self.bindings@.skip(j as int) =~= before.skip(j as int).drop_first());
                    assert(forall|k: int|
                        0 <= k < j ==> #[trigger] self.bindings@[k] == before[k]);
                }
            } else {
                proof {
                    let s = self.bindings@;
                    assert(s.take(j + 1) =~= s.take(j as int).push(s[j as int]));
                    assert(s.take(j as int) + (seq![s[j as int]] + bindings_without(
                        s.skip(j + 1),
                        modifiers@,
                        trigger,
                    )) =~= s.take(j + 1) + bindings_without(s.skip(j + 1), modifiers@, trigger));
                }
                j += 1;
            }
        }
        proof {
            assert(self.bindings@.take(j as int) =~= self.bindings@);
            assert(self.bindings@.skip(j as int) =~= Seq::<HotkeyBinding>::empty());
            assert(self.bindings@ + Seq::<HotkeyBinding>::empty() =~= self.bindings@);
        }
    }

    /// Drop every binding.
    pub fn clear_hotkeys(&mut self)
        ensures
            final(self).spec_bindings().len() == 0,
            final(self).spec_pressed() == old(self).spec_pressed(),
    {
        self.bindings.clear();
    }

    /// Whether a press of this binding's trigger would fire it now, given
    /// the event: the event is a press of `key` and every modifier is
    /// currently held.
    pub fn check_hotkey(&self, event: &KeyEvent, modifiers: &Vec<Key>, key: Key) -> (r: bool)
        ensures
            r == match *event {
                KeyEvent::Press(k) => k == key && spec_binding_fires(
                    HotkeyBinding { id: 0, modifiers: *modifiers, trigger: key },
                    self.spec_pressed(),
                    key,
                ),
                KeyEvent::Release(_) => false,
            },
    {
        match event {
            KeyEvent::Press(k) => {
                if *k == key {
                    let r = mods_all_pressed(&self.pressed, modifiers);
                    proof {
                        let b = HotkeyBinding { id: 0, modifiers: *modifiers, trigger: key };
                        assert(b.modifiers@ == modifiers@);
                        if r {
                            assert(forall|i: int|
                                0 <= i < b.modifiers@.len() ==> self.pressed@.contains(
                                    #[trigger] b.modifiers@[i],
                                ));
                        } else {
                            let w = choose|w: int|
                                0 <= w < modifiers@.len() && !self.pressed@.contains(
                                    #[trigger] modifiers@[w],
                                );
                            assert(!self.pressed@.contains(b.modifiers@[w]));
                        }
                    }
                    r
                } else {
                    false
                }
            },
            KeyEvent::Release(_) => false,
        }
    }

    /// Feed one raw event: a press inserts the key and reports every
    /// binding that fires against the updated pressed set, in
    /// registration order; a release removes the key and fires nothing.
    #[verifier::rlimit(60)]
    #[verifier::spinoff_prover]
    pub fn on_event(&mut self, event: KeyEvent) -> (fired: Vec<u64>)
        ensures
            final(self).spec_bindings() == old(self).spec_bindings(),
            match event {
                KeyEvent::Press(k) => {
                    &&& forall|k2: Key|
                        final(self).is_pressed(k2) <==> (old(self).is_pressed(k2) || k2 == k)
                    &&& fired@ == fired_ids(
                        old(self).spec_bindings(),
                        final(self).spec_pressed(),
                        k,
                    )
                },
                KeyEvent::Release(k) => {
                    &&& forall|k2: Key|
                        final(self).is_pressed(k2) <==> (old(self).is_pressed(k2) && k2 != k)
                    &&& fired@.len() == 0
                },
            },
    {
        match event {
            KeyEvent::Press(k) => {
                if !key_in_vec(&self.pressed, k) {
                    self.pressed.push(k);
                    assert(forall|k2: Key|
                        self.pressed@.contains(k2) <==> (old(self).pressed@.contains(k2) || k2
                            == k)) by {
                        assert(forall|k2: Key|
                            old(self).pressed@.contains(k2) ==> self.pressed@.contains(k2)) by {
                            assert(forall|i: int|
                                0 <= i < old(self).pressed@.len() ==> self.pressed@[i] == old(
                                self).pressed@[i]);
                        }
                        assert(self.pressed@.last() == k);
                    }
                }
                let mut fired: Vec<u64> = Vec::new();
                let mut i: usize = 0;
                proof {
                    assert(self.bindings@.take(0) =~= Seq::<HotkeyBinding>::empty());
                }
                while i < self.bindings.len()
                    invariant
                        i <= self.bindings@.len(),
                        fired@ == fired_ids(
                            self.bindings@.take(i as int),
                            self.pressed@,
                            k,
                        ),
                    decreases self.bindings@.len() - i,
                {
                    let fires = if self.bindings[i].trigger == k {
                        mods_all_pressed(&self.pressed, &self.bindings[i].modifiers)
                    } else {
                        false
                    };
                    if fires {
                        fired.push(self.bindings[i].id);
                    }
                    proof {
                        let nxt = self.bindings@.take(i + 1);
                        assert(nxt.drop_last() =~= self.bindings@.take(i as int));
                        assert(nxt.last() == self.bindings@[i as int]);
                    }
                    i += 1;
                }
                proof {
                    assert(self.bindings@.take(self.bindings@.len() as int) =~= self.bindings@);
                }
                fired
            },
            KeyEvent::Release(k) => {
                let mut kept: Vec<Key> = Vec::new();
                let mut j: usize = 0;
                while j < self.pressed.len()
                    invariant
                        j <= self.pressed@.len(),
                        forall|k2: Key|
                            kept@.contains(k2) <==> (#[trigger] self.pressed@.take(
                                j as int,
                            ).contains(k2) && k2 != k),
                    decreases self.pressed@.len() - j,
                {
                    let cur = self.pressed[j];
                    proof {
                        let pre = self.pressed@.take(j as int);
                        let nxt = self.pressed@.take(j + 1);
                        assert(nxt =~= pre.push(self.pressed@[j as int]));
                        assert(forall|k2: Key|
                            nxt.contains(k2) <==> (pre.contains(k2) || k2 == self.pressed@[j as int]))
                            by {
                            assert(forall|k2: Key| pre.contains(k2) ==> nxt.contains(k2)) by {
                                assert(forall|x: int|
                                    0 <= x < pre.len() ==> nxt[x] == pre[x]);
                            }
                            assert(nxt.last() == self.pressed@[j as int]);
                        }
                    }
                    if cur != k {
                        let ghost kept0 = kept@;
                        kept.push(cur);
                        proof {
                            assert(forall|k2: Key|
                                kept@.contains(k2) <==> (kept0.contains(k2) || k2 == cur)) by {
                                assert(forall|k2: Key|
                                    kept0.contains(k2) ==> kept@.contains(k2)) by {
                                    assert(forall|x: int|
                                        0 <= x < kept0.len() ==> kept@[x] == kept0[x]);
                                }
                                assert(kept@.last() == cur);
                            }
                        }
                    }
                    j += 1;
                }
                proof {
                    assert(self.pressed@.take(self.pressed@.len() as int) =~= self.pressed@);
                }
                self.pressed = kept;
                Vec::new()
            },
        }
    }
}

/// Whether every listed modifier is among the pressed keys.
fn mods_all_pressed(pressed: &Vec<Key>, mods: &Vec<Key>) -> (r: bool)
    ensures
        r == forall|i: int| 0 <= i < mods@.len() ==> pressed@.contains(#[trigger] mods@[i]),
{
    let mut i: usize = 0;
    while i < mods.len()
        invariant
            i <= mods@.len(),
            forall|j: int| 0 <= j < i ==> pressed@.contains(#[trigger] mods@[j]),
        decreases mods@.len() - i,
    {
        if !key_in_vec(pressed, mods[i]) {
            return false;
        }
        i += 1;
    }
    true
}

/// Whether the key occurs in the vector.
fn key_in_vec(v: &Vec<Key>, k: Key) -> (r: bool)
    ensures
        r == v@.contains(k),
{
    let mut i: usize = 0;
    while i < v.len()
        invariant
            i <= v@.len(),
            forall|j: int| 0 <= j < i ==> v@[j] != k,
        decreases v@.len() - i,
    {
        if v[i] == k {
            return true;
        }
        i += 1;
    }
    assert(!v@.contains(k)) by {
        if v@.contains(k) {
            let w = choose|w: int| 0 <= w < v@.len() && v@[w] == k;
            assert(v@[w] != k);
        }
    }
    false
}

/// Whether two key lists are equal, element for element.
fn keys_eq(a: &Vec<Key>, b: &Vec<Key>) -> (r: bool)
    ensures
        r == (a@ == b@),
{
    if a.len() != b.len() {
        assert(a@ != b@);
        return false;
    }
    let mut i: usize = 0;
    while i < a.len()
        invariant
            a@.len() == b@.len(),
            i <= a@.len(),
            forall|j: int| 0 <= j < i ==> a@[j] == b@[j],
        decreases a@.len() - i,
    {
        if a[i] != b[i] {
            return false;
        }
        i += 1;
    }
    assert(a@ =~= b@);
    true
}

/// The key a configured modifier name denotes, if the name is known.
pub fn parse_modifier(name: &str) -> (r: Option<Key>)
    ensures
        r == spec_parse_modifier(name@),
{
    if str_eq(name, "Alt") {
        Some(Key::Alt)
    } else if str_eq(name, "Ctrl") {
        Some(Key::ControlLeft)
    } else if str_eq(name, "Shift") {
        Some(Key::ShiftLeft)
    } else if str_eq(name, "Meta") {
        Some(Key::MetaLeft)
    } else if str_eq(name, "Super") {
        Some(Key::MetaLeft)
    } else {
        None
    }
}

/// The mapping from configured modifier names to keys.
pub open spec fn spec_parse_modifier(name: Seq<char>) -> Option<Key> {
    if name == "Alt"@ {
        Some(Key::Alt)
    } else if name == "Ctrl"@ {
        Some(Key::ControlLeft)
    } else if name == "Shift"@ {
        Some(Key::ShiftLeft)
    } else if name == "Meta"@ {
        Some(Key::MetaLeft)
    } else if name == "Super"@ {
        Some(Key::MetaLeft)
    } else {
        None
    }
}

/// The keys for a configured modifier list; unknown names are skipped
/// (and logged outside the core).
pub open spec fn spec_parse_modifiers(names: Seq<Seq<char>>) -> Seq<Key>
    decreases names.len(),
{
    if names.len() == 0 {
        Seq::empty()
    } else {
        let rest = spec_parse_modifiers(names.drop_last());
        match spec_parse_modifier(names.last()) {
            Some(key) => rest.push(key),
            None => rest,
        }
    }
}

/// Parse every configured modifier name, skipping unknown names.
pub fn parse_modifiers(names: &Vec<String>) -> (r: Vec<Key>)
    ensures
        r@ == spec_parse_modifiers(crate::text::views_of(names@)),
{
    let ghost nv = crate::text::views_of(names@);
    let mut out: Vec<Key> = Vec::new();
    let mut i: usize = 0;
    proof {
        assert(nv.take(0) =~= Seq::<Seq<char>>::empty());
    }
    while i < names.len()
        invariant
            nv == crate::text::views_of(names@),
            i <= names@.len(),
            out@ == spec_parse_modifiers(nv.take(i as int)),
        decreases names@.len() - i,
    {
        proof {
            let nxt = nv.take(i + 1);
            assert(nxt.drop_last() =~= nv.take(i as int));
            assert(nxt.last() == nv[i as int]);
            assert(nv[i as int] == names@[i as int]@);
        }
        match parse_modifier(names[i].as_str()) {
            Some(key) => {
                out.push(key);
            },
            None => {},
        }
        i += 1;
    }
    proof {
        assert(nv.take(names@.len() as int) =~= nv);
    }
    out
}

/// No spurious firing: an id is in the fired list exactly when some
/// binding carries it and fires — its trigger is the pressed key and
/// every one of its modifiers is held. So a press of a non-trigger key,
/// or one with a required modifier absent, fires nothing.
pub proof fn lemma_fired_ids_members(bs: Seq<HotkeyBinding>, pressed: Seq<Key>, k: Key, x: u64)
    ensures
        fired_ids(bs, pressed, k).contains(x) <==> exists|i: int|
            0 <= i < bs.len() && #[trigger] bs[i].id == x && spec_binding_fires(bs[i], pressed, k),
    decreases bs.len(),
{
    if bs.len() == 0 {
    } else {
        lemma_fired_ids_members(bs.drop_last(), pressed, k, x);
        let rest = fired_ids(bs.drop_last(), pressed, k);
        let whole = fired_ids(bs, pressed, k);
        assert(forall|i: int| 0 <= i < bs.len() - 1 ==> bs.drop_last()[i] == bs[i]);
        if spec_binding_fires(bs.last(), pressed, k) {
            assert(whole == rest.push(bs.last().id));
            if whole.contains(x) {
                let w = choose|w: int| 0 <= w < whole.len() && whole[w] == x;
                if w < rest.len() {
                    assert(rest[w] == x);
                    assert(rest.contains(x));
                } else {
                    assert(bs[bs.len() - 1].id == x);
                }
            }
            if exists|i: int|
                0 <= i < bs.len() && #[trigger] bs[i].id == x && spec_binding_fires(
                    bs[i],
                    pressed,
                    k,
                ) {
                let i = choose|i: int|
                    0 <= i < bs.len() && #[trigger] bs[i].id == x && spec_binding_fires(
                        bs[i],
                        pressed,
                        k,
                    );
                if i == bs.len() - 1 {
                    assert(whole.last() == x);
                } else {
                    assert(bs.drop_last()[i].id == x);
                    let w = choose|w: int| 0 <= w < rest.len() && rest[w] == x;
                    assert(whole[w] == x);
                }
            }
        } else {
            assert(whole == rest);
            if exists|i: int|
                0 <= i < bs.len() && #[trigger] bs[i].id == x && spec_binding_fires(
                    bs[i],
                    pressed,
                    k,
                ) {
                let i = choose|i: int|
                    0 <= i < bs.len() && #[trigger] bs[i].id == x && spec_binding_fires(
                        bs[i],
                        pressed,
                        k,
                    );
                assert(i != bs.len() - 1);
                assert(bs.drop_last()[i].id == x);
            }
            if rest.contains(x) {
            }
        }
    }
}

/// Superset firing: a press of a binding's trigger fires that binding
/// whenever every one of its modifiers is held, whatever extra keys are
/// held besides.
pub proof fn lemma_superset_firing(bs: Seq<HotkeyBinding>, pressed: Seq<Key>, k: Key, i: int)
    requires
        0 <= i < bs.len(),
        spec_binding_fires(bs[i], pressed, k),
    ensures
        fired_ids(bs, pressed, k).contains(bs[i].id),
    decreases bs.len(),
{
    if i == bs.len() - 1 {
        assert(bs.last() == bs[i]);
        assert(fired_ids(bs, pressed, k).last() == bs[i].id);
    } else {
        lemma_superset_firing(bs.drop_last(), pressed, k, i);
        assert(bs.drop_last()[i] == bs[i]);
        let rest = fired_ids(bs.drop_last(), pressed, k);
        let w = choose|w: int| 0 <= w < rest.len() && rest[w] == bs[i].id;
        if spec_binding_fires(bs.last(), pressed, k) {
            assert(fired_ids(bs, pressed, k)[w] == bs[i].id);
        }
    }
}

} // verus!
