//! The canonical hotkey value: an ordered list of modifiers and an ordered,
//! duplicate-free list of base keys, with its platform flag encoding and its
//! re-parseable display form.

use vstd::prelude::*;
use vstd::string::StringExecFns;
use crate::keys::{Key, Modifier};
use crate::text::join_char;

verus! {

/// The mathematical shape of a hotkey: both lists in encounter order.
pub struct HotkeyView {
    pub modifiers: Seq<Modifier>,
    pub keys: Seq<Key>,
}

/// A combination of modifiers and one or more base keys, recognized
/// process-wide regardless of input focus. Identity is the modifier *set*
/// (duplicates meaningless, order irrelevant) together with the full key
/// list in order; the stored modifier order affects display alone.
#[derive(Debug, Eq)]
pub struct Hotkey {
    pub modifiers: Vec<Modifier>,
    pub keys: Vec<Key>,
}

impl View for Hotkey {
    type V = HotkeyView;

    open spec fn view(&self) -> HotkeyView {
        HotkeyView { modifiers: self.modifiers@, keys: self.keys@ }
    }
}

/// Two modifier lists spell the same modifier set.
pub open spec fn same_modifier_set(a: Seq<Modifier>, b: Seq<Modifier>) -> bool {
    forall|m: Modifier| a.contains(m) <==> b.contains(m)
}

/// Hotkey identity: the modifier set and the full key list, in order. This
/// is what `==`, registry lookups and ownership records go by.
#[verifier::opaque]
pub open spec fn hotkey_eq(a: HotkeyView, b: HotkeyView) -> bool {
    same_modifier_set(a.modifiers, b.modifiers) && a.keys == b.keys
}

pub proof fn lemma_hotkey_eq_refl(a: HotkeyView)
    ensures
        hotkey_eq(a, a),
{
    reveal(hotkey_eq);
}

pub proof fn lemma_hotkey_eq_sym(a: HotkeyView, b: HotkeyView)
    requires
        hotkey_eq(a, b),
    ensures
        hotkey_eq(b, a),
{
    reveal(hotkey_eq);
}

pub proof fn lemma_hotkey_eq_trans(a: HotkeyView, b: HotkeyView, c: HotkeyView)
    requires
        hotkey_eq(a, b),
        hotkey_eq(b, c),
    ensures
        hotkey_eq(a, c),
{
    reveal(hotkey_eq);
    assert forall|m: Modifier| a.modifiers.contains(m) <==> c.modifiers.contains(m) by {
        assert(a.modifiers.contains(m) <==> b.modifiers.contains(m));
        assert(b.modifiers.contains(m) <==> c.modifiers.contains(m));
    }
}

/// Whether some element of the list is the same hotkey.
pub open spec fn hotkeys_contain(l: Seq<HotkeyView>, hv: HotkeyView) -> bool {
    exists|i: int| 0 <= i < l.len() && hotkey_eq(l[i], hv)
}

/// Whether `m` occurs in `ms`.
pub(crate) fn contains_modifier(ms: &Vec<Modifier>, m: Modifier) -> (r: bool)
    ensures
        r == ms@.contains(m),
{
    let mut i: usize = 0;
    while i < ms.len()
        invariant
            i <= ms@.len(),
            forall|j: int| 0 <= j < i ==> ms@[j] != m,
        decreases ms@.len() - i,
    {
        if ms[i] == m {
            return true;
        }
        i = i + 1;
    }
    false
}

/// Whether every modifier of `a` also occurs in `b`.
fn modifier_subset(a: &Vec<Modifier>, b: &Vec<Modifier>) -> (r: bool)
    ensures
        r == forall|m: Modifier| a@.contains(m) ==> b@.contains(m),
{
    let mut i: usize = 0;
    while i < a.len()
        invariant
            i <= a@.len(),
            forall|j: int| 0 <= j < i ==> b@.contains(#[trigger] a@[j]),
        decreases a@.len() - i,
    {
        if !contains_modifier(b, a[i]) {
            proof {
                assert(a@.contains(a@[i as int]));
            }
            return false;
        }
        i = i + 1;
    }
    proof {
        assert forall|m: Modifier| a@.contains(m) implies b@.contains(m) by {
            let w = choose|w: int| 0 <= w < a@.len() && a@[w] == m;
            assert(b@.contains(a@[w]));
        }
    }
    true
}

fn keys_eq(a: &Vec<Key>, b: &Vec<Key>) -> (r: bool)
    ensures
        r == (a@ == b@),
{
    if a.len() != b.len() {
        return false;
    }
    let mut i: usize = 0;
    while i < a.len()
        invariant
            a@.len() == b@.len(),
            i <= a@.len(),
            forall|j: int| 0 <= j < i ==> a@[j] == b@[j],
        decreases a@.len() - i,
    {
        if a[i] != b[i] {
            return false;
        }
        i = i + 1;
    }
    proof {
        assert(a@ =~= b@);
    }
    true
}

impl PartialEq for Hotkey {
    fn eq(&self, other: &Hotkey) -> (r: bool) {
        let sub_ab = modifier_subset(&self.modifiers, &other.modifiers);
        let sub_ba = modifier_subset(&other.modifiers, &self.modifiers);
        let keq = keys_eq(&self.keys, &other.keys);
        proof {
            reveal(hotkey_eq);
            if sub_ab && sub_ba {
                assert(same_modifier_set(self.modifiers@, other.modifiers@));
            }
            if same_modifier_set(self.modifiers@, other.modifiers@) {
                assert(forall|m: Modifier|
                    self.modifiers@.contains(m) ==> other.modifiers@.contains(m));
                assert(forall|m: Modifier|
                    other.modifiers@.contains(m) ==> self.modifiers@.contains(m));
            }
        }
        sub_ab && sub_ba && keq
    }
}

impl vstd::std_specs::cmp::PartialEqSpecImpl for Hotkey {
    open spec fn obeys_eq_spec() -> bool {
        true
    }

    open spec fn eq_spec(&self, other: &Hotkey) -> bool {
        hotkey_eq(self@, other@)
    }
}

impl Clone for Hotkey {
    /// The copy shows the same modifiers and keys.
    fn clone(&self) -> (r: Hotkey)
        ensures
            r@ == self@,
    {
        let mut modifiers: Vec<Modifier> = Vec::new();
        let mut i: usize = 0;
        while i < self.modifiers.len()
            invariant
                i <= self.modifiers@.len(),
                modifiers@ == self.modifiers@.take(i as int),
            decreases self.modifiers@.len() - i,
        {
            modifiers.push(self.modifiers[i]);
            i = i + 1;
            assert(modifiers@ =~= self.modifiers@.take(i as int));
        }
        let mut keys: Vec<Key> = Vec::new();
        let mut j: usize = 0;
        while j < self.keys.len()
            invariant
                j <= self.keys@.len(),
                keys@ == self.keys@.take(j as int),
            decreases self.keys@.len() - j,
        {
            keys.push(self.keys[j]);
            j = j + 1;
            assert(keys@ =~= self.keys@.take(j as int));
        }
        assert(modifiers@ =~= self.modifiers@);
        assert(keys@ =~= self.keys@);
        Hotkey { modifiers, keys }
    }
}

/// The modifier bits of a modifier list: the OR of the platform bit of
/// every modifier present. Order and repetition cannot change an OR, so
/// this is the fold of the modifier set, and hotkeys with the same
/// identity encode identically.
pub open spec fn or_modifier_flags(s: Seq<Modifier>) -> u32 {
    (if s.contains(Modifier::ALT) {
        Modifier::ALT.value_spec()
    } else {
        0u32
    }) | (if s.contains(Modifier::ALTGR) {
        Modifier::ALTGR.value_spec()
    } else {
        0u32
    }) | (if s.contains(Modifier::CTRL) {
        Modifier::CTRL.value_spec()
    } else {
        0u32
    }) | (if s.contains(Modifier::SHIFT) {
        Modifier::SHIFT.value_spec()
    } else {
        0u32
    }) | (if s.contains(Modifier::SUPER) {
        Modifier::SUPER.value_spec()
    } else {
        0u32
    })
}

/// Modifier lists with the same set carry the same bits.
pub proof fn lemma_modifier_flags_same_set(a: Seq<Modifier>, b: Seq<Modifier>)
    requires
        same_modifier_set(a, b),
    ensures
        or_modifier_flags(a) == or_modifier_flags(b),
{
    assert(a.contains(Modifier::ALT) == b.contains(Modifier::ALT));
    assert(a.contains(Modifier::ALTGR) == b.contains(Modifier::ALTGR));
    assert(a.contains(Modifier::CTRL) == b.contains(Modifier::CTRL));
    assert(a.contains(Modifier::SHIFT) == b.contains(Modifier::SHIFT));
    assert(a.contains(Modifier::SUPER) == b.contains(Modifier::SUPER));
}

/// The key codes of a key list, OR-ed left to right.
pub open spec fn or_key_flags(s: Seq<Key>) -> u32
    decreases s.len(),
{
    if s.len() == 0 {
        0
    } else {
        or_key_flags(s.drop_last()) | s.last().value_spec()
    }
}

/// The display form: every modifier name, then every key name, joined by `+`.
pub open spec fn display_parts(h: HotkeyView) -> Seq<Seq<char>> {
    h.modifiers.map_values(|m: Modifier| m.name_spec())
        + h.keys.map_values(|k: Key| k.name_spec())
}

pub open spec fn display_spec(h: HotkeyView) -> Seq<char> {
    join_char(display_parts(h), '+')
}

impl Hotkey {
    /// The modifier bit field handed to the native register call.
    pub fn modifiers_as_flag(&self) -> (r: u32)
        ensures
            r == or_modifier_flags(self@.modifiers),
    {
        let mut acc: u32 = if contains_modifier(&self.modifiers, Modifier::ALT) {
            Modifier::ALT.value()
        } else {
            0
        };
        acc = acc | (if contains_modifier(&self.modifiers, Modifier::ALTGR) {
            Modifier::ALTGR.value()
        } else {
            0
        });
        acc = acc | (if contains_modifier(&self.modifiers, Modifier::CTRL) {
            Modifier::CTRL.value()
        } else {
            0
        });
        acc = acc | (if contains_modifier(&self.modifiers, Modifier::SHIFT) {
            Modifier::SHIFT.value()
        } else {
            0
        });
        acc = acc | (if contains_modifier(&self.modifiers, Modifier::SUPER) {
            Modifier::SUPER.value()
        } else {
            0
        });
        acc
    }

    /// The key code bit field handed to the native register call.
    pub fn keys_as_flag(&self) -> (r: u32)
        ensures
            r == or_key_flags(self@.keys),
    {
        let mut acc: u32 = 0;
        let mut i: usize = 0;
        while i < self.keys.len()
            invariant
                i <= self.keys@.len(),
                acc == or_key_flags(self.keys@.take(i as int)),
            decreases self.keys@.len() - i,
        {
            proof {
                let t = self.keys@.take(i as int + 1);
                assert(t.drop_last() =~= self.keys@.take(i as int));
                assert(t.last() == self.keys@[i as int]);
            }
            acc = acc | self.keys[i].value();
            i = i + 1;
        }
        proof {
            assert(self.keys@.take(self.keys@.len() as int) =~= self.keys@);
        }
        acc
    }

    /// The canonical text of this hotkey; the parser maps it back to the
    /// same value whenever the key list is nonempty and duplicate-free.
    pub fn display(&self) -> (r: String)
        ensures
            r@ == display_spec(self@),
    {
        let ghost parts = display_parts(self@);
        let mut out = String::new();
        let mut i: usize = 0;
        proof {
            reveal_strlit("+");
            assert(("+"@)[0] == '+');
            assert("+"@ =~= seq!['+']);
            assert(parts.take(0) =~= Seq::<Seq<char>>::empty());
        }
        while i < self.modifiers.len()
            invariant
                i <= self.modifiers@.len(),
                parts == display_parts(self@),
                parts.len() == self.modifiers@.len() + self.keys@.len(),
                forall|j: int|
                    0 <= j < self.modifiers@.len()
                        ==> parts[j] == self.modifiers@[j].name_spec(),
                out@ == join_char(parts.take(i as int), '+'),
                "+"@ == seq!['+'],
            decreases self.modifiers@.len() - i,
        {
            if i > 0 {
                out.append("+");
            }
            out.append(self.modifiers[i].name());
            proof {
                crate::text::lemma_join_push(parts.take(i as int), parts[i as int], '+');
                assert(parts.take(i as int).push(parts[i as int])
                    =~= parts.take(i as int + 1));
            }
            i = i + 1;
        }
        let mods_len: usize = self.modifiers.len();
        let mut j: usize = 0;
        while j < self.keys.len()
            invariant
                j <= self.keys@.len(),
                mods_len == self.modifiers@.len(),
                parts == display_parts(self@),
                parts.len() == self.modifiers@.len() + self.keys@.len(),
                forall|l: int|
                    0 <= l < self.keys@.len()
                        ==> parts[self.modifiers@.len() + l] == self.keys@[l].name_spec(),
                out@ == join_char(parts.take(mods_len as int + j as int), '+'),
                "+"@ == seq!['+'],
            decreases self.keys@.len() - j,
        {
            if mods_len > 0 || j > 0 {
                out.append("+");
            }
            out.append(self.keys[j].name());
            proof {
                let n = mods_len as int + j as int;
                crate::text::lemma_join_push(parts.take(n), parts[n], '+');
                assert(parts.take(n).push(parts[n]) =~= parts.take(n + 1));
            }
            j = j + 1;
        }
        proof {
            assert(parts.take(mods_len as int + self.keys@.len() as int) =~= parts);
        }
        out
    }
}

} // verus!
