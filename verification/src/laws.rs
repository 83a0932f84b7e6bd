//! The library-wide laws, proved once and for all inputs: a parsed hotkey
//! has a nonempty, duplicate-free key list, and displaying any such hotkey
//! then parsing it back yields the hotkey unchanged.

use vstd::prelude::*;
use crate::keys::{
    Key, Modifier, key_token_ok, modifier_token_ok, lemma_all_key_tokens_ok,
    lemma_all_modifier_tokens_ok,
};
use crate::text::{
    clean_token, is_plain_char, lemma_clean_token_plain, lemma_plain_seq_index,
    lemma_split_join, plain_seq, split_char,
};
use crate::hotkey::{HotkeyView, display_parts, display_spec, hotkey_eq};
use crate::parser::{ParseOutcome, finish_tokens, parse_spec, process_tokens};
use crate::service::{
    ServiceView, bind_existing_spec, bind_fresh_spec, has_hotkey, has_flags, hotkey_flags,
    lemma_bind_existing_wf, lemma_bind_fresh_wf, lemma_release_one_wf,
    lemma_wf_one_slot_per_hotkey, owners_of, release_all_spec, release_one_spec,
    unbind_last_spec, unbind_some_spec, wf,
};

verus! {

/// No key occurs twice.
pub open spec fn distinct_keys(ks: Seq<Key>) -> bool {
    forall|i: int, j: int| 0 <= i < j < ks.len() ==> ks[i] != ks[j]
}

proof fn lemma_process_canonical(raws: Seq<Seq<char>>, ms: Seq<Modifier>, ks: Seq<Key>, shifted: bool)
    requires
        distinct_keys(ks),
    ensures
        process_tokens(raws, ms, ks, shifted) matches ParseOutcome::Parsed { keys, .. }
            ==> keys.len() > 0 && distinct_keys(keys),
    decreases raws.len(),
{
    if raws.len() == 0 {
    } else {
        let raw = raws[0];
        let tok = clean_token(raw);
        if tok.len() == 0 {
            lemma_process_canonical(raws.drop_first(), ms, ks, shifted);
        } else {
            match crate::keys::modifier_token_spec(tok) {
                Some(m) => {
                    lemma_process_canonical(raws.drop_first(), ms.push(m), ks, shifted);
                },
                None => {
                    let tok2 = crate::parser::numeric_rewrite(tok);
                    let hit: Option<Key> = match crate::keys::shifted_symbol_spec(tok2) {
                        Some(k) => Some(k),
                        None => match crate::keys::plain_alias_spec(tok2) {
                            Some(k) => Some(k),
                            None => crate::keys::key_from_name_spec(tok2),
                        },
                    };
                    match hit {
                        Some(k) => {
                            if !ks.contains(k) {
                                assert(forall|j: int| 0 <= j < ks.len() ==> ks[j] != k);
                                assert(distinct_keys(ks.push(k)));
                                let sh2 = if crate::keys::shifted_symbol_spec(tok2) is Some {
                                    true
                                } else {
                                    shifted
                                };
                                lemma_process_canonical(raws.drop_first(), ms, ks.push(k), sh2);
                            }
                        },
                        None => {},
                    }
                },
            }
        }
    }
}

/// Whatever string the parser accepts, the hotkey it returns has at least
/// one key and no key twice.
pub proof fn lemma_parse_canonical(s: Seq<char>)
    ensures
        parse_spec(s) matches ParseOutcome::Parsed { keys, .. }
            ==> keys.len() > 0 && distinct_keys(keys),
{
    lemma_process_canonical(split_char(s, '+'), Seq::empty(), Seq::empty(), false);
}

proof fn lemma_process_mod_names(mods: Seq<Modifier>, tail: Seq<Seq<char>>, ms: Seq<Modifier>, ks: Seq<Key>, shifted: bool)
    ensures
        process_tokens(mods.map_values(|m: Modifier| m.name_spec()) + tail, ms, ks, shifted)
            == process_tokens(tail, ms + mods, ks, shifted),
    decreases mods.len(),
{
    lemma_all_modifier_tokens_ok();
    if mods.len() == 0 {
        assert(mods.map_values(|m: Modifier| m.name_spec()) + tail =~= tail);
        assert(ms + mods =~= ms);
    } else {
        let m0 = mods[0];
        let parts = mods.map_values(|m: Modifier| m.name_spec()) + tail;
        assert(modifier_token_ok(m0));
        lemma_clean_token_plain(m0.name_spec());
        assert(parts[0] == m0.name_spec());
        assert(parts.drop_first()
            =~= mods.drop_first().map_values(|m: Modifier| m.name_spec()) + tail);
        lemma_process_mod_names(mods.drop_first(), tail, ms.push(m0), ks, shifted);
        assert(ms.push(m0) + mods.drop_first() =~= ms + mods);
    }
}

proof fn lemma_process_key_names(keys: Seq<Key>, ms: Seq<Modifier>, ks: Seq<Key>, shifted: bool)
    requires
        distinct_keys(keys),
        forall|i: int| 0 <= i < keys.len() ==> !ks.contains(#[trigger] keys[i]),
    ensures
        process_tokens(keys.map_values(|k: Key| k.name_spec()), ms, ks, shifted)
            == finish_tokens(ms, ks + keys, shifted),
    decreases keys.len(),
{
    lemma_all_key_tokens_ok();
    if keys.len() == 0 {
        assert(keys.map_values(|k: Key| k.name_spec()) =~= Seq::<Seq<char>>::empty());
        assert(ks + keys =~= ks);
    } else {
        let k0 = keys[0];
        let parts = keys.map_values(|k: Key| k.name_spec());
        assert(key_token_ok(k0));
        lemma_clean_token_plain(k0.name_spec());
        assert(parts[0] == k0.name_spec());
        assert(parts.drop_first()
            =~= keys.drop_first().map_values(|k: Key| k.name_spec()));
        assert(!ks.contains(k0));
        assert forall|i: int| 0 <= i < keys.drop_first().len()
            implies !ks.push(k0).contains(#[trigger] keys.drop_first()[i]) by {
            let ki = keys.drop_first()[i];
            assert(ki == keys[i + 1]);
            assert(ki != k0);
            assert(!ks.contains(ki));
            if ks.push(k0).contains(ki) {
                let w = choose|w: int| 0 <= w < ks.push(k0).len() && ks.push(k0)[w] == ki;
                assert(w < ks.len() ==> ks[w] == ki);
            }
        }
        assert(distinct_keys(keys.drop_first()));
        lemma_process_key_names(keys.drop_first(), ms, ks.push(k0), shifted);
        assert(ks.push(k0) + keys.drop_first() =~= ks + keys);
    }
}

/// Displaying a hotkey with at least one key and no duplicate keys, then
/// parsing the text back, returns exactly that hotkey. Together with
/// `lemma_parse_canonical` this is the parse/display round trip: every
/// hotkey the parser can produce survives the round trip unchanged.
pub proof fn lemma_display_parse_roundtrip(h: HotkeyView)
    requires
        h.keys.len() > 0,
        distinct_keys(h.keys),
    ensures
        parse_spec(display_spec(h)) == (ParseOutcome::Parsed {
            modifiers: h.modifiers,
            keys: h.keys,
        }),
{
    lemma_all_key_tokens_ok();
    lemma_all_modifier_tokens_ok();
    let parts = display_parts(h);
    let mod_parts = h.modifiers.map_values(|m: Modifier| m.name_spec());
    let key_parts = h.keys.map_values(|k: Key| k.name_spec());
    assert forall|p: int, j: int|
        0 <= p < parts.len() && 0 <= j < parts[p].len() implies parts[p][j] != '+' by {
        let name = parts[p];
        if p < mod_parts.len() {
            assert(name == h.modifiers[p].name_spec());
            assert(modifier_token_ok(h.modifiers[p]));
            lemma_plain_seq_index(name, j);
        } else {
            assert(name == h.keys[p - mod_parts.len()].name_spec());
            assert(key_token_ok(h.keys[p - mod_parts.len()]));
            lemma_plain_seq_index(name, j);
        }
        assert(is_plain_char(name[j]));
    }
    lemma_split_join(parts, '+');
    lemma_process_mod_names(h.modifiers, key_parts, Seq::empty(), Seq::empty(), false);
    assert(Seq::<Modifier>::empty() + h.modifiers =~= h.modifiers);
    assert forall|i: int| 0 <= i < h.keys.len()
        implies !Seq::<Key>::empty().contains(#[trigger] h.keys[i]) by {
    }
    lemma_process_key_names(h.keys, h.modifiers, Seq::empty(), false);
    assert(Seq::<Key>::empty() + h.keys =~= h.keys);
}

/// One native slot is shared by several registrants: the first registration
/// of a hotkey creates the one native binding; a second registrant joins it
/// with no native change; releasing one registrant leaves the other active;
/// releasing the last removes the entry, and with it the native binding.
pub proof fn lemma_shared_slot(s0: ServiceView, hv: HotkeyView, o1: u64, o2: u64)
    requires
        wf(s0),
        !has_hotkey(s0, hv),
        !has_flags(s0, hotkey_flags(hv)),
        o1 < s0.next_owner_id,
        o2 < s0.next_owner_id,
        o1 != o2,
        s0.next_native_id < u64::MAX,
    ensures
        ({
            let s1 = bind_fresh_spec(s0, hv, o1);
            let s2 = bind_existing_spec(s1, hv, o2);
            let s3 = unbind_some_spec(s2, hv, o1);
            let s4 = unbind_last_spec(s3, hv);
            &&& has_hotkey(s1, hv) && owners_of(s1, hv) == seq![o1]
            &&& s1.entries.len() == s0.entries.len() + 1
            &&& has_hotkey(s2, hv) && owners_of(s2, hv) == seq![o1, o2]
            &&& s2.entries.len() == s1.entries.len()
            &&& s2.next_native_id == s1.next_native_id
            &&& has_hotkey(s3, hv) && owners_of(s3, hv) == seq![o2]
            &&& s3.entries.len() == s2.entries.len()
            &&& !has_hotkey(s4, hv)
            &&& s4.entries.len() == s0.entries.len()
        }),
{
    lemma_bind_fresh_wf(s0, hv, o1);
    let s1 = bind_fresh_spec(s0, hv, o1);
    lemma_bind_existing_wf(s1, hv, o2);
    let s2 = bind_existing_spec(s1, hv, o2);
    let k = crate::service::index_of_hotkey(s1, hv);
    if seq![o1].contains(o2) {
        let w = choose|w: int| 0 <= w < seq![o1].len() && seq![o1][w] == o2;
        assert(seq![o1][0] == o1);
    }
    assert(owners_of(s2, hv) == seq![o1].push(o2));
    assert(seq![o1].push(o2) =~= seq![o1, o2]);
    assert(owners_of(s2, hv).len() == 2);
    assert(owners_of(s2, hv)[0] == o1);
    assert(owners_of(s2, hv).contains(o1));
    lemma_release_one_wf(s2, hv, o1);
    let s3 = unbind_some_spec(s2, hv, o1);
    assert(release_one_spec(s2, hv, o1) == s3);
    let k2 = crate::service::index_of_hotkey(s2, hv);
    let e2 = s2.entries[k2];
    let pos = crate::service::owner_index(e2, o1);
    if pos != 0 {
        assert(e2.owners[pos] == o1);
        assert(e2.owners[1] == o2);
    }
    assert(pos == 0);
    assert(e2.owners.remove(0) =~= seq![o2]);
    assert(owners_of(s3, hv) == seq![o2]);
    assert(owners_of(s3, hv).contains(o2)) by {
        assert(seq![o2][0] == o2);
    }
    assert(owners_of(s3, hv).len() == 1);
    lemma_release_one_wf(s3, hv, o2);
    let s4 = unbind_last_spec(s3, hv);
    assert(release_one_spec(s3, hv, o2) == s4);
}

/// Serialized under the registry lock, a second registration of a hotkey
/// that is already bound adds no native registration and consumes no worker
/// id, and in every state the invariant allows, no hotkey holds two native
/// slots: concurrent registrations can never double-register.
pub proof fn lemma_no_double_native_registration(s0: ServiceView, hv: HotkeyView, o1: u64, o2: u64)
    requires
        wf(s0),
        !has_hotkey(s0, hv),
        !has_flags(s0, hotkey_flags(hv)),
        o1 < s0.next_owner_id,
        o2 < s0.next_owner_id,
        s0.next_native_id < u64::MAX,
    ensures
        ({
            let s1 = bind_fresh_spec(s0, hv, o1);
            let s2 = bind_existing_spec(s1, hv, o2);
            &&& has_hotkey(s1, hv)
            &&& s2.entries.len() == s1.entries.len()
            &&& s2.next_native_id == s1.next_native_id
            &&& wf(s2)
            &&& forall|i: int, j: int|
                0 <= i < j < s2.entries.len() ==> s2.entries[i].hotkey != s2.entries[j].hotkey
        }),
{
    lemma_bind_fresh_wf(s0, hv, o1);
    let s1 = bind_fresh_spec(s0, hv, o1);
    lemma_bind_existing_wf(s1, hv, o2);
    let s2 = bind_existing_spec(s1, hv, o2);
    lemma_wf_one_slot_per_hotkey(s2);
}

/// Releasing a list of hotkeys leaves every hotkey outside the list exactly
/// as it was.
proof fn lemma_release_all_frame(
    s: ServiceView,
    owned: Seq<HotkeyView>,
    owner: u64,
    hv2: HotkeyView,
)
    requires
        wf(s),
        forall|i: int, j: int| 0 <= i < j < owned.len() ==> !hotkey_eq(owned[i], owned[j]),
        forall|i: int|
            0 <= i < owned.len() ==> has_hotkey(s, #[trigger] owned[i]) && owners_of(
                s,
                owned[i],
            ).contains(owner),
        forall|i: int| 0 <= i < owned.len() ==> !hotkey_eq(#[trigger] owned[i], hv2),
    ensures
        wf(release_all_spec(s, owned, owner)),
        has_hotkey(release_all_spec(s, owned, owner), hv2) <==> has_hotkey(s, hv2),
        has_hotkey(s, hv2) ==> owners_of(release_all_spec(s, owned, owner), hv2) == owners_of(
            s,
            hv2,
        ),
    decreases owned.len(),
{
    reveal(release_all_spec);
    if owned.len() > 0 {
        let h0 = owned[0];
        lemma_release_one_wf(s, h0, owner);
        let s2 = release_one_spec(s, h0, owner);
        if hotkey_eq(hv2, h0) {
            crate::hotkey::lemma_hotkey_eq_sym(hv2, h0);
        }
        assert(!hotkey_eq(hv2, h0));
        assert forall|i: int|
            0 <= i < owned.drop_first().len() implies has_hotkey(
            s2,
            #[trigger] owned.drop_first()[i],
        ) && owners_of(s2, owned.drop_first()[i]).contains(owner) by {
            assert(owned.drop_first()[i] == owned[i + 1]);
            if hotkey_eq(owned[i + 1], h0) {
                crate::hotkey::lemma_hotkey_eq_sym(owned[i + 1], h0);
            }
            assert(!hotkey_eq(owned[i + 1], h0));
        }
        assert forall|i: int, j: int|
            0 <= i < j < owned.drop_first().len() implies !hotkey_eq(
            owned.drop_first()[i],
            owned.drop_first()[j],
        ) by {
            assert(owned.drop_first()[i] == owned[i + 1]);
            assert(owned.drop_first()[j] == owned[j + 1]);
        }
        assert forall|i: int|
            0 <= i < owned.drop_first().len() implies !hotkey_eq(
            #[trigger] owned.drop_first()[i],
            hv2,
        ) by {
            assert(owned.drop_first()[i] == owned[i + 1]);
        }
        lemma_release_all_frame(s2, owned.drop_first(), owner, hv2);
    }
}

/// Releasing everything one manager owns releases each of its hotkeys: an
/// entry it owned alone disappears, native binding included; an entry other
/// managers still own survives without this manager.
pub proof fn lemma_release_all_effect(s: ServiceView, owned: Seq<HotkeyView>, owner: u64)
    requires
        wf(s),
        forall|i: int, j: int| 0 <= i < j < owned.len() ==> !hotkey_eq(owned[i], owned[j]),
        forall|i: int|
            0 <= i < owned.len() ==> has_hotkey(s, #[trigger] owned[i]) && owners_of(
                s,
                owned[i],
            ).contains(owner),
    ensures
        wf(release_all_spec(s, owned, owner)),
        forall|i: int|
            0 <= i < owned.len() ==> (owners_of(s, #[trigger] owned[i]).len() > 1 ==> has_hotkey(
                release_all_spec(s, owned, owner),
                owned[i],
            ) && !owners_of(release_all_spec(s, owned, owner), owned[i]).contains(owner)),
        forall|i: int|
            0 <= i < owned.len() ==> (owners_of(s, #[trigger] owned[i]).len() <= 1
                ==> !has_hotkey(release_all_spec(s, owned, owner), owned[i])),
    decreases owned.len(),
{
    reveal(release_all_spec);
    if owned.len() > 0 {
        let h0 = owned[0];
        lemma_release_one_wf(s, h0, owner);
        let s2 = release_one_spec(s, h0, owner);
        assert forall|i: int|
            0 <= i < owned.drop_first().len() implies has_hotkey(
            s2,
            #[trigger] owned.drop_first()[i],
        ) && owners_of(s2, owned.drop_first()[i]).contains(owner) by {
            assert(owned.drop_first()[i] == owned[i + 1]);
            if hotkey_eq(owned[i + 1], h0) {
                crate::hotkey::lemma_hotkey_eq_sym(owned[i + 1], h0);
            }
            assert(!hotkey_eq(owned[i + 1], h0));
        }
        assert forall|i: int, j: int|
            0 <= i < j < owned.drop_first().len() implies !hotkey_eq(
            owned.drop_first()[i],
            owned.drop_first()[j],
        ) by {
            assert(owned.drop_first()[i] == owned[i + 1]);
            assert(owned.drop_first()[j] == owned[j + 1]);
        }
        lemma_release_all_effect(s2, owned.drop_first(), owner);
        assert forall|i: int|
            0 <= i < owned.drop_first().len() implies !hotkey_eq(
            #[trigger] owned.drop_first()[i],
            h0,
        ) by {
            assert(owned.drop_first()[i] == owned[i + 1]);
            if hotkey_eq(owned[i + 1], h0) {
                crate::hotkey::lemma_hotkey_eq_sym(owned[i + 1], h0);
            }
        }
        lemma_release_all_frame(s2, owned.drop_first(), owner, h0);
        let r = release_all_spec(s, owned, owner);
        assert(r == release_all_spec(s2, owned.drop_first(), owner));
        assert forall|i: int|
            0 <= i < owned.len() implies (owners_of(s, #[trigger] owned[i]).len() > 1
            ==> has_hotkey(r, owned[i]) && !owners_of(r, owned[i]).contains(owner)) && (
        owners_of(s, owned[i]).len() <= 1 ==> !has_hotkey(r, owned[i])) by {
            if i == 0 {
            } else {
                assert(owned.drop_first()[i - 1] == owned[i]);
                if hotkey_eq(owned[i], h0) {
                    crate::hotkey::lemma_hotkey_eq_sym(owned[i], h0);
                }
                assert(!hotkey_eq(owned[i], h0));
                assert(owners_of(s2, owned[i]) == owners_of(s, owned[i]));
            }
        }
    }
}

} // verus!
