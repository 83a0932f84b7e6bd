//! The registry/worker service: one process-wide object that owns the map
//! from hotkeys to their current owners and mirrors the worker's native
//! registration table. All native access goes through a caller-supplied
//! port, one command at a time, and the bookkeeping around every possible
//! outcome of that port is verified.

use vstd::prelude::*;
use crate::hotkey::{
    Hotkey, HotkeyView, hotkey_eq, lemma_modifier_flags_same_set, or_modifier_flags, or_key_flags,
};
use crate::{Error, HotkeyError, NativeHotkey};

verus! {

/// One command for the native layer, as the worker would send it.
#[derive(Debug, Copy, Clone, PartialEq, Eq, Structural)]
pub enum NativeCmd {
    /// Bind this encoding natively under the given worker-assigned id.
    Register { id: u64, encoding: NativeHotkey },
    /// Release the native binding that was made under this id.
    Unregister { id: u64, encoding: NativeHotkey },
}

/// The platform encoding of a hotkey: both flag words.
pub open spec fn hotkey_flags(hv: HotkeyView) -> NativeHotkey {
    NativeHotkey { modifiers: or_modifier_flags(hv.modifiers), key: or_key_flags(hv.keys) }
}

/// One registry entry: a natively bound hotkey, its stored encoding, the
/// worker id of its native binding, and every current owner.
pub struct ServiceEntry {
    pub hotkey: Hotkey,
    pub encoding: NativeHotkey,
    pub native_id: u64,
    pub owners: Vec<u64>,
}

pub struct EntryView {
    pub hotkey: HotkeyView,
    pub encoding: NativeHotkey,
    pub native_id: u64,
    pub owners: Seq<u64>,
}

impl View for ServiceEntry {
    type V = EntryView;

    open spec fn view(&self) -> EntryView {
        EntryView {
            hotkey: self.hotkey@,
            encoding: self.encoding,
            native_id: self.native_id,
            owners: self.owners@,
        }
    }
}

/// The explicit registry/worker service object. An entry exists here if and
/// only if its hotkey is currently bound at the native level; its owner list
/// is never empty and never repeats an owner.
pub struct HotkeyService {
    entries: Vec<ServiceEntry>,
    next_native_id: u64,
    next_owner_id: u64,
}

pub struct ServiceView {
    pub entries: Seq<EntryView>,
    pub next_native_id: u64,
    pub next_owner_id: u64,
}

impl View for HotkeyService {
    type V = ServiceView;

    closed spec fn view(&self) -> ServiceView {
        ServiceView {
            entries: self.entries@.map_values(|e: ServiceEntry| e@),
            next_native_id: self.next_native_id,
            next_owner_id: self.next_owner_id,
        }
    }
}

pub open spec fn entry_wf(e: EntryView) -> bool {
    &&& e.owners.len() > 0
    &&& forall|i: int, j: int| 0 <= i < j < e.owners.len() ==> e.owners[i] != e.owners[j]
    &&& e.encoding == hotkey_flags(e.hotkey)
}

/// The service invariant: every entry is well formed, no two entries share
/// an encoding (hence none share a hotkey), worker ids are distinct and
/// below the id counter, and owner ids are below the owner counter.
pub open spec fn wf(s: ServiceView) -> bool {
    &&& forall|i: int| 0 <= i < s.entries.len() ==> entry_wf(#[trigger] s.entries[i])
    &&& forall|i: int, j: int|
        0 <= i < j < s.entries.len() ==> s.entries[i].encoding != s.entries[j].encoding
    &&& forall|i: int, j: int|
        0 <= i < j < s.entries.len() ==> s.entries[i].native_id != s.entries[j].native_id
    &&& forall|i: int| 0 <= i < s.entries.len() ==> (#[trigger] s.entries[i]).native_id < s.next_native_id
    &&& forall|i: int, l: int|
        0 <= i < s.entries.len() && 0 <= l < s.entries[i].owners.len()
            ==> s.entries[i].owners[l] < s.next_owner_id
}

/// Whether some entry holds this hotkey, up to hotkey identity (modifier
/// set plus key list).
pub open spec fn has_hotkey(s: ServiceView, hv: HotkeyView) -> bool {
    exists|i: int| 0 <= i < s.entries.len() && hotkey_eq((#[trigger] s.entries[i]).hotkey, hv)
}

/// Whether some entry holds this native encoding.
pub open spec fn has_flags(s: ServiceView, nh: NativeHotkey) -> bool {
    exists|i: int| 0 <= i < s.entries.len() && (#[trigger] s.entries[i]).encoding == nh
}

/// The index of the entry holding this hotkey; meaningful under `has_hotkey`.
pub open spec fn index_of_hotkey(s: ServiceView, hv: HotkeyView) -> int {
    choose|i: int| 0 <= i < s.entries.len() && hotkey_eq((#[trigger] s.entries[i]).hotkey, hv)
}

/// The owners currently registered on this hotkey.
pub open spec fn owners_of(s: ServiceView, hv: HotkeyView) -> Seq<u64> {
    s.entries[index_of_hotkey(s, hv)].owners
}

/// An owner joins an entry; joining twice changes nothing but the stored
/// callback, which lives outside this model.
pub open spec fn with_owner_added(e: EntryView, owner: u64) -> EntryView {
    if e.owners.contains(owner) {
        e
    } else {
        EntryView { owners: e.owners.push(owner), ..e }
    }
}

/// The service after an owner joins an already-bound hotkey.
pub open spec fn bind_existing_spec(s: ServiceView, hv: HotkeyView, owner: u64) -> ServiceView {
    let i = index_of_hotkey(s, hv);
    ServiceView { entries: s.entries.update(i, with_owner_added(s.entries[i], owner)), ..s }
}

/// The service after a fresh hotkey is bound natively with success.
pub open spec fn bind_fresh_spec(s: ServiceView, hv: HotkeyView, owner: u64) -> ServiceView {
    ServiceView {
        entries: s.entries.push(
            EntryView {
                hotkey: hv,
                encoding: hotkey_flags(hv),
                native_id: s.next_native_id,
                owners: seq![owner],
            },
        ),
        next_native_id: (s.next_native_id + 1) as u64,
        ..s
    }
}

/// The service after a native register attempt failed: the worker id is
/// consumed, the map is untouched.
pub open spec fn native_failed_spec(s: ServiceView) -> ServiceView {
    ServiceView { next_native_id: (s.next_native_id + 1) as u64, ..s }
}

/// The position of an owner inside an entry; meaningful when present.
pub open spec fn owner_index(e: EntryView, owner: u64) -> int {
    choose|l: int| 0 <= l < e.owners.len() && e.owners[l] == owner
}

/// An owner leaves an entry that it does not own alone.
pub open spec fn with_owner_removed(e: EntryView, owner: u64) -> EntryView {
    EntryView { owners: e.owners.remove(owner_index(e, owner)), ..e }
}

/// The service after a non-final owner leaves a hotkey.
pub open spec fn unbind_some_spec(s: ServiceView, hv: HotkeyView, owner: u64) -> ServiceView {
    let i = index_of_hotkey(s, hv);
    ServiceView { entries: s.entries.update(i, with_owner_removed(s.entries[i], owner)), ..s }
}

/// The service after the last owner leaves and the native release succeeds.
pub open spec fn unbind_last_spec(s: ServiceView, hv: HotkeyView) -> ServiceView {
    ServiceView { entries: s.entries.remove(index_of_hotkey(s, hv)), ..s }
}

/// Everything `bind` can do, as a relation between the old state, the new
/// state, the result, and the native port's own contract.
pub open spec fn bind_transition<F: Fn(NativeCmd) -> Result<(), HotkeyError>>(
    native: F,
    ov: ServiceView,
    nv: ServiceView,
    hv: HotkeyView,
    owner: u64,
    r: Result<(), Error>,
) -> bool {
    if has_hotkey(ov, hv) {
        nv == bind_existing_spec(ov, hv, owner) && r == Ok::<(), Error>(())
    } else if has_flags(ov, hotkey_flags(hv)) {
        nv == ov && r == Err::<(), Error>(
            Error::System(HotkeyError::HotkeyAlreadyRegistered(hotkey_flags(hv))),
        )
    } else {
        exists|res: Result<(), HotkeyError>|
            {
                &&& #[trigger] call_ensures(
                    native,
                    (NativeCmd::Register { id: ov.next_native_id, encoding: hotkey_flags(hv) },),
                    res,
                )
                &&& match res {
                    Ok(_) => nv == bind_fresh_spec(ov, hv, owner) && r == Ok::<(), Error>(()),
                    Err(e) => nv == native_failed_spec(ov) && r == Err::<(), Error>(
                        Error::System(e),
                    ),
                }
            }
    }
}

/// Everything `unbind` can do, given that the owner is recorded on the
/// hotkey; the entry is dropped only after a confirmed native release.
pub open spec fn unbind_transition<F: Fn(NativeCmd) -> Result<(), HotkeyError>>(
    native: F,
    ov: ServiceView,
    nv: ServiceView,
    hv: HotkeyView,
    owner: u64,
    r: Result<(), Error>,
) -> bool {
    let e = ov.entries[index_of_hotkey(ov, hv)];
    if e.owners.len() > 1 {
        nv == unbind_some_spec(ov, hv, owner) && r == Ok::<(), Error>(())
    } else {
        exists|res: Result<(), HotkeyError>|
            {
                &&& #[trigger] call_ensures(
                    native,
                    (NativeCmd::Unregister { id: e.native_id, encoding: e.encoding },),
                    res,
                )
                &&& match res {
                    Ok(_) => nv == unbind_last_spec(ov, hv) && r == Ok::<(), Error>(()),
                    Err(err) => nv == ov && r == Err::<(), Error>(Error::System(err)),
                }
            }
    }
}

/// Hotkeys with the same identity encode to the same flag words.
pub proof fn lemma_hotkey_eq_flags(a: HotkeyView, b: HotkeyView)
    requires
        hotkey_eq(a, b),
    ensures
        hotkey_flags(a) == hotkey_flags(b),
{
    reveal(crate::hotkey::hotkey_eq);
    lemma_modifier_flags_same_set(a.modifiers, b.modifiers);
}

/// Under the invariant, at most one entry holds a given hotkey identity, so
/// the chosen index is the index of any entry found to hold it.
pub proof fn lemma_index_unique(s: ServiceView, hv: HotkeyView, i: int)
    requires
        wf(s),
        0 <= i < s.entries.len(),
        hotkey_eq(s.entries[i].hotkey, hv),
    ensures
        has_hotkey(s, hv),
        index_of_hotkey(s, hv) == i,
{
    assert(has_hotkey(s, hv));
    let w = index_of_hotkey(s, hv);
    assert(0 <= w < s.entries.len() && hotkey_eq(s.entries[w].hotkey, hv));
    if w != i {
        assert(entry_wf(s.entries[w]));
        assert(entry_wf(s.entries[i]));
        lemma_hotkey_eq_flags(s.entries[w].hotkey, hv);
        lemma_hotkey_eq_flags(s.entries[i].hotkey, hv);
        assert(s.entries[w].encoding == hotkey_flags(hv));
        assert(s.entries[i].encoding == hotkey_flags(hv));
    }
}

/// A native port that cannot fail: every outcome its contract allows is
/// success. A healthy in-process backend satisfies this.
pub open spec fn native_always_ok<F: Fn(NativeCmd) -> Result<(), HotkeyError>>(native: F) -> bool {
    forall|cmd: NativeCmd, res: Result<(), HotkeyError>|
        #[trigger] call_ensures(native, (cmd,), res) ==> res is Ok
}

/// The service after one owner releases one hotkey and every native call
/// succeeds: the entry survives exactly when other owners remain.
pub open spec fn release_one_spec(s: ServiceView, hv: HotkeyView, owner: u64) -> ServiceView {
    if owners_of(s, hv).len() > 1 {
        unbind_some_spec(s, hv, owner)
    } else {
        unbind_last_spec(s, hv)
    }
}

/// The service after one owner releases a whole list of hotkeys in order,
/// every native call succeeding.
#[verifier::opaque]
pub open spec fn release_all_spec(s: ServiceView, owned: Seq<HotkeyView>, owner: u64) -> ServiceView
    decreases owned.len(),
{
    if owned.len() == 0 {
        s
    } else {
        release_all_spec(release_one_spec(s, owned[0], owner), owned.drop_first(), owner)
    }
}

/// Releasing nothing changes nothing.
pub proof fn lemma_release_all_nil(s: ServiceView, owned: Seq<HotkeyView>, owner: u64)
    requires
        owned.len() == 0,
    ensures
        release_all_spec(s, owned, owner) == s,
{
    reveal(release_all_spec);
}

/// Releasing a list and then one more is releasing the longer list.
pub proof fn lemma_release_all_push(
    s: ServiceView,
    owned: Seq<HotkeyView>,
    h: HotkeyView,
    owner: u64,
)
    ensures
        release_all_spec(s, owned.push(h), owner) == release_one_spec(
            release_all_spec(s, owned, owner),
            h,
            owner,
        ),
    decreases owned.len(),
{
    reveal_with_fuel(release_all_spec, 3);
    reveal(release_all_spec);
    if owned.len() == 0 {
        assert(owned.push(h)[0] == h);
        assert(owned.push(h).drop_first() =~= Seq::<HotkeyView>::empty());
    } else {
        assert(owned.push(h)[0] == owned[0]);
        assert(owned.push(h).drop_first() =~= owned.drop_first().push(h));
        lemma_release_all_push(release_one_spec(s, owned[0], owner), owned.drop_first(), h, owner);
    }
}

impl HotkeyService {
    /// A service with nothing bound and both counters at zero.
    pub fn new() -> (s: Self)
        ensures
            s@.entries.len() == 0,
            s@.next_native_id == 0,
            s@.next_owner_id == 0,
            wf(s@),
    {
        HotkeyService { entries: Vec::new(), next_native_id: 0, next_owner_id: 0 }
    }

    /// Hands out the next owner id, never to be reused by this service.
    pub fn fresh_owner_id(&mut self) -> (id: u64)
        requires
            wf(old(self)@),
            old(self)@.next_owner_id < u64::MAX,
        ensures
            wf(final(self)@),
            id == old(self)@.next_owner_id,
            final(self)@.next_owner_id == id + 1,
            final(self)@.entries == old(self)@.entries,
            final(self)@.next_native_id == old(self)@.next_native_id,
            forall|i: int|
                0 <= i < final(self)@.entries.len()
                    ==> !(#[trigger] final(self)@.entries[i]).owners.contains(id),
    {
        let id = self.next_owner_id;
        self.next_owner_id = self.next_owner_id + 1;
        proof {
            assert(self@.entries =~= old(self)@.entries);
            assert forall|i: int|
                0 <= i < self@.entries.len()
                    implies !(#[trigger] self@.entries[i]).owners.contains(id) by {
                if self@.entries[i].owners.contains(id) {
                    let l = choose|l: int|
                        0 <= l < self@.entries[i].owners.len()
                            && self@.entries[i].owners[l] == id;
                    assert(old(self)@.entries[i].owners[l] < old(self)@.next_owner_id);
                }
            }
        }
        id
    }

    /// How many native registrations the worker currently holds.
    pub fn native_count(&self) -> (r: usize)
        ensures
            r == self@.entries.len(),
    {
        self.entries.len()
    }

    /// Every encoding the worker currently holds natively, one per entry.
    pub fn registered_encodings(&self) -> (r: Vec<NativeHotkey>)
        ensures
            r@ == self@.entries.map_values(|e: EntryView| e.encoding),
    {
        let mut out: Vec<NativeHotkey> = Vec::new();
        let mut i: usize = 0;
        while i < self.entries.len()
            invariant
                i <= self@.entries.len(),
                out@ == self@.entries.map_values(|e: EntryView| e.encoding).take(i as int),
            decreases self@.entries.len() - i,
        {
            out.push(self.entries[i].encoding);
            proof {
                assert(self@.entries[i as int].encoding == self.entries@[i as int]@.encoding);
                assert(out@ =~= self@.entries.map_values(|e: EntryView| e.encoding).take(
                    i as int + 1,
                ));
            }
            i = i + 1;
        }
        proof {
            assert(out@ =~= self@.entries.map_values(|e: EntryView| e.encoding));
        }
        out
    }

    /// The worker id the next fresh native registration would use.
    pub fn next_native_id(&self) -> (r: u64)
        ensures
            r == self@.next_native_id,
    {
        self.next_native_id
    }

    /// The owner id the next new manager would receive.
    pub fn next_owner_id(&self) -> (r: u64)
        ensures
            r == self@.next_owner_id,
    {
        self.next_owner_id
    }

    fn find_index(&self, hotkey: &Hotkey) -> (r: Option<usize>)
        ensures
            match r {
                Some(i) => 0 <= i < self@.entries.len() && hotkey_eq(
                    self@.entries[i as int].hotkey,
                    hotkey@,
                ),
                None => !has_hotkey(self@, hotkey@),
            },
    {
        let mut i: usize = 0;
        while i < self.entries.len()
            invariant
                i <= self@.entries.len(),
                forall|j: int|
                    0 <= j < i ==> !hotkey_eq((#[trigger] self@.entries[j]).hotkey, hotkey@),
            decreases self@.entries.len() - i,
        {
            if self.entries[i].hotkey == *hotkey {
                return Some(i);
            }
            i = i + 1;
        }
        None
    }

    fn find_flags(&self, nh: NativeHotkey) -> (r: bool)
        ensures
            r == has_flags(self@, nh),
    {
        let mut i: usize = 0;
        while i < self.entries.len()
            invariant
                i <= self@.entries.len(),
                forall|j: int| 0 <= j < i ==> (#[trigger] self@.entries[j]).encoding != nh,
            decreases self@.entries.len() - i,
        {
            if self.entries[i].encoding == nh {
                proof {
                    assert(self@.entries[i as int].encoding == nh);
                }
                return true;
            }
            proof {
                assert(self@.entries[i as int].encoding != nh);
            }
            i = i + 1;
        }
        false
    }

    /// Whether this hotkey is currently bound natively.
    pub fn is_bound(&self, hotkey: &Hotkey) -> (r: bool)
        ensures
            r == has_hotkey(self@, hotkey@),
    {
        self.find_index(hotkey).is_some()
    }

    /// The current owners of a hotkey, copied out so that trigger dispatch
    /// can invoke callbacks without holding any lock.
    pub fn owners_snapshot(&self, hotkey: &Hotkey) -> (r: Vec<u64>)
        requires
            wf(self@),
        ensures
            has_hotkey(self@, hotkey@) ==> r@ == owners_of(self@, hotkey@),
            !has_hotkey(self@, hotkey@) ==> r@.len() == 0,
    {
        match self.find_index(hotkey) {
            Some(i) => {
                proof {
                    lemma_index_unique(self@, hotkey@, i as int);
                }
                let e = &self.entries[i];
                let mut out: Vec<u64> = Vec::new();
                let mut l: usize = 0;
                while l < e.owners.len()
                    invariant
                        l <= e.owners@.len(),
                        out@ == e.owners@.take(l as int),
                    decreases e.owners@.len() - l,
                {
                    out.push(e.owners[l]);
                    l = l + 1;
                    assert(out@ =~= e.owners@.take(l as int));
                }
                assert(out@ =~= e.owners@);
                out
            },
            None => Vec::new(),
        }
    }

    /// The hotkey bound under a worker id, as trigger delivery looks it up.
    pub fn hotkey_for_native_id(&self, id: u64) -> (r: Option<Hotkey>)
        ensures
            match r {
                Some(h) => exists|i: int|
                    0 <= i < self@.entries.len() && (#[trigger] self@.entries[i]).native_id == id
                        && self@.entries[i].hotkey == h@,
                None => forall|i: int|
                    0 <= i < self@.entries.len()
                        ==> (#[trigger] self@.entries[i]).native_id != id,
            },
    {
        let mut i: usize = 0;
        while i < self.entries.len()
            invariant
                i <= self@.entries.len(),
                forall|j: int| 0 <= j < i ==> (#[trigger] self@.entries[j]).native_id != id,
            decreases self@.entries.len() - i,
        {
            if self.entries[i].native_id == id {
                let h = self.entries[i].hotkey.clone();
                proof {
                    assert(self@.entries[i as int].native_id == id);
                    assert(self@.entries[i as int].hotkey == h@);
                }
                return Some(h);
            }
            proof {
                assert(self@.entries[i as int].native_id != id);
            }
            i = i + 1;
        }
        None
    }

    /// Registers an owner on a hotkey. The first owner triggers one native
    /// register command through the port; later owners join without any
    /// native call. A hotkey whose encoding collides with a different bound
    /// hotkey is refused the way the worker refuses it.
    pub fn bind<F: Fn(NativeCmd) -> Result<(), HotkeyError>>(
        &mut self,
        hotkey: &Hotkey,
        owner: u64,
        native: F,
    ) -> (r: Result<(), Error>)
        requires
            wf(old(self)@),
            owner < old(self)@.next_owner_id,
            old(self)@.next_native_id < u64::MAX,
            forall|cmd: NativeCmd| #[trigger] call_requires(native, (cmd,)),
        ensures
            wf(final(self)@),
            final(self)@.next_owner_id == old(self)@.next_owner_id,
            bind_transition(native, old(self)@, final(self)@, hotkey@, owner, r),
    {
        let encoding = NativeHotkey {
            modifiers: hotkey.modifiers_as_flag(),
            key: hotkey.keys_as_flag(),
        };
        match self.find_index(hotkey) {
            Some(i) => {
                proof {
                    lemma_index_unique(self@, hotkey@, i as int);
                }
                let ghost ov = self@;
                let mut e = self.entries.remove(i);
                let mut present = false;
                let mut l: usize = 0;
                while l < e.owners.len()
                    invariant
                        l <= e.owners@.len(),
                        present ==> e.owners@.contains(owner),
                        !present ==> forall|j: int| 0 <= j < l ==> e.owners@[j] != owner,
                    decreases e.owners@.len() - l,
                {
                    if e.owners[l] == owner {
                        present = true;
                    }
                    l = l + 1;
                }
                proof {
                    if !present && e.owners@.contains(owner) {
                        let w = choose|w: int|
                            0 <= w < e.owners@.len() && e.owners@[w] == owner;
                        assert(false);
                    }
                }
                if !present {
                    e.owners.push(owner);
                }
                self.entries.insert(i, e);
                proof {
                    assert(self@.entries =~= ov.entries.update(
                        i as int,
                        with_owner_added(ov.entries[i as int], owner),
                    ));
                    assert(self@ == bind_existing_spec(ov, hotkey@, owner));
                    assert(wf(self@));
                }
                Ok(())
            },
            None => {
                proof {
                    assert(encoding == hotkey_flags(hotkey@));
                }
                if self.find_flags(encoding) {
                    return Err(Error::System(HotkeyError::HotkeyAlreadyRegistered(encoding)));
                }
                let ghost ov = self@;
                let id = self.next_native_id;
                self.next_native_id = self.next_native_id + 1;
                let res = native(NativeCmd::Register { id, encoding });
                match res {
                    Ok(_) => {
                        let entry = ServiceEntry {
                            hotkey: hotkey.clone(),
                            encoding,
                            native_id: id,
                            owners: {
                                let mut v: Vec<u64> = Vec::new();
                                v.push(owner);
                                v
                            },
                        };
                        self.entries.push(entry);
                        proof {
                            assert(self@.entries =~= ov.entries.push(
                                EntryView {
                                    hotkey: hotkey@,
                                    encoding: hotkey_flags(hotkey@),
                                    native_id: ov.next_native_id,
                                    owners: seq![owner],
                                },
                            ));
                            assert(self@ == bind_fresh_spec(ov, hotkey@, owner));
                            assert(wf(self@));
                        }
                        Ok(())
                    },
                    Err(e) => {
                        proof {
                            assert(self@.entries =~= ov.entries);
                            assert(self@ == native_failed_spec(ov));
                        }
                        Err(Error::System(e))
                    },
                }
            },
        }
    }

    /// Removes an owner from a hotkey it is recorded on. The last owner
    /// triggers one native unregister command; the entry, owner included,
    /// stays untouched unless the native release is confirmed, so the map
    /// always mirrors the native state.
    pub fn unbind<F: Fn(NativeCmd) -> Result<(), HotkeyError>>(
        &mut self,
        hotkey: &Hotkey,
        owner: u64,
        native: F,
    ) -> (r: Result<(), Error>)
        requires
            wf(old(self)@),
            has_hotkey(old(self)@, hotkey@),
            owners_of(old(self)@, hotkey@).contains(owner),
            forall|cmd: NativeCmd| #[trigger] call_requires(native, (cmd,)),
        ensures
            wf(final(self)@),
            final(self)@.next_owner_id == old(self)@.next_owner_id,
            final(self)@.next_native_id == old(self)@.next_native_id,
            unbind_transition(native, old(self)@, final(self)@, hotkey@, owner, r),
    {
        let i = match self.find_index(hotkey) {
            Some(i) => i,
            None => {
                proof {
                    assert(false);
                }
                return Err(Error::System(HotkeyError::Unknown));
            },
        };
        proof {
            lemma_index_unique(self@, hotkey@, i as int);
        }
        let ghost ov = self@;
        let ghost e_old = self@.entries[i as int];
        if self.entries[i].owners.len() > 1 {
            let mut e = self.entries.remove(i);
            let mut pos: usize = 0;
            let mut found = false;
            let mut l: usize = 0;
            while l < e.owners.len()
                invariant
                    l <= e.owners@.len(),
                    found ==> 0 <= pos < l && e.owners@[pos as int] == owner,
                    !found ==> forall|j: int| 0 <= j < l ==> e.owners@[j] != owner,
                decreases e.owners@.len() - l,
            {
                if !found && e.owners[l] == owner {
                    pos = l;
                    found = true;
                }
                l = l + 1;
            }
            proof {
                assert(found);
                let w = owner_index(e_old, owner);
                if w != pos {
                    assert(e_old.owners[w] == owner);
                    assert(e_old.owners[pos as int] == owner);
                }
            }
            e.owners.remove(pos);
            self.entries.insert(i, e);
            proof {
                assert(self@.entries =~= ov.entries.update(
                    i as int,
                    with_owner_removed(e_old, owner),
                ));
                assert(self@ == unbind_some_spec(ov, hotkey@, owner));
                lemma_remove_distinct(e_old.owners, pos as int);
                assert(wf(self@));
            }
            Ok(())
        } else {
            proof {
                assert(e_old.owners.len() == 1);
            }
            let id = self.entries[i].native_id;
            let encoding = self.entries[i].encoding;
            let res = native(NativeCmd::Unregister { id, encoding });
            match res {
                Ok(_) => {
                    self.entries.remove(i);
                    proof {
                        assert(self@.entries =~= ov.entries.remove(i as int));
                        assert(self@ == unbind_last_spec(ov, hotkey@));
                        assert(wf(self@));
                    }
                    Ok(())
                },
                Err(err) => {
                    proof {
                        assert(self@ == ov);
                    }
                    Err(Error::System(err))
                },
            }
        }
    }
}

/// Under the invariant no hotkey identity holds two native slots: entries
/// encode pairwise differently, and a hotkey's identity determines its
/// encoding.
pub proof fn lemma_wf_one_slot_per_hotkey(s: ServiceView)
    requires
        wf(s),
    ensures
        forall|i: int, j: int|
            0 <= i < j < s.entries.len() ==> !hotkey_eq(
                s.entries[i].hotkey,
                s.entries[j].hotkey,
            ),
{
    assert forall|i: int, j: int|
        0 <= i < j < s.entries.len() implies !hotkey_eq(
        s.entries[i].hotkey,
        s.entries[j].hotkey,
    ) by {
        assert(entry_wf(s.entries[i]));
        assert(entry_wf(s.entries[j]));
        if hotkey_eq(s.entries[i].hotkey, s.entries[j].hotkey) {
            lemma_hotkey_eq_flags(s.entries[i].hotkey, s.entries[j].hotkey);
        }
    }
}

/// Binding a fresh hotkey adds one well-formed entry and touches no other.
pub proof fn lemma_bind_fresh_wf(s: ServiceView, hv: HotkeyView, owner: u64)
    requires
        wf(s),
        !has_hotkey(s, hv),
        !has_flags(s, hotkey_flags(hv)),
        owner < s.next_owner_id,
        s.next_native_id < u64::MAX,
    ensures
        ({
            let r = bind_fresh_spec(s, hv, owner);
            &&& wf(r)
            &&& has_hotkey(r, hv)
            &&& index_of_hotkey(r, hv) == s.entries.len()
            &&& owners_of(r, hv) == seq![owner]
            &&& r.entries.len() == s.entries.len() + 1
            &&& forall|i: int| 0 <= i < s.entries.len() ==> r.entries[i] == s.entries[i]
        }),
{
    let r = bind_fresh_spec(s, hv, owner);
    let k = s.entries.len() as int;
    assert(r.entries[k].hotkey == hv);
    crate::hotkey::lemma_hotkey_eq_refl(hv);
    assert(hotkey_eq(r.entries[k].hotkey, hv));
    assert(r.entries[k].owners == seq![owner]);
    assert(seq![owner][0] == owner);
    assert forall|i: int| 0 <= i < s.entries.len() implies r.entries[i] == s.entries[i] by {
    }
    assert forall|i: int| 0 <= i < r.entries.len() implies entry_wf(#[trigger] r.entries[i]) by {
        if i < k {
            assert(entry_wf(s.entries[i]));
        }
    }
    assert forall|i: int, j: int|
        0 <= i < j < r.entries.len() implies r.entries[i].encoding != r.entries[j].encoding by {
        if j == k {
            if s.entries[i].encoding == hotkey_flags(hv) {
                assert(has_flags(s, hotkey_flags(hv)));
            }
        }
    }
    assert(wf(r));
    lemma_index_unique(r, hv, k);
}

/// Joining an already-bound hotkey rewrites one owner list and touches no
/// other entry, the counters included.
pub proof fn lemma_bind_existing_wf(s: ServiceView, hv: HotkeyView, owner: u64)
    requires
        wf(s),
        has_hotkey(s, hv),
        owner < s.next_owner_id,
    ensures
        ({
            let r = bind_existing_spec(s, hv, owner);
            let k = index_of_hotkey(s, hv);
            &&& wf(r)
            &&& has_hotkey(r, hv)
            &&& index_of_hotkey(r, hv) == k
            &&& owners_of(r, hv) == with_owner_added(s.entries[k], owner).owners
            &&& r.entries.len() == s.entries.len()
            &&& r.next_native_id == s.next_native_id
            &&& forall|i: int|
                0 <= i < s.entries.len() && i != k ==> r.entries[i] == s.entries[i]
        }),
{
    let r = bind_existing_spec(s, hv, owner);
    let k = index_of_hotkey(s, hv);
    assert(0 <= k < s.entries.len() && hotkey_eq(s.entries[k].hotkey, hv));
    let e2 = with_owner_added(s.entries[k], owner);
    assert(e2.hotkey == s.entries[k].hotkey);
    assert(e2.encoding == s.entries[k].encoding);
    assert(e2.native_id == s.entries[k].native_id);
    assert(r.entries[k] == e2);
    if !s.entries[k].owners.contains(owner) {
        assert(e2.owners == s.entries[k].owners.push(owner));
        assert forall|i: int, j: int|
            0 <= i < j < e2.owners.len() implies e2.owners[i] != e2.owners[j] by {
            assert(entry_wf(s.entries[k]));
            if j == e2.owners.len() - 1 {
                assert(e2.owners[j] == owner);
                if s.entries[k].owners[i] == owner {
                    assert(s.entries[k].owners.contains(owner));
                }
            }
        }
    }
    assert(entry_wf(s.entries[k]));
    assert(entry_wf(e2));
    assert forall|i: int| 0 <= i < r.entries.len() implies entry_wf(#[trigger] r.entries[i]) by {
        if i != k {
            assert(r.entries[i] == s.entries[i]);
            assert(entry_wf(s.entries[i]));
        }
    }
    assert(wf(r));
    lemma_index_unique(r, hv, k);
}

/// One owner releasing one hotkey: the entry survives exactly when other
/// owners remain, this owner is gone from it, and no other entry moves in
/// any way that a hotkey lookup can see.
pub proof fn lemma_release_one_wf(s: ServiceView, hv: HotkeyView, owner: u64)
    requires
        wf(s),
        has_hotkey(s, hv),
        owners_of(s, hv).contains(owner),
    ensures
        ({
            let r = release_one_spec(s, hv, owner);
            &&& wf(r)
            &&& r.next_owner_id == s.next_owner_id
            &&& r.next_native_id == s.next_native_id
            &&& (owners_of(s, hv).len() > 1 ==> has_hotkey(r, hv) && !owners_of(r, hv).contains(
                owner,
            ) && owners_of(r, hv).len() == owners_of(s, hv).len() - 1)
            &&& (owners_of(s, hv).len() <= 1 ==> !has_hotkey(r, hv) && r.entries.len()
                == s.entries.len() - 1)
            &&& forall|hv2: HotkeyView|
                !hotkey_eq(hv2, hv) ==> ((has_hotkey(r, hv2) <==> has_hotkey(s, hv2)) && (
                has_hotkey(s, hv2) ==> r.entries[index_of_hotkey(r, hv2)] == s.entries[
                    index_of_hotkey(s, hv2)
                ] && owners_of(r, hv2) == owners_of(s, hv2)))
        }),
{
    let r = release_one_spec(s, hv, owner);
    let k = index_of_hotkey(s, hv);
    assert(0 <= k < s.entries.len() && hotkey_eq(s.entries[k].hotkey, hv));
    assert(entry_wf(s.entries[k]));
    if owners_of(s, hv).len() > 1 {
        let e = s.entries[k];
        let pos = owner_index(e, owner);
        assert(0 <= pos < e.owners.len() && e.owners[pos] == owner);
        let e2 = with_owner_removed(e, owner);
        assert(r.entries == s.entries.update(k, e2));
        e.owners.remove_ensures(pos);
        lemma_remove_distinct(e.owners, pos);
        assert forall|l: int| 0 <= l < e2.owners.len() implies e2.owners[l] != owner by {
            let l0 = if l < pos {
                l
            } else {
                l + 1
            };
            assert(e2.owners[l] == e.owners[l0]);
        }
        if e2.owners.contains(owner) {
            let w = choose|w: int| 0 <= w < e2.owners.len() && e2.owners[w] == owner;
        }
        assert(entry_wf(e2));
        assert forall|i: int|
            0 <= i < r.entries.len() implies entry_wf(#[trigger] r.entries[i]) by {
            if i != k {
                assert(r.entries[i] == s.entries[i]);
                assert(entry_wf(s.entries[i]));
            }
        }
        assert(wf(r));
        lemma_index_unique(r, hv, k);
        assert forall|hv2: HotkeyView|
            !hotkey_eq(hv2, hv) implies ((has_hotkey(r, hv2) <==> has_hotkey(s, hv2)) && (
        has_hotkey(s, hv2) ==> r.entries[index_of_hotkey(r, hv2)] == s.entries[
            index_of_hotkey(s, hv2)
        ] && owners_of(r, hv2) == owners_of(s, hv2))) by {
            if has_hotkey(s, hv2) {
                let w = index_of_hotkey(s, hv2);
                assert(hotkey_eq(s.entries[w].hotkey, hv2));
                if w == k {
                    crate::hotkey::lemma_hotkey_eq_sym(s.entries[w].hotkey, hv2);
                    crate::hotkey::lemma_hotkey_eq_trans(hv2, s.entries[w].hotkey, hv);
                }
                assert(w != k);
                assert(r.entries[w] == s.entries[w]);
                lemma_index_unique(r, hv2, w);
            }
            if has_hotkey(r, hv2) {
                let w = index_of_hotkey(r, hv2);
                assert(hotkey_eq(r.entries[w].hotkey, hv2));
                if w == k {
                    crate::hotkey::lemma_hotkey_eq_sym(r.entries[w].hotkey, hv2);
                    crate::hotkey::lemma_hotkey_eq_trans(hv2, r.entries[w].hotkey, hv);
                }
                assert(w != k);
                assert(s.entries[w] == r.entries[w]);
                lemma_index_unique(s, hv2, w);
            }
        }
    } else {
        assert(r.entries == s.entries.remove(k));
        s.entries.remove_ensures(k);
        assert forall|i: int|
            0 <= i < r.entries.len() implies entry_wf(#[trigger] r.entries[i]) by {
            let i0 = if i < k {
                i
            } else {
                i + 1
            };
            assert(r.entries[i] == s.entries[i0]);
            assert(entry_wf(s.entries[i0]));
        }
        assert forall|i: int, j: int|
            0 <= i < j < r.entries.len() implies r.entries[i].encoding != r.entries[j].encoding
                && r.entries[i].native_id != r.entries[j].native_id by {
            let i0 = if i < k {
                i
            } else {
                i + 1
            };
            let j0 = if j < k {
                j
            } else {
                j + 1
            };
            assert(r.entries[i] == s.entries[i0]);
            assert(r.entries[j] == s.entries[j0]);
        }
        assert forall|i: int|
            0 <= i < r.entries.len() implies (#[trigger] r.entries[i]).native_id
                < r.next_native_id by {
            let i0 = if i < k {
                i
            } else {
                i + 1
            };
            assert(r.entries[i] == s.entries[i0]);
        }
        assert forall|i: int, l: int|
            0 <= i < r.entries.len() && 0 <= l < r.entries[i].owners.len()
                implies r.entries[i].owners[l] < r.next_owner_id by {
            let i0 = if i < k {
                i
            } else {
                i + 1
            };
            assert(r.entries[i] == s.entries[i0]);
            assert(s.entries[i0].owners[l] < s.next_owner_id);
        }
        assert(wf(r));
        if has_hotkey(r, hv) {
            let w = index_of_hotkey(r, hv);
            assert(hotkey_eq(r.entries[w].hotkey, hv));
            let w0 = if w < k {
                w
            } else {
                w + 1
            };
            assert(hotkey_eq(s.entries[w0].hotkey, hv));
            lemma_index_unique(s, hv, w0);
            lemma_index_unique(s, hv, k);
            assert(w0 == k);
            assert(false);
        }
        assert forall|hv2: HotkeyView|
            !hotkey_eq(hv2, hv) implies ((has_hotkey(r, hv2) <==> has_hotkey(s, hv2)) && (
        has_hotkey(s, hv2) ==> r.entries[index_of_hotkey(r, hv2)] == s.entries[
            index_of_hotkey(s, hv2)
        ] && owners_of(r, hv2) == owners_of(s, hv2))) by {
            if has_hotkey(s, hv2) {
                let w = index_of_hotkey(s, hv2);
                assert(hotkey_eq(s.entries[w].hotkey, hv2));
                if w == k {
                    crate::hotkey::lemma_hotkey_eq_sym(s.entries[w].hotkey, hv2);
                    crate::hotkey::lemma_hotkey_eq_trans(hv2, s.entries[w].hotkey, hv);
                }
                assert(w != k);
                let w2 = if w < k {
                    w
                } else {
                    w - 1
                };
                assert(r.entries[w2] == s.entries[w]);
                lemma_index_unique(r, hv2, w2);
            }
            if has_hotkey(r, hv2) {
                let w = index_of_hotkey(r, hv2);
                assert(hotkey_eq(r.entries[w].hotkey, hv2));
                let w0 = if w < k {
                    w
                } else {
                    w + 1
                };
                assert(hotkey_eq(s.entries[w0].hotkey, hv2));
                lemma_index_unique(s, hv2, w0);
            }
        }
    }
}

/// Removing one element of a duplicate-free sequence keeps it duplicate
/// free and keeps every other element.
proof fn lemma_remove_distinct(s: Seq<u64>, pos: int)
    requires
        0 <= pos < s.len(),
        forall|i: int, j: int| 0 <= i < j < s.len() ==> s[i] != s[j],
    ensures
        forall|i: int, j: int|
            0 <= i < j < s.remove(pos).len() ==> s.remove(pos)[i] != s.remove(pos)[j],
{
    assert forall|i: int, j: int|
        0 <= i < j < s.remove(pos).len() implies s.remove(pos)[i] != s.remove(pos)[j] by {
        let i0 = if i < pos { i } else { i + 1 };
        let j0 = if j < pos { j } else { j + 1 };
        assert(s.remove(pos)[i] == s[i0]);
        assert(s.remove(pos)[j] == s[j0]);
    }
}

} // verus!
