//! The per-caller handle: which hotkeys this caller personally owns, with
//! registration and release routed through the shared service. A manager's
//! bookkeeping always agrees with the service it is used with, so the
//! "absent owner" fault of the registry can never be reached from here.

use vstd::prelude::*;
use crate::hotkey::{
    Hotkey, HotkeyView, hotkey_eq, lemma_hotkey_eq_refl, lemma_hotkey_eq_sym,
    lemma_hotkey_eq_trans,
};
use crate::service::{
    HotkeyService, NativeCmd, ServiceView, bind_transition, has_hotkey, index_of_hotkey,
    lemma_index_unique, owners_of, unbind_transition, wf,
};
use crate::{Error, HotkeyError};

verus! {

/// The mathematical shape of a manager: its owner id and the hotkeys it
/// personally registered, in registration order.
pub struct ManagerView {
    pub owned: Seq<HotkeyView>,
    pub id: u64,
}

/// A per-caller handle on the shared hotkey service.
pub struct HotkeyManager {
    registered_hotkeys: Vec<Hotkey>,
    id: u64,
}

impl View for HotkeyManager {
    type V = ManagerView;

    closed spec fn view(&self) -> ManagerView {
        ManagerView {
            owned: self.registered_hotkeys@.map_values(|h: Hotkey| h@),
            id: self.id,
        }
    }
}

/// Whether the manager records this hotkey, up to hotkey identity.
pub open spec fn owned_contains(m: ManagerView, hv: HotkeyView) -> bool {
    crate::hotkey::hotkeys_contain(m.owned, hv)
}

/// The position of a hotkey in the owned list; meaningful when present.
pub open spec fn owned_index(m: ManagerView, hv: HotkeyView) -> int {
    choose|i: int| 0 <= i < m.owned.len() && hotkey_eq(m.owned[i], hv)
}

/// A manager never records the same hotkey twice, in any modifier order.
pub open spec fn manager_wf(m: ManagerView) -> bool {
    forall|i: int, j: int| 0 <= i < j < m.owned.len() ==> !hotkey_eq(m.owned[i], m.owned[j])
}

/// The bookkeeping pact between a manager and the service it is used with:
/// every hotkey the manager records is bound in the service with the
/// manager's id among its owners, and the id was handed out by the service.
pub open spec fn owns_ok(m: ManagerView, s: ServiceView) -> bool {
    &&& forall|i: int|
        0 <= i < m.owned.len() ==> has_hotkey(s, #[trigger] m.owned[i]) && owners_of(
            s,
            m.owned[i],
        ).contains(m.id)
    &&& m.id < s.next_owner_id
}

impl HotkeyManager {
    /// A fresh manager on the given service, owning nothing, under an owner
    /// id that the service has never handed out before and never will again.
    pub fn new(service: &mut HotkeyService) -> (m: HotkeyManager)
        requires
            wf(old(service)@),
            old(service)@.next_owner_id < u64::MAX,
        ensures
            wf(final(service)@),
            final(service)@.entries == old(service)@.entries,
            final(service)@.next_native_id == old(service)@.next_native_id,
            final(service)@.next_owner_id == old(service)@.next_owner_id + 1,
            m@.owned.len() == 0,
            m@.id == old(service)@.next_owner_id,
            manager_wf(m@),
            owns_ok(m@, final(service)@),
    {
        let id = service.fresh_owner_id();
        HotkeyManager { registered_hotkeys: Vec::new(), id }
    }

    fn find_owned(&self, hotkey: &Hotkey) -> (r: Option<usize>)
        ensures
            match r {
                Some(i) => 0 <= i < self@.owned.len() && hotkey_eq(
                    self@.owned[i as int],
                    hotkey@,
                ),
                None => !owned_contains(self@, hotkey@),
            },
    {
        let mut i: usize = 0;
        while i < self.registered_hotkeys.len()
            invariant
                i <= self@.owned.len(),
                self@.owned.len() == self.registered_hotkeys@.len(),
                forall|j: int| 0 <= j < i ==> !hotkey_eq(self@.owned[j], hotkey@),
            decreases self@.owned.len() - i,
        {
            if self.registered_hotkeys[i] == *hotkey {
                proof {
                    assert(hotkey_eq(self@.owned[i as int], hotkey@));
                }
                return Some(i);
            }
            proof {
                assert(self@.owned[i as int] == self.registered_hotkeys@[i as int]@);
            }
            i = i + 1;
        }
        proof {
            if owned_contains(self@, hotkey@) {
                let w = choose|w: int|
                    0 <= w < self@.owned.len() && hotkey_eq(self@.owned[w], hotkey@);
            }
        }
        None
    }

    /// The owner id this manager registers under.
    pub fn owner_id(&self) -> (r: u64)
        ensures
            r == self@.id,
    {
        self.id
    }

    /// Whether this manager personally registered the given hotkey.
    pub fn is_registered(&self, hotkey: &Hotkey) -> (r: bool)
        ensures
            r == owned_contains(self@, hotkey@),
    {
        self.find_owned(hotkey).is_some()
    }

    /// Registers a hotkey for this manager. A hotkey this manager already
    /// owns is refused outright, with the service untouched and so no native
    /// call made; otherwise the service binds it under this manager's id and
    /// the manager records it only when the bind succeeded.
    pub fn register<F: Fn(NativeCmd) -> Result<(), HotkeyError>>(
        &mut self,
        service: &mut HotkeyService,
        hotkey: Hotkey,
        native: F,
    ) -> (r: Result<(), Error>)
        requires
            wf(old(service)@),
            manager_wf(old(self)@),
            owns_ok(old(self)@, old(service)@),
            old(service)@.next_native_id < u64::MAX,
            forall|cmd: NativeCmd| #[trigger] call_requires(native, (cmd,)),
        ensures
            wf(final(service)@),
            manager_wf(final(self)@),
            owns_ok(final(self)@, final(service)@),
            final(self)@.id == old(self)@.id,
            final(service)@.next_owner_id == old(service)@.next_owner_id,
            owned_contains(old(self)@, hotkey@) ==> final(self)@ == old(self)@
                && final(service)@ == old(service)@
                && (r matches Err(e) && e matches Error::HotkeyAlreadyRegistered(h) && h@
                == hotkey@),
            !owned_contains(old(self)@, hotkey@) ==> {
                &&& bind_transition(
                    native,
                    old(service)@,
                    final(service)@,
                    hotkey@,
                    old(self)@.id,
                    r,
                )
                &&& (r matches Ok(_) ==> final(self)@.owned == old(self)@.owned.push(hotkey@))
                &&& (r matches Err(_) ==> final(self)@.owned == old(self)@.owned)
            },
    {
        if self.is_registered(&hotkey) {
            return Err(Error::HotkeyAlreadyRegistered(hotkey));
        }
        let ghost ov = service@;
        let r = service.bind(&hotkey, self.id, native);
        match r {
            Ok(_) => {
                let ghost hv = hotkey@;
                self.registered_hotkeys.push(hotkey);
                proof {
                    assert(self@.owned =~= old(self)@.owned.push(hv));
                    lemma_register_ok(ov, service@, old(self)@, self@, hv);
                }
                Ok(())
            },
            Err(e) => {
                proof {
                    lemma_service_unchanged_owns(old(self)@, ov, service@);
                }
                Err(e)
            },
        }
    }

    /// Releases a hotkey this manager owns. A hotkey it never registered is
    /// refused with the service untouched; otherwise the service unbinds it,
    /// and the local record is dropped only once the service confirmed, so a
    /// failed native release leaves the manager still owning the hotkey.
    pub fn unregister<F: Fn(NativeCmd) -> Result<(), HotkeyError>>(
        &mut self,
        service: &mut HotkeyService,
        hotkey: &Hotkey,
        native: F,
    ) -> (r: Result<(), Error>)
        requires
            wf(old(service)@),
            manager_wf(old(self)@),
            owns_ok(old(self)@, old(service)@),
            forall|cmd: NativeCmd| #[trigger] call_requires(native, (cmd,)),
        ensures
            wf(final(service)@),
            manager_wf(final(self)@),
            owns_ok(final(self)@, final(service)@),
            final(self)@.id == old(self)@.id,
            final(service)@.next_owner_id == old(service)@.next_owner_id,
            final(service)@.next_native_id == old(service)@.next_native_id,
            !owned_contains(old(self)@, hotkey@) ==> final(self)@ == old(self)@
                && final(service)@ == old(service)@
                && (r matches Err(e) && e matches Error::HotkeyNotRegistered(h) && h@
                == hotkey@),
            owned_contains(old(self)@, hotkey@) ==> {
                &&& unbind_transition(
                    native,
                    old(service)@,
                    final(service)@,
                    hotkey@,
                    old(self)@.id,
                    r,
                )
                &&& (r matches Ok(_) ==> final(self)@.owned == old(self)@.owned.remove(
                    owned_index(old(self)@, hotkey@),
                ))
                &&& (r matches Err(_) ==> final(self)@.owned == old(self)@.owned)
            },
    {
        let pos = match self.find_owned(hotkey) {
            Some(p) => p,
            None => {
                return Err(Error::HotkeyNotRegistered(hotkey.clone()));
            },
        };
        let ghost ov = service@;
        let ghost hv = hotkey@;
        proof {
            assert(owned_contains(self@, hv));
            assert(has_hotkey(ov, self@.owned[pos as int]));
            let kp = index_of_hotkey(ov, self@.owned[pos as int]);
            assert(hotkey_eq(ov.entries[kp].hotkey, self@.owned[pos as int]));
            lemma_hotkey_eq_trans(ov.entries[kp].hotkey, self@.owned[pos as int], hv);
            lemma_index_unique(ov, hv, kp);
            assert(owners_of(ov, hv).contains(self@.id));
        }
        let r = service.unbind(hotkey, self.id, native);
        match r {
            Ok(_) => {
                proof {
                    let w = owned_index(old(self)@, hv);
                    if w != pos {
                        assert(hotkey_eq(old(self)@.owned[w], hv));
                        lemma_hotkey_eq_sym(old(self)@.owned[pos as int], hv);
                        lemma_hotkey_eq_trans(old(self)@.owned[w], hv, old(self)@.owned[pos as int]);
                        if w < pos {
                            assert(!hotkey_eq(old(self)@.owned[w], old(self)@.owned[pos as int]));
                        } else {
                            lemma_hotkey_eq_sym(old(self)@.owned[w], old(self)@.owned[pos as int]);
                            assert(!hotkey_eq(old(self)@.owned[pos as int], old(self)@.owned[w]));
                        }
                    }
                }
                self.registered_hotkeys.remove(pos);
                proof {
                    assert(self@.owned =~= old(self)@.owned.remove(pos as int));
                    lemma_unregister_ok(ov, service@, old(self)@, self@, hv, pos as int);
                }
                Ok(())
            },
            Err(e) => {
                proof {
                    lemma_unbind_err_owns(old(self)@, ov, service@, hv);
                }
                Err(e)
            },
        }
    }
}

impl HotkeyManager {
    // One pass of the release loop: unregisters the hotkey at position `j`
    // of the originally owned list and accounts for both outcomes, with a
    // contract shaped like the loop's invariants.
    fn release_step<F: Fn(NativeCmd) -> Result<(), HotkeyError>>(
        &mut self,
        service: &mut HotkeyService,
        hotkey: &Hotkey,
        native: F,
        Ghost(om): Ghost<ManagerView>,
        Ghost(old_owned): Ghost<Seq<HotkeyView>>,
        Ghost(j): Ghost<int>,
    ) -> (r: Result<(), Error>)
        requires
            old_owned == om.owned,
            manager_wf(om),
            0 <= j < old_owned.len(),
            hotkey@ == old_owned[j],
            wf(old(service)@),
            manager_wf(old(self)@),
            owns_ok(old(self)@, old(service)@),
            old(self)@.id == om.id,
            forall|hv2: HotkeyView|
                owned_contains(old(self)@, hv2) ==> owned_contains(om, hv2),
            forall|l: int|
                j <= l < old_owned.len() ==> owned_contains(old(self)@, #[trigger] old_owned[l]),
            forall|cmd: NativeCmd| #[trigger] call_requires(native, (cmd,)),
        ensures
            wf(final(service)@),
            manager_wf(final(self)@),
            owns_ok(final(self)@, final(service)@),
            final(self)@.id == old(self)@.id,
            final(service)@.next_owner_id == old(service)@.next_owner_id,
            final(service)@.next_native_id == old(service)@.next_native_id,
            forall|hv2: HotkeyView|
                owned_contains(final(self)@, hv2) ==> owned_contains(om, hv2),
            forall|l: int|
                j + 1 <= l < old_owned.len() ==> owned_contains(
                    final(self)@,
                    #[trigger] old_owned[l],
                ),
            r matches Ok(_) ==> final(service)@ == crate::service::release_one_spec(
                old(service)@,
                old_owned[j],
                om.id,
            ),
            r matches Ok(_) && old(self)@.owned == old_owned.skip(j) ==> final(self)@.owned
                == old_owned.skip(j).drop_first(),
            r matches Err(err) ==> failed_release(
                native,
                om,
                final(self)@,
                final(service)@,
                j + 1,
                err,
            ),
            forall|err0: Error|
                r matches Ok(_) && #[trigger] failed_release(
                    native,
                    om,
                    old(self)@,
                    old(service)@,
                    j,
                    err0,
                ) ==> failed_release(native, om, final(self)@, final(service)@, j + 1, err0),
            crate::service::native_always_ok(native) ==> r matches Ok(_),
    {
        let ghost mb = self@;
        let ghost sb = service@;
        proof {
            assert(owned_contains(mb, hotkey@));
            lemma_owned_has(mb, sb, hotkey@);
        }
        let res = self.unregister(service, hotkey, native);
        proof {
            lemma_release_step(native, om, old_owned, j, mb, sb, self@, service@, res);
        }
        res
    }

    /// Releases every hotkey this manager owns, in registration order,
    /// continuing past individual failures and reporting the last failure,
    /// or success when nothing failed. A hotkey whose native release fails
    /// stays owned here and stays bound in the service, so an error result
    /// means some owned hotkey was not released, and the result carries the
    /// port's own failure for such a hotkey. With a native port that cannot
    /// fail, everything is released: the manager ends up owning nothing and
    /// the service drops every entry this manager owned alone.
    #[verifier::rlimit(100)]
    #[verifier::spinoff_prover]
    pub fn unregister_all<F: Fn(NativeCmd) -> Result<(), HotkeyError> + Copy>(
        &mut self,
        service: &mut HotkeyService,
        native: F,
    ) -> (r: Result<(), Error>)
        requires
            wf(old(service)@),
            manager_wf(old(self)@),
            owns_ok(old(self)@, old(service)@),
            forall|cmd: NativeCmd| #[trigger] call_requires(native, (cmd,)),
        ensures
            wf(final(service)@),
            manager_wf(final(self)@),
            owns_ok(final(self)@, final(service)@),
            final(self)@.id == old(self)@.id,
            final(service)@.next_owner_id == old(service)@.next_owner_id,
            final(service)@.next_native_id == old(service)@.next_native_id,
            forall|hv: HotkeyView|
                owned_contains(final(self)@, hv) ==> owned_contains(old(self)@, hv),
            r matches Ok(_) ==> final(self)@.owned.len() == 0 && final(service)@
                == crate::service::release_all_spec(
                old(service)@,
                old(self)@.owned,
                old(self)@.id,
            ),
            r matches Err(err) ==> final(self)@.owned.len() > 0 && failed_release(
                native,
                old(self)@,
                final(self)@,
                final(service)@,
                old(self)@.owned.len() as int,
                err,
            ),
            crate::service::native_always_ok(native) ==> r matches Ok(_),
    {
        let ghost ov = service@;
        let ghost old_owned = self@.owned;
        let mut snapshot: Vec<Hotkey> = Vec::new();
        let mut i: usize = 0;
        while i < self.registered_hotkeys.len()
            invariant
                i <= self.registered_hotkeys@.len(),
                old_owned == self@.owned,
                old_owned.len() == self.registered_hotkeys@.len(),
                snapshot@.map_values(|h: Hotkey| h@) == old_owned.take(i as int),
            decreases self.registered_hotkeys@.len() - i,
        {
            let hk = self.registered_hotkeys[i].clone();
            let ghost hkv = hk@;
            let ghost prevsnap = snapshot@;
            proof {
                assert(old_owned[i as int] == self.registered_hotkeys@[i as int]@);
                assert(hkv == old_owned[i as int]);
            }
            snapshot.push(hk);
            proof {
                assert(prevsnap.map_values(|h: Hotkey| h@).len() == prevsnap.len());
                assert(prevsnap.len() == i as int);
                assert forall|l: int| 0 <= l < snapshot@.len()
                    implies (#[trigger] snapshot@[l])@ == old_owned.take(i as int + 1)[l] by {
                    if l < i as int {
                        assert(snapshot@[l] == prevsnap[l]);
                        assert(prevsnap.map_values(|h: Hotkey| h@)[l]
                            == old_owned.take(i as int)[l]);
                    } else {
                        assert(l == i as int);
                        assert(snapshot@[l]@ == hkv);
                    }
                }
                assert(snapshot@.map_values(|h: Hotkey| h@) =~= old_owned.take(i as int + 1));
            }
            i = i + 1;
        }
        proof {
            lemma_sweep_init(ov, old(self)@);
            assert forall|l: int|
                0 <= l < old_owned.len() implies owned_contains(
                self@,
                #[trigger] old_owned[l],
            ) by {
                lemma_hotkey_eq_refl(old_owned[l]);
            }
        }
        let mut last: Result<(), Error> = Ok(());
        let mut j: usize = 0;
        while j < snapshot.len()
            invariant
                j <= old_owned.len(),
                snapshot@.map_values(|h: Hotkey| h@) == old_owned,
                snapshot@.len() == old_owned.len(),
                manager_wf(old(self)@),
                old_owned == old(self)@.owned,
                wf(service@),
                manager_wf(self@),
                owns_ok(self@, service@),
                self@.id == old(self)@.id,
                service@.next_owner_id == ov.next_owner_id,
                service@.next_native_id == ov.next_native_id,
                forall|cmd: NativeCmd| #[trigger] call_requires(native, (cmd,)),
                forall|hv: HotkeyView|
                    owned_contains(self@, hv) ==> owned_contains(old(self)@, hv),
                forall|l: int|
                    j <= l < old_owned.len() ==> owned_contains(self@, #[trigger] old_owned[l]),
                last matches Ok(_) ==> sweep_clean(ov, old(self)@, self@, service@, j as int),
                last matches Err(err) ==> failed_release(
                    native,
                    old(self)@,
                    self@,
                    service@,
                    j as int,
                    err,
                ),
                crate::service::native_always_ok(native) ==> (last matches Ok(_)),
            decreases snapshot@.len() - j,
        {
            let ghost hv = old_owned[j as int];
            let ghost mb = self@;
            let ghost sb = service@;
            let ghost last_before = last;
            proof {
                assert(snapshot@[j as int]@ == hv);
            }
            let res = self.release_step(
                service,
                &snapshot[j],
                native,
                Ghost(old(self)@),
                Ghost(old_owned),
                Ghost(j as int),
            );
            proof {
                if last_before is Ok && res is Ok {
                    lemma_sweep_step(ov, old(self)@, mb, sb, self@, service@, j as int);
                }
            }
            match res {
                Ok(_) => {},
                Err(e) => {
                    last = Err(e);
                },
            }
            j = j + 1;
        }
        proof {
            if last is Ok {
                lemma_sweep_exit(ov, old(self)@, self@, service@);
            } else {
                lemma_failed_release_nonempty(
                    native,
                    old(self)@,
                    self@,
                    service@,
                    old_owned.len() as int,
                    last->Err_0,
                );
            }
        }
        last
    }
}

/// An individual release that failed: some hotkey among the first `bound`
/// originally recorded ones is still owned and still bound, and `err` is
/// the port's own reply to the release command for that hotkey's entry.
#[verifier::opaque]
pub open spec fn failed_release<F: Fn(NativeCmd) -> Result<(), HotkeyError>>(
    native: F,
    om: ManagerView,
    m: ManagerView,
    s: ServiceView,
    bound: int,
    err: Error,
) -> bool {
    exists|jf: int, e: HotkeyError|
        {
            &&& 0 <= jf < bound
            &&& jf < om.owned.len()
            &&& owned_contains(m, om.owned[jf])
            &&& has_hotkey(s, om.owned[jf])
            &&& err == Error::System(e)
            &&& #[trigger] call_ensures(
                native,
                (NativeCmd::Unregister {
                    id: s.entries[index_of_hotkey(s, om.owned[jf])].native_id,
                    encoding: s.entries[index_of_hotkey(s, om.owned[jf])].encoding,
                },),
                Err::<(), HotkeyError>(e),
            )
        }
}

/// A manager with a failed release on record still owns something.
proof fn lemma_failed_release_nonempty<F: Fn(NativeCmd) -> Result<(), HotkeyError>>(
    native: F,
    om: ManagerView,
    m: ManagerView,
    s: ServiceView,
    bound: int,
    err: Error,
)
    requires
        failed_release(native, om, m, s, bound, err),
    ensures
        m.owned.len() > 0,
{
    reveal(failed_release);
    let (jf, e): (int, HotkeyError) = choose|jf: int, e: HotkeyError|
        {
            &&& 0 <= jf < bound
            &&& jf < om.owned.len()
            &&& owned_contains(m, om.owned[jf])
            &&& has_hotkey(s, om.owned[jf])
            &&& err == Error::System(e)
            &&& #[trigger] call_ensures(
                native,
                (NativeCmd::Unregister {
                    id: s.entries[index_of_hotkey(s, om.owned[jf])].native_id,
                    encoding: s.entries[index_of_hotkey(s, om.owned[jf])].encoding,
                },),
                Err::<(), HotkeyError>(e),
            )
        };
    let w = choose|w: int| 0 <= w < m.owned.len() && hotkey_eq(m.owned[w], om.owned[jf]);
}

/// One pass of the release loop: what a single `unregister` of the hotkey
/// at position `j` of the original list does to the bookkeeping, to the
/// service, and to any failure already on record.
#[verifier::rlimit(50)]
proof fn lemma_release_step<F: Fn(NativeCmd) -> Result<(), HotkeyError>>(
    native: F,
    om: ManagerView,
    old_owned: Seq<HotkeyView>,
    j: int,
    mb: ManagerView,
    sb: ServiceView,
    ma: ManagerView,
    sa: ServiceView,
    res: Result<(), Error>,
)
    requires
        old_owned == om.owned,
        manager_wf(om),
        0 <= j < old_owned.len(),
        wf(sb),
        manager_wf(mb),
        owns_ok(mb, sb),
        mb.id == om.id,
        ma.id == mb.id,
        forall|hv2: HotkeyView| owned_contains(mb, hv2) ==> owned_contains(om, hv2),
        forall|l: int| j <= l < old_owned.len() ==> owned_contains(mb, #[trigger] old_owned[l]),
        crate::service::unbind_transition(native, sb, sa, old_owned[j], mb.id, res),
        res matches Ok(_) ==> ma.owned == mb.owned.remove(owned_index(mb, old_owned[j])),
        res matches Err(_) ==> ma == mb,
    ensures
        forall|hv2: HotkeyView| owned_contains(ma, hv2) ==> owned_contains(om, hv2),
        forall|l: int|
            j + 1 <= l < old_owned.len() ==> owned_contains(ma, #[trigger] old_owned[l]),
        res matches Ok(_) ==> sa == crate::service::release_one_spec(sb, old_owned[j], mb.id),
        res matches Ok(_) && mb.owned == old_owned.skip(j) ==> ma.owned == old_owned.skip(
            j,
        ).drop_first(),
        res matches Err(err) ==> sa == sb && failed_release(native, om, ma, sa, j + 1, err),
        forall|err0: Error|
            res matches Ok(_) && #[trigger] failed_release(native, om, mb, sb, j, err0)
                ==> failed_release(native, om, ma, sa, j + 1, err0),
        crate::service::native_always_ok(native) ==> res matches Ok(_),
{
    reveal(failed_release);
    let hv = old_owned[j];
    assert(owned_contains(mb, hv));
    lemma_owned_has(mb, sb, hv);
    let idx = owned_index(mb, hv);
    assert(0 <= idx < mb.owned.len() && hotkey_eq(mb.owned[idx], hv));
    if res is Ok {
        assert(ma.owned == mb.owned.remove(idx));
        assert forall|hv2: HotkeyView|
            owned_contains(ma, hv2) implies owned_contains(om, hv2) by {
            lemma_remove_subset(mb.owned, idx, hv2);
        }
        assert forall|l: int|
            j + 1 <= l < old_owned.len() implies owned_contains(
            ma,
            #[trigger] old_owned[l],
        ) by {
            assert(!hotkey_eq(old_owned[j], old_owned[l]));
            if hotkey_eq(mb.owned[idx], old_owned[l]) {
                lemma_hotkey_eq_sym(mb.owned[idx], hv);
                lemma_hotkey_eq_trans(hv, mb.owned[idx], old_owned[l]);
            }
            lemma_remove_contains(mb.owned, idx, old_owned[l]);
        }
        assert(sa == crate::service::release_one_spec(sb, hv, mb.id));
        if mb.owned == old_owned.skip(j) {
            assert(mb.owned[0] == hv);
            if idx != 0 {
                assert(hotkey_eq(mb.owned[idx], mb.owned[0]));
                lemma_hotkey_eq_sym(mb.owned[idx], mb.owned[0]);
                assert(false);
            }
            assert(mb.owned.remove(0) =~= mb.owned.drop_first());
        }
        assert forall|err0: Error|
            res matches Ok(_) && #[trigger] failed_release(native, om, mb, sb, j, err0)
                implies failed_release(native, om, ma, sa, j + 1, err0) by {
            let (jf, e): (int, HotkeyError) = choose|jf: int, e: HotkeyError|
                {
                    &&& 0 <= jf < j
                    &&& jf < om.owned.len()
                    &&& owned_contains(mb, om.owned[jf])
                    &&& has_hotkey(sb, om.owned[jf])
                    &&& err0 == Error::System(e)
                    &&& #[trigger] call_ensures(
                        native,
                        (NativeCmd::Unregister {
                            id: sb.entries[index_of_hotkey(sb, om.owned[jf])].native_id,
                            encoding: sb.entries[index_of_hotkey(sb, om.owned[jf])].encoding,
                        },),
                        Err::<(), HotkeyError>(e),
                    )
                };
            assert(!hotkey_eq(old_owned[jf], old_owned[j]));
            if hotkey_eq(mb.owned[idx], old_owned[jf]) {
                lemma_hotkey_eq_sym(mb.owned[idx], hv);
                lemma_hotkey_eq_trans(hv, mb.owned[idx], old_owned[jf]);
                lemma_hotkey_eq_sym(hv, old_owned[jf]);
            }
            lemma_remove_contains(mb.owned, idx, old_owned[jf]);
            assert(owned_contains(ma, old_owned[jf]));
            crate::service::lemma_release_one_wf(sb, hv, mb.id);
            assert(!hotkey_eq(old_owned[jf], hv));
            assert(has_hotkey(sa, old_owned[jf]));
            assert(sa.entries[index_of_hotkey(sa, old_owned[jf])] == sb.entries[
                index_of_hotkey(sb, old_owned[jf])
            ]);
            assert(call_ensures(
                native,
                (NativeCmd::Unregister {
                    id: sa.entries[index_of_hotkey(sa, old_owned[jf])].native_id,
                    encoding: sa.entries[index_of_hotkey(sa, old_owned[jf])].encoding,
                },),
                Err::<(), HotkeyError>(e),
            ));
        }
    } else {
        assert(ma == mb);
        assert(sa == sb);
        if crate::service::native_always_ok(native) {
            assert(false);
        }
        let err = res->Err_0;
        assert(err is System);
        let e = err->System_0;
        assert(err == Error::System(e));
        assert(call_ensures(
            native,
            (NativeCmd::Unregister {
                id: sa.entries[index_of_hotkey(sa, old_owned[j])].native_id,
                encoding: sa.entries[index_of_hotkey(sa, old_owned[j])].encoding,
            },),
            Err::<(), HotkeyError>(e),
        ));
        assert(owned_contains(ma, old_owned[j]));
        assert(has_hotkey(sa, old_owned[j]));
        assert(failed_release(native, om, ma, sa, j + 1, err));
    }
}

/// A release sweep that has not failed so far: after `j` releases, the
/// manager still owns exactly the tail of its original list, and the
/// service is the released prefix's fold.
#[verifier::opaque]
pub open spec fn sweep_clean(
    ov: ServiceView,
    om: ManagerView,
    m: ManagerView,
    s: ServiceView,
    j: int,
) -> bool {
    &&& m.owned == om.owned.skip(j)
    &&& s == crate::service::release_all_spec(ov, om.owned.take(j), om.id)
}

proof fn lemma_sweep_init(ov: ServiceView, om: ManagerView)
    ensures
        sweep_clean(ov, om, om, ov, 0),
{
    reveal(sweep_clean);
    assert(om.owned.skip(0) =~= om.owned);
    assert(om.owned.take(0) =~= Seq::<HotkeyView>::empty());
    crate::service::lemma_release_all_nil(ov, om.owned.take(0), om.id);
}

proof fn lemma_sweep_step(
    ov: ServiceView,
    om: ManagerView,
    mb: ManagerView,
    sb: ServiceView,
    ma: ManagerView,
    sa: ServiceView,
    j: int,
)
    requires
        0 <= j < om.owned.len(),
        sweep_clean(ov, om, mb, sb, j),
        sa == crate::service::release_one_spec(sb, om.owned[j], om.id),
        mb.owned == om.owned.skip(j) ==> ma.owned == om.owned.skip(j).drop_first(),
    ensures
        sweep_clean(ov, om, ma, sa, j + 1),
{
    reveal(sweep_clean);
    assert(ma.owned == om.owned.skip(j).drop_first());
    assert(om.owned.skip(j).drop_first() =~= om.owned.skip(j + 1));
    crate::service::lemma_release_all_push(ov, om.owned.take(j), om.owned[j], om.id);
    assert(om.owned.take(j).push(om.owned[j]) =~= om.owned.take(j + 1));
}

proof fn lemma_sweep_exit(ov: ServiceView, om: ManagerView, m: ManagerView, s: ServiceView)
    requires
        sweep_clean(ov, om, m, s, om.owned.len() as int),
    ensures
        m.owned.len() == 0,
        s == crate::service::release_all_spec(ov, om.owned, om.id),
{
    reveal(sweep_clean);
    assert(om.owned.skip(om.owned.len() as int) =~= Seq::<HotkeyView>::empty());
    assert(om.owned.take(om.owned.len() as int) =~= om.owned);
}

/// A recorded hotkey is bound in the service with this manager's id on it;
/// the pact transfers along hotkey identity.
proof fn lemma_owned_has(m: ManagerView, s: ServiceView, hv: HotkeyView)
    requires
        wf(s),
        owns_ok(m, s),
        owned_contains(m, hv),
    ensures
        has_hotkey(s, hv),
        owners_of(s, hv).contains(m.id),
{
    let i = choose|i: int| 0 <= i < m.owned.len() && hotkey_eq(m.owned[i], hv);
    assert(has_hotkey(s, m.owned[i]) && owners_of(s, m.owned[i]).contains(m.id));
    let wi = index_of_hotkey(s, m.owned[i]);
    assert(hotkey_eq(s.entries[wi].hotkey, m.owned[i]));
    lemma_hotkey_eq_trans(s.entries[wi].hotkey, m.owned[i], hv);
    lemma_index_unique(s, hv, wi);
}

/// Striking one position keeps every hotkey that sits elsewhere.
proof fn lemma_remove_contains(s: Seq<HotkeyView>, idx: int, v: HotkeyView)
    requires
        0 <= idx < s.len(),
        crate::hotkey::hotkeys_contain(s, v),
        !hotkey_eq(s[idx], v),
    ensures
        crate::hotkey::hotkeys_contain(s.remove(idx), v),
{
    let w = choose|w: int| 0 <= w < s.len() && hotkey_eq(s[w], v);
    s.remove_ensures(idx);
    if w < idx {
        assert(hotkey_eq(s.remove(idx)[w], v));
    } else {
        assert(hotkey_eq(s.remove(idx)[w - 1], v));
    }
}

/// Striking one position introduces no hotkey.
proof fn lemma_remove_subset(s: Seq<HotkeyView>, idx: int, v: HotkeyView)
    requires
        0 <= idx < s.len(),
    ensures
        crate::hotkey::hotkeys_contain(s.remove(idx), v) ==> crate::hotkey::hotkeys_contain(
            s,
            v,
        ),
{
    if crate::hotkey::hotkeys_contain(s.remove(idx), v) {
        let w = choose|w: int| 0 <= w < s.remove(idx).len() && hotkey_eq(s.remove(idx)[w], v);
        s.remove_ensures(idx);
        if w < idx {
            assert(hotkey_eq(s[w], v));
        } else {
            assert(hotkey_eq(s[w + 1], v));
        }
    }
}

/// A service left untouched keeps every bookkeeping pact.
proof fn lemma_service_unchanged_owns(m: ManagerView, ov: ServiceView, nv: ServiceView)
    requires
        owns_ok(m, ov),
        nv == ov || nv == crate::service::native_failed_spec(ov),
    ensures
        owns_ok(m, nv),
{
    assert(nv.entries == ov.entries);
    assert(nv.next_owner_id == ov.next_owner_id);
}

/// After a successful bind of a hotkey the manager did not own, the pact
/// holds again with the hotkey appended to the owned list.
proof fn lemma_register_ok(
    ov: ServiceView,
    nv: ServiceView,
    om: ManagerView,
    nm: ManagerView,
    hv: HotkeyView,
)
    requires
        wf(ov),
        wf(nv),
        manager_wf(om),
        owns_ok(om, ov),
        !owned_contains(om, hv),
        nm.owned == om.owned.push(hv),
        nm.id == om.id,
        nv.next_owner_id == ov.next_owner_id,
        nv == crate::service::bind_existing_spec(ov, hv, om.id) && has_hotkey(ov, hv) || nv
            == crate::service::bind_fresh_spec(ov, hv, om.id) && !has_hotkey(ov, hv),
    ensures
        manager_wf(nm),
        owns_ok(nm, nv),
{
    assert forall|i: int, j: int|
        0 <= i < j < nm.owned.len() implies !hotkey_eq(nm.owned[i], nm.owned[j]) by {
        if j == nm.owned.len() - 1 {
            assert(nm.owned[j] == hv);
            assert(nm.owned[i] == om.owned[i]);
            if hotkey_eq(om.owned[i], hv) {
                assert(owned_contains(om, hv));
            }
        }
    }
    if has_hotkey(ov, hv) {
        let k = index_of_hotkey(ov, hv);
        let e = ov.entries[k];
        assert(hotkey_eq(e.hotkey, hv));
        assert(nv.entries == ov.entries.update(k, crate::service::with_owner_added(e, om.id)));
        assert forall|i: int|
            0 <= i < nm.owned.len() implies has_hotkey(nv, #[trigger] nm.owned[i]) && owners_of(
            nv,
            nm.owned[i],
        ).contains(nm.id) by {
            let w = nm.owned[i];
            if i < om.owned.len() {
                assert(has_hotkey(ov, w) && owners_of(ov, w).contains(om.id));
                let wi = index_of_hotkey(ov, w);
                assert(hotkey_eq(ov.entries[wi].hotkey, w));
                assert(nv.entries[wi].hotkey == ov.entries[wi].hotkey);
                lemma_index_unique(nv, w, wi);
                if wi == k {
                    assert(nv.entries[wi].owners.contains(om.id));
                } else {
                    assert(nv.entries[wi] == ov.entries[wi]);
                }
            } else {
                assert(w == hv);
                assert(nv.entries[k].hotkey == e.hotkey);
                lemma_index_unique(nv, hv, k);
                assert(nv.entries[k] == crate::service::with_owner_added(e, om.id));
                if !e.owners.contains(om.id) {
                    assert(nv.entries[k].owners == e.owners.push(om.id));
                    assert(nv.entries[k].owners[e.owners.len() as int] == om.id);
                }
            }
        }
    } else {
        let k = ov.entries.len() as int;
        assert(nv.entries == ov.entries.push(
            crate::service::EntryView {
                hotkey: hv,
                encoding: crate::service::hotkey_flags(hv),
                native_id: ov.next_native_id,
                owners: seq![om.id],
            },
        ));
        assert forall|i: int|
            0 <= i < nm.owned.len() implies has_hotkey(nv, #[trigger] nm.owned[i]) && owners_of(
            nv,
            nm.owned[i],
        ).contains(nm.id) by {
            let w = nm.owned[i];
            if i < om.owned.len() {
                assert(has_hotkey(ov, w) && owners_of(ov, w).contains(om.id));
                let wi = index_of_hotkey(ov, w);
                assert(hotkey_eq(ov.entries[wi].hotkey, w));
                assert(nv.entries[wi].hotkey == ov.entries[wi].hotkey);
                lemma_index_unique(nv, w, wi);
                assert(nv.entries[wi] == ov.entries[wi]);
            } else {
                assert(w == hv);
                assert(nv.entries[k].hotkey == hv);
                lemma_hotkey_eq_refl(hv);
                lemma_index_unique(nv, hv, k);
                assert(nv.entries[k].owners == seq![om.id]);
                assert(nv.entries[k].owners[0] == om.id);
            }
        }
    }
}

/// A failed unbind leaves the service as it was, so the pact persists.
proof fn lemma_unbind_err_owns(m: ManagerView, ov: ServiceView, nv: ServiceView, hv: HotkeyView)
    requires
        owns_ok(m, ov),
        nv == ov,
    ensures
        owns_ok(m, nv),
{
}

/// After a successful unbind, the pact holds with the hotkey struck from
/// the owned list: every other owned hotkey keeps its entry and this
/// manager's membership in it.
proof fn lemma_unregister_ok(
    ov: ServiceView,
    nv: ServiceView,
    om: ManagerView,
    nm: ManagerView,
    hv: HotkeyView,
    pos: int,
)
    requires
        wf(ov),
        wf(nv),
        manager_wf(om),
        owns_ok(om, ov),
        0 <= pos < om.owned.len(),
        hotkey_eq(om.owned[pos], hv),
        nm.owned == om.owned.remove(pos),
        nm.id == om.id,
        nv.next_owner_id == ov.next_owner_id,
        nv == crate::service::unbind_some_spec(ov, hv, om.id) && owners_of(ov, hv).len() > 1 || nv
            == crate::service::unbind_last_spec(ov, hv) && owners_of(ov, hv).len() <= 1,
    ensures
        manager_wf(nm),
        owns_ok(nm, nv),
{
    om.owned.remove_ensures(pos);
    assert forall|i: int, j: int|
        0 <= i < j < nm.owned.len() implies !hotkey_eq(nm.owned[i], nm.owned[j]) by {
        let i0 = if i < pos {
            i
        } else {
            i + 1
        };
        let j0 = if j < pos {
            j
        } else {
            j + 1
        };
        assert(nm.owned[i] == om.owned[i0]);
        assert(nm.owned[j] == om.owned[j0]);
    }
    assert(has_hotkey(ov, om.owned[pos]));
    let kp = index_of_hotkey(ov, om.owned[pos]);
    assert(hotkey_eq(ov.entries[kp].hotkey, om.owned[pos]));
    lemma_hotkey_eq_trans(ov.entries[kp].hotkey, om.owned[pos], hv);
    lemma_index_unique(ov, hv, kp);
    let k = index_of_hotkey(ov, hv);
    assert(k == kp);
    assert forall|i: int|
        0 <= i < nm.owned.len() implies has_hotkey(nv, #[trigger] nm.owned[i]) && owners_of(
        nv,
        nm.owned[i],
    ).contains(nm.id) by {
        let i0 = if i < pos {
            i
        } else {
            i + 1
        };
        let w = nm.owned[i];
        assert(w == om.owned[i0]);
        if hotkey_eq(w, hv) {
            lemma_hotkey_eq_sym(om.owned[pos], hv);
            lemma_hotkey_eq_trans(w, hv, om.owned[pos]);
            if i0 < pos {
                assert(!hotkey_eq(om.owned[i0], om.owned[pos]));
            } else {
                lemma_hotkey_eq_sym(w, om.owned[pos]);
                assert(!hotkey_eq(om.owned[pos], om.owned[i0]));
            }
        }
        assert(!hotkey_eq(w, hv));
        assert(has_hotkey(ov, w) && owners_of(ov, w).contains(om.id));
        let wi = index_of_hotkey(ov, w);
        assert(hotkey_eq(ov.entries[wi].hotkey, w));
        if wi == k {
            lemma_hotkey_eq_sym(ov.entries[wi].hotkey, w);
            lemma_hotkey_eq_trans(w, ov.entries[wi].hotkey, hv);
        }
        assert(wi != k);
        if owners_of(ov, hv).len() > 1 {
            assert(nv.entries == ov.entries.update(
                k,
                crate::service::with_owner_removed(ov.entries[k], om.id),
            ));
            assert(nv.entries[wi] == ov.entries[wi]);
            lemma_index_unique(nv, w, wi);
        } else {
            assert(nv.entries == ov.entries.remove(k));
            ov.entries.remove_ensures(k);
            let wi2 = if wi < k {
                wi
            } else {
                wi - 1
            };
            assert(nv.entries[wi2] == ov.entries[wi]);
            lemma_index_unique(nv, w, wi2);
        }
    }
}

} // verus!
