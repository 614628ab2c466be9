//! The device package cache: one snapshot of each device's packages, kept in
//! memory and replaced whole on every synchronisation, and the diff between
//! a snapshot and a fresh enumeration.
//!
//! Persisting snapshots and guarding the cache with a lock are the caller's
//! part; a `DeviceCache` is a plain value whose methods take `&mut self`.
use vstd::prelude::*;
use crate::device::{AppPackage, DebloaterPackage};
use crate::transport::owned;
use crate::text::string_views;

verus! {

/// A cached package.
pub struct CachedPackage {
    pub name: String,
    pub path: String,
    pub is_system: bool,
    pub is_disabled: bool,
    pub is_uninstalled: bool,
    pub label: Option<String>,
}

/// The snapshot of one device.
pub struct DeviceProfile {
    pub serial: String,
    pub model: Option<String>,
    pub last_sync: String,
    pub packages: Vec<CachedPackage>,
}

/// What changed between a snapshot and a fresh enumeration.
pub struct SyncResult {
    /// Packages present now and absent before.
    pub added: Vec<String>,
    /// Packages present before and absent now.
    pub removed: Vec<String>,
    /// Packages present in both whose disabled or uninstalled flag differs.
    pub changed: Vec<String>,
    /// How many packages the new snapshot holds.
    pub total: usize,
}

/// The snapshots of all devices seen, at most one per serial.
pub struct DeviceCache {
    pub profiles: Vec<DeviceProfile>,
}

/// The names of cached packages.
pub open spec fn cached_names(ps: Seq<CachedPackage>) -> Set<Seq<char>> {
    Set::new(|n: Seq<char>| exists|i: int| 0 <= i < ps.len() && ps[i].name@ == n)
}

/// The names of enumerated packages.
pub open spec fn live_names(live: Seq<DebloaterPackage>) -> Set<Seq<char>> {
    Set::new(|n: Seq<char>| exists|i: int| 0 <= i < live.len() && live[i].name@ == n)
}

/// The flags (disabled, uninstalled) of the last cached package named `n`.
pub open spec fn last_flags(ps: Seq<CachedPackage>, n: Seq<char>) -> (bool, bool)
    decreases ps.len(),
{
    if ps.len() == 0 {
        (false, false)
    } else if ps.last().name@ == n {
        (ps.last().is_disabled, ps.last().is_uninstalled)
    } else {
        last_flags(ps.drop_last(), n)
    }
}

/// The packages present before and now whose disabled or uninstalled flag
/// differs; a package is compared by its flags alone.
pub open spec fn changed_names(old: Seq<CachedPackage>, live: Seq<DebloaterPackage>) -> Set<
    Seq<char>,
> {
    Set::new(
        |n: Seq<char>|
            cached_names(old).contains(n) && exists|i: int|
                0 <= i < live.len() && live[i].name@ == n && (live[i].is_disabled, live[i].is_uninstalled)
                    != last_flags(old, n),
    )
}

/// `r` is the diff of the snapshot `old` against the enumeration `live`.
pub open spec fn is_diff(r: SyncResult, old: Seq<CachedPackage>, live: Seq<DebloaterPackage>) -> bool {
    &&& string_views(r.added@).no_duplicates()
    &&& string_views(r.removed@).no_duplicates()
    &&& string_views(r.changed@).no_duplicates()
    &&& string_views(r.added@).to_set() == live_names(live).difference(cached_names(old))
    &&& string_views(r.removed@).to_set() == cached_names(old).difference(live_names(live))
    &&& string_views(r.changed@).to_set() == changed_names(old, live)
    &&& r.total == live.len()
}

/// `ps` holds, in order, the packages of the enumeration `live`.
pub open spec fn mirrors(ps: Seq<CachedPackage>, live: Seq<DebloaterPackage>) -> bool {
    &&& ps.len() == live.len()
    &&& forall|i: int|
        0 <= i < ps.len() ==> {
            &&& #[trigger] ps[i].name@ == live[i].name@
            &&& ps[i].path@ == Seq::<char>::empty()
            &&& ps[i].is_system == live[i].is_system
            &&& ps[i].is_disabled == live[i].is_disabled
            &&& ps[i].is_uninstalled == live[i].is_uninstalled
            &&& ps[i].label is None
        }
}

/// `ps` holds, in order, the installed packages `live` of a backup listing.
pub open spec fn mirrors_installed(ps: Seq<CachedPackage>, live: Seq<AppPackage>) -> bool {
    &&& ps.len() == live.len()
    &&& forall|i: int|
        0 <= i < ps.len() ==> {
            &&& #[trigger] ps[i].name@ == live[i].name@
            &&& ps[i].path@ == live[i].path@
            &&& ps[i].is_system == live[i].is_system
            &&& !ps[i].is_disabled
            &&& !ps[i].is_uninstalled
            &&& ps[i].label is None
        }
}

/// The snapshots after loading `ps` in order, a later one replacing an
/// earlier one of the same serial.
pub open spec fn loaded(ps: Seq<DeviceProfile>) -> Map<Seq<char>, DeviceProfile>
    decreases ps.len(),
{
    if ps.len() == 0 {
        Map::empty()
    } else {
        loaded(ps.drop_last()).insert(ps.last().serial@, ps.last())
    }
}

impl DeviceCache {
    pub open spec fn wf(&self) -> bool {
        forall|i: int, j: int|
            0 <= i < j < self.profiles.len() ==> #[trigger] self.profiles[i].serial@
                != #[trigger] self.profiles[j].serial@
    }

    /// The snapshots, by serial.
    pub open spec fn view(&self) -> Map<Seq<char>, DeviceProfile> {
        Map::new(
            |s: Seq<char>| exists|i: int| 0 <= i < self.profiles.len() && self.profiles[i].serial@ == s,
            |s: Seq<char>|
                self.profiles[choose|i: int|
                    0 <= i < self.profiles.len() && self.profiles[i].serial@ == s],
        )
    }
}

/// A copy of a cached package.
pub fn copy_package(p: &CachedPackage) -> (r: CachedPackage)
    ensures
        r == *p,
{
    CachedPackage {
        name: p.name.clone(),
        path: p.path.clone(),
        is_system: p.is_system,
        is_disabled: p.is_disabled,
        is_uninstalled: p.is_uninstalled,
        label: match &p.label {
            Some(l) => Some(l.clone()),
            None => None,
        },
    }
}

/// A copy of a list of cached packages.
pub fn copy_packages(ps: &Vec<CachedPackage>) -> (r: Vec<CachedPackage>)
    ensures
        r@ == ps@,
{
    let mut r: Vec<CachedPackage> = Vec::new();
    let mut i: usize = 0;
    while i < ps.len()
        invariant
            i <= ps.len(),
            r@ == ps@.take(i as int),
        decreases ps.len() - i,
    {
        r.push(copy_package(&ps[i]));
        assert(ps@.take(i + 1) =~= ps@.take(i as int).push(ps@[i as int]));
        i = i + 1;
    }
    assert(ps@.take(ps.len() as int) =~= ps@);
    r
}

impl DeviceCache {
    /// The position of the snapshot of `serial`, if there is one.
    fn find(&self, serial: &str) -> (r: Option<usize>)
        requires
            self.wf(),
        ensures
            r is None <==> !self.view().contains_key(serial@),
            r matches Some(i) ==> i < self.profiles.len() && self.profiles[i as int].serial@
                == serial@ && self.view()[serial@] == self.profiles[i as int],
    {
        let key = owned(serial);
        let mut i: usize = 0;
        while i < self.profiles.len()
            invariant
                self.wf(),
                i <= self.profiles.len(),
                key@ == serial@,
                forall|j: int| 0 <= j < i ==> self.profiles[j].serial@ != serial@,
            decreases self.profiles.len() - i,
        {
            if self.profiles[i].serial == key {
                assert(self.profiles[i as int].serial@ == serial@);
                let ghost k = choose|j: int|
                    0 <= j < self.profiles.len() && self.profiles[j].serial@ == serial@;
                proof {
                    if k < i as int {
                        assert(self.profiles[k].serial@ != self.profiles[i as int].serial@);
                    } else if k > i as int {
                        assert(self.profiles[i as int].serial@ != self.profiles[k].serial@);
                    }
                }
                return Some(i);
            }
            i = i + 1;
        }
        None
    }

    /// Stores `p` as the snapshot of its serial, replacing any earlier one.
    pub fn store(&mut self, p: DeviceProfile)
        requires
            old(self).wf(),
        ensures
            final(self).wf(),
            final(self).view() == old(self).view().insert(p.serial@, p),
    {
        let ghost key = p.serial@;
        let ghost pv = p;
        match self.find(p.serial.as_str()) {
            Some(i) => {
                self.profiles.set(i, p);
                assert forall|i1: int, j1: int|
                    0 <= i1 < j1 < self.profiles.len() implies #[trigger] self.profiles[i1].serial@
                    != #[trigger] self.profiles[j1].serial@ by {
                    assert(old(self).profiles[i1].serial@ != old(self).profiles[j1].serial@);
                }
                assert(self.view() =~= old(self).view().insert(key, pv)) by {
                    assert forall|s: Seq<char>| #[trigger]
                        self.view().contains_key(s) implies self.view()[s] == old(
                        self,
                    ).view().insert(key, pv)[s] by {
                        let k = choose|j: int|
                            0 <= j < self.profiles.len() && self.profiles[j].serial@ == s;
                        if s == key {
                            assert(k == i as int);
                        } else {
                            assert(old(self).profiles[k].serial@ == s);
                        }
                    }
                    assert forall|s: Seq<char>|
                        old(self).view().insert(key, pv).contains_key(s) implies #[trigger]
                        self.view().contains_key(s) by {
                        if s == key {
                            assert(self.profiles[i as int].serial@ == s);
                        } else {
                            let k = choose|j: int|
                                0 <= j < old(self).profiles.len() && old(self).profiles[j].serial@
                                    == s;
                            assert(self.profiles[k].serial@ == s);
                        }
                    }
                }
            },
            None => {
                self.profiles.push(p);
                assert forall|i1: int, j1: int|
                    0 <= i1 < j1 < self.profiles.len() implies #[trigger] self.profiles[i1].serial@
                    != #[trigger] self.profiles[j1].serial@ by {
                    if j1 == self.profiles.len() - 1 {
                        assert(!old(self).view().contains_key(key));
                        assert(old(self).profiles[i1].serial@ != key);
                    } else {
                        assert(old(self).profiles[i1].serial@ != old(self).profiles[j1].serial@);
                    }
                }
                assert(self.view() =~= old(self).view().insert(key, pv)) by {
                    let last = self.profiles.len() - 1;
                    assert forall|s: Seq<char>| #[trigger]
                        self.view().contains_key(s) implies self.view()[s] == old(
                        self,
                    ).view().insert(key, pv)[s] by {
                        let k = choose|j: int|
                            0 <= j < self.profiles.len() && self.profiles[j].serial@ == s;
                        if s == key {
                            assert(self.profiles[last].serial@ == s);
                            assert(k == last) by {
                                if k != last {
                                    assert(old(self).profiles[k].serial@ == key);
                                }
                            }
                        } else {
                            assert(k != last);
                            assert(old(self).profiles[k].serial@ == s);
                        }
                    }
                    assert forall|s: Seq<char>|
                        old(self).view().insert(key, pv).contains_key(s) implies #[trigger]
                        self.view().contains_key(s) by {
                        if s == key {
                            assert(self.profiles[last].serial@ == s);
                        } else {
                            let k = choose|j: int|
                                0 <= j < old(self).profiles.len() && old(self).profiles[j].serial@
                                    == s;
                            assert(self.profiles[k].serial@ == s);
                        }
                    }
                }
            },
        }
    }

    /// A cache holding the snapshots `profiles`, loaded in order.
    pub fn new(profiles: Vec<DeviceProfile>) -> (r: DeviceCache)
        ensures
            r.wf(),
            r.view() == loaded(profiles@),
    {
        let mut r = DeviceCache { profiles: Vec::new() };
        let ghost all = profiles@;
        assert(r.view() =~= loaded(all.take(0)));
        for p in it: profiles
            invariant
                r.wf(),
                it.seq() == all,
                r.view() == loaded(all.take(it.index() as int)),
        {
            let ghost k = it.index() as int;
            assert(all.take(k + 1).drop_last() =~= all.take(k));
            r.store(p);
        }
        assert(all.take(all.len() as int) =~= all);
        r
    }

    /// The packages cached for device `device_id`, if any; never touches the
    /// device.
    pub fn get_packages(&self, device_id: &str) -> (r: Option<Vec<CachedPackage>>)
        requires
            self.wf(),
        ensures
            r is Some <==> self.view().contains_key(device_id@),
            r matches Some(v) ==> v@ == self.view()[device_id@].packages@,
    {
        match self.find(device_id) {
            Some(i) => Some(copy_packages(&self.profiles[i].packages)),
            None => None,
        }
    }

    /// Replaces the snapshot of `device_id` with `packages`, stamped with the
    /// time now, and returns the new snapshot.
    pub fn update_profile(
        &mut self,
        device_id: &str,
        packages: Vec<CachedPackage>,
        model: Option<String>,
    ) -> (p: DeviceProfile)
        requires
            old(self).wf(),
        ensures
            final(self).wf(),
            final(self).view() == old(self).view().insert(device_id@, final(self).view()[device_id@]),
            final(self).view()[device_id@].serial@ == device_id@,
            final(self).view()[device_id@].packages@ == packages@,
            final(self).view()[device_id@].model == model,
            p.serial@ == device_id@,
            p.packages@ == packages@,
            p.model == model,
            p.last_sync == final(self).view()[device_id@].last_sync,
    {
        let p = DeviceProfile {
            serial: owned(device_id),
            model: match &model {
                Some(m) => Some(m.clone()),
                None => None,
            },
            last_sync: crate::clock::to_seconds(crate::clock::now_rfc3339().as_str()),
            packages: copy_packages(&packages),
        };
        let q = DeviceProfile {
            serial: p.serial.clone(),
            model,
            last_sync: p.last_sync.clone(),
            packages,
        };
        self.store(q);
        p
    }
}

fn cached_has(ps: &Vec<CachedPackage>, name: &String) -> (b: bool)
    ensures
        b == cached_names(ps@).contains(name@),
{
    let mut i: usize = 0;
    while i < ps.len()
        invariant
            i <= ps.len(),
            forall|j: int| 0 <= j < i ==> ps@[j].name@ != name@,
        decreases ps.len() - i,
    {
        if ps[i].name == *name {
            assert(ps@[i as int].name@ == name@);
            return true;
        }
        i = i + 1;
    }
    false
}

fn live_has(live: &Vec<DebloaterPackage>, name: &String) -> (b: bool)
    ensures
        b == live_names(live@).contains(name@),
{
    let mut i: usize = 0;
    while i < live.len()
        invariant
            i <= live.len(),
            forall|j: int| 0 <= j < i ==> live@[j].name@ != name@,
        decreases live.len() - i,
    {
        if live[i].name == *name {
            assert(live@[i as int].name@ == name@);
            return true;
        }
        i = i + 1;
    }
    false
}

fn list_has(v: &Vec<String>, x: &String) -> (b: bool)
    ensures
        b == string_views(v@).contains(x@),
{
    let mut i: usize = 0;
    while i < v.len()
        invariant
            i <= v.len(),
            forall|j: int| 0 <= j < i ==> v@[j]@ != x@,
        decreases v.len() - i,
    {
        if v[i] == *x {
            assert(string_views(v@)[i as int] == x@);
            return true;
        }
        i = i + 1;
    }
    assert forall|j: int| 0 <= j < string_views(v@).len() implies string_views(v@)[j] != x@ by {
        assert(string_views(v@)[j] == v@[j]@);
    }
    false
}

fn last_flags_exec(ps: &Vec<CachedPackage>, name: &String) -> (r: (bool, bool))
    ensures
        r == last_flags(ps@, name@),
{
    let mut k = ps.len();
    assert(ps@.take(k as int) =~= ps@);
    while k > 0
        invariant
            k <= ps.len(),
            last_flags(ps@.take(k as int), name@) == last_flags(ps@, name@),
        decreases k,
    {
        assert(ps@.take(k as int).last() == ps@[k - 1]);
        if ps[k - 1].name == *name {
            return (ps[k - 1].is_disabled, ps[k - 1].is_uninstalled);
        }
        assert(ps@.take(k as int).drop_last() =~= ps@.take(k - 1));
        k = k - 1;
    }
    (false, false)
}

/// `x` added to `v`, which does not hold it yet.
fn push_new(v: &mut Vec<String>, x: String)
    requires
        string_views(old(v)@).no_duplicates(),
        !string_views(old(v)@).contains(x@),
    ensures
        string_views(final(v)@) == string_views(old(v)@).push(x@),
        string_views(final(v)@).no_duplicates(),
        forall|n: Seq<char>| #[trigger]
            string_views(final(v)@).contains(n) <==> (string_views(old(v)@).contains(n) || n == x@),
{
    let ghost xv = x@;
    v.push(x);
    assert(string_views(v@) =~= string_views(old(v)@).push(xv));
    assert forall|n: Seq<char>| #[trigger]
        string_views(v@).contains(n) <==> (string_views(old(v)@).contains(n) || n == xv) by {
        if string_views(old(v)@).contains(n) {
            let k = choose|k: int| 0 <= k < string_views(old(v)@).len() && string_views(old(v)@)[k] == n;
            assert(string_views(v@)[k] == n);
        }
        if n == xv {
            assert(string_views(v@)[string_views(v@).len() - 1] == n);
        }
    }
}

/// The diff of the snapshot `old` against the enumeration `live`.
pub fn diff(old: &Vec<CachedPackage>, live: &Vec<DebloaterPackage>) -> (r: SyncResult)
    ensures
        is_diff(r, old@, live@),
{
    let mut added: Vec<String> = Vec::new();
    let mut i: usize = 0;
    while i < live.len()
        invariant
            i <= live.len(),
            string_views(added@).no_duplicates(),
            forall|n: Seq<char>| #[trigger]
                string_views(added@).contains(n) <==> ((exists|j: int|
                    0 <= j < i && live@[j].name@ == n) && !cached_names(old@).contains(n)),
        decreases live.len() - i,
    {
        let name = &live[i].name;
        if !cached_has(old, name) && !list_has(&added, name) {
            push_new(&mut added, name.clone());
        }
        assert forall|n: Seq<char>| #[trigger]
            string_views(added@).contains(n) <==> ((exists|j: int|
                0 <= j < i + 1 && live@[j].name@ == n) && !cached_names(old@).contains(n)) by {
            if n == name@ {
                assert(live@[i as int].name@ == n);
            }
        }
        i = i + 1;
    }
    assert(string_views(added@).to_set() =~= live_names(live@).difference(cached_names(old@)));

    let mut removed: Vec<String> = Vec::new();
    let mut i: usize = 0;
    while i < old.len()
        invariant
            i <= old.len(),
            string_views(removed@).no_duplicates(),
            forall|n: Seq<char>| #[trigger]
                string_views(removed@).contains(n) <==> ((exists|j: int|
                    0 <= j < i && old@[j].name@ == n) && !live_names(live@).contains(n)),
        decreases old.len() - i,
    {
        let name = &old[i].name;
        if !live_has(live, name) && !list_has(&removed, name) {
            push_new(&mut removed, name.clone());
        }
        assert forall|n: Seq<char>| #[trigger]
            string_views(removed@).contains(n) <==> ((exists|j: int|
                0 <= j < i + 1 && old@[j].name@ == n) && !live_names(live@).contains(n)) by {
            if n == name@ {
                assert(old@[i as int].name@ == n);
            }
        }
        i = i + 1;
    }
    assert(string_views(removed@).to_set() =~= cached_names(old@).difference(live_names(live@)));

    let mut changed: Vec<String> = Vec::new();
    let mut i: usize = 0;
    while i < live.len()
        invariant
            i <= live.len(),
            string_views(changed@).no_duplicates(),
            forall|n: Seq<char>| #[trigger]
                string_views(changed@).contains(n) <==> (cached_names(old@).contains(n) && exists|
                    j: int,
                |
                    0 <= j < i && live@[j].name@ == n && (live@[j].is_disabled, live@[j].is_uninstalled)
                        != last_flags(old@, n)),
        decreases live.len() - i,
    {
        let p = &live[i];
        if cached_has(old, &p.name) && !list_has(&changed, &p.name) {
            let (was_disabled, was_uninstalled) = last_flags_exec(old, &p.name);
            if was_disabled != p.is_disabled || was_uninstalled != p.is_uninstalled {
                push_new(&mut changed, p.name.clone());
            }
        }
        assert forall|n: Seq<char>| #[trigger]
            string_views(changed@).contains(n) <==> (cached_names(old@).contains(n) && exists|
                j: int,
            |
                0 <= j < i + 1 && live@[j].name@ == n && (live@[j].is_disabled, live@[j].is_uninstalled)
                    != last_flags(old@, n)) by {
            if n == p.name@ {
                assert(live@[i as int].name@ == n);
            }
        }
        i = i + 1;
    }
    assert(string_views(changed@).to_set() =~= changed_names(old@, live@));
    SyncResult { added, removed, changed, total: live.len() }
}

/// The snapshot entries for an enumeration.
fn cached_from_live(live: &Vec<DebloaterPackage>) -> (r: Vec<CachedPackage>)
    ensures
        mirrors(r@, live@),
{
    let mut r: Vec<CachedPackage> = Vec::new();
    let mut i: usize = 0;
    while i < live.len()
        invariant
            i <= live.len(),
            r@.len() == i,
            forall|j: int|
                0 <= j < i ==> {
                    &&& #[trigger] r@[j].name@ == live@[j].name@
                    &&& r@[j].path@ == Seq::<char>::empty()
                    &&& r@[j].is_system == live@[j].is_system
                    &&& r@[j].is_disabled == live@[j].is_disabled
                    &&& r@[j].is_uninstalled == live@[j].is_uninstalled
                    &&& r@[j].label is None
                },
        decreases live.len() - i,
    {
        let p = &live[i];
        r.push(
            CachedPackage {
                name: p.name.clone(),
                path: String::new(),
                is_system: p.is_system,
                is_disabled: p.is_disabled,
                is_uninstalled: p.is_uninstalled,
                label: None,
            },
        );
        i = i + 1;
    }
    r
}

/// The snapshot entries for a backup listing.
fn cached_from_installed(live: &Vec<AppPackage>) -> (r: Vec<CachedPackage>)
    ensures
        mirrors_installed(r@, live@),
{
    let mut r: Vec<CachedPackage> = Vec::new();
    let mut i: usize = 0;
    while i < live.len()
        invariant
            i <= live.len(),
            r@.len() == i,
            forall|j: int|
                0 <= j < i ==> {
                    &&& #[trigger] r@[j].name@ == live@[j].name@
                    &&& r@[j].path@ == live@[j].path@
                    &&& r@[j].is_system == live@[j].is_system
                    &&& !r@[j].is_disabled
                    &&& !r@[j].is_uninstalled
                    &&& r@[j].label is None
                },
        decreases live.len() - i,
    {
        let p = &live[i];
        r.push(
            CachedPackage {
                name: p.name.clone(),
                path: p.path.clone(),
                is_system: p.is_system,
                is_disabled: false,
                is_uninstalled: false,
                label: None,
            },
        );
        i = i + 1;
    }
    r
}

impl DeviceCache {
    /// The packages of the snapshot of `serial`, none if there is none.
    pub open spec fn packages_of(&self, serial: Seq<char>) -> Seq<CachedPackage> {
        if self.view().contains_key(serial) {
            self.view()[serial].packages@
        } else {
            seq![]
        }
    }

    /// Synchronises the snapshot of `device_id` with a fresh enumeration of
    /// its packages and reports the diff. A failed enumeration is returned
    /// as it is and leaves the cache unchanged.
    pub fn sync_with_device(
        &mut self,
        device_id: &str,
        live: Result<Vec<DebloaterPackage>, String>,
    ) -> (r: Result<SyncResult, String>)
        requires
            old(self).wf(),
        ensures
            final(self).wf(),
            live is Err ==> r is Err && r->Err_0 == live->Err_0 && final(self).view() == old(
                self,
            ).view(),
            live is Ok ==> {
                &&& r is Ok
                &&& is_diff(r->Ok_0, old(self).packages_of(device_id@), live->Ok_0@)
                &&& final(self).view() == old(self).view().insert(
                    device_id@,
                    final(self).view()[device_id@],
                )
                &&& mirrors(final(self).view()[device_id@].packages@, live->Ok_0@)
                &&& final(self).view()[device_id@].model is None
            },
    {
        match live {
            Err(e) => Err(e),
            Ok(live) => {
                let result = match self.find(device_id) {
                    Some(i) => diff(&self.profiles[i].packages, &live),
                    None => {
                        let none: Vec<CachedPackage> = Vec::new();
                        assert(none@ =~= self.packages_of(device_id@));
                        diff(&none, &live)
                    },
                };
                let packages = cached_from_live(&live);
                self.update_profile(device_id, packages, None);
                Ok(result)
            },
        }
    }

    /// Synchronises the snapshot of `device_id` with the installed packages
    /// `live` that a backup lists, without a diff, and returns the new
    /// entries. A failed listing is returned as it is and leaves the cache
    /// unchanged.
    pub fn sync_backup_packages(
        &mut self,
        device_id: &str,
        live: Result<Vec<AppPackage>, String>,
    ) -> (r: Result<Vec<CachedPackage>, String>)
        requires
            old(self).wf(),
        ensures
            final(self).wf(),
            live is Err ==> r is Err && r->Err_0 == live->Err_0 && final(self).view() == old(
                self,
            ).view(),
            live is Ok ==> {
                &&& r is Ok
                &&& mirrors_installed(r->Ok_0@, live->Ok_0@)
                &&& final(self).view() == old(self).view().insert(
                    device_id@,
                    final(self).view()[device_id@],
                )
                &&& final(self).view()[device_id@].packages@ == r->Ok_0@
                &&& final(self).view()[device_id@].model is None
            },
    {
        match live {
            Err(e) => Err(e),
            Ok(live) => {
                let packages = cached_from_installed(&live);
                let copy = copy_packages(&packages);
                self.update_profile(device_id, packages, None);
                Ok(copy)
            },
        }
    }
}

proof fn lemma_last_flags_of_unique(ps: Seq<CachedPackage>, k: int)
    requires
        0 <= k < ps.len(),
        forall|j: int| 0 <= j < ps.len() && j != k ==> ps[j].name@ != ps[k].name@,
    ensures
        last_flags(ps, ps[k].name@) == (ps[k].is_disabled, ps[k].is_uninstalled),
    decreases ps.len(),
{
    if k < ps.len() - 1 {
        assert(ps.last().name@ != ps[k].name@);
        let q = ps.drop_last();
        assert(q[k] == ps[k]);
        assert forall|j: int| 0 <= j < q.len() && j != k implies q[j].name@ != q[k].name@ by {
            assert(q[j] == ps[j]);
        }
        lemma_last_flags_of_unique(q, k);
    }
}

/// Synchronising twice with no change on the device in between reports,
/// the second time, nothing added, removed or changed, and the same total:
/// the first sync leaves a snapshot that `mirrors` the enumeration, and the
/// diff of such a snapshot against that enumeration is empty. This holds
/// for enumerations that name each package once.
pub proof fn lemma_resync_reports_nothing(
    r: SyncResult,
    cached: Seq<CachedPackage>,
    live: Seq<DebloaterPackage>,
)
    requires
        mirrors(cached, live),
        is_diff(r, cached, live),
        forall|i: int, j: int|
            0 <= i < j < live.len() ==> #[trigger] live[i].name@ != #[trigger] live[j].name@,
    ensures
        r.added@.len() == 0,
        r.removed@.len() == 0,
        r.changed@.len() == 0,
        r.total == cached.len(),
{
    assert(live_names(live) =~= cached_names(cached)) by {
        assert forall|n: Seq<char>| live_names(live).contains(n) implies cached_names(
            cached,
        ).contains(n) by {
            let i = choose|i: int| 0 <= i < live.len() && live[i].name@ == n;
            assert(cached[i].name@ == n);
        }
        assert forall|n: Seq<char>| cached_names(cached).contains(n) implies live_names(
            live,
        ).contains(n) by {
            let i = choose|i: int| 0 <= i < cached.len() && cached[i].name@ == n;
            assert(cached[i].name@ == live[i].name@);
        }
    }
    assert(changed_names(cached, live) =~= Set::empty()) by {
        assert forall|n: Seq<char>| !changed_names(cached, live).contains(n) by {
            if changed_names(cached, live).contains(n) {
                let i = choose|i: int|
                    0 <= i < live.len() && live[i].name@ == n && (
                        live[i].is_disabled,
                        live[i].is_uninstalled,
                    ) != last_flags(cached, n);
                assert(cached[i].name@ == live[i].name@);
                assert forall|j: int| 0 <= j < cached.len() && j != i implies cached[j].name@
                    != cached[i].name@ by {
                    assert(cached[j].name@ == live[j].name@);
                    if j < i {
                        assert(live[j].name@ != live[i].name@);
                    } else {
                        assert(live[i].name@ != live[j].name@);
                    }
                }
                lemma_last_flags_of_unique(cached, i);
            }
        }
    }
    let a = string_views(r.added@);
    let d = string_views(r.removed@);
    let c = string_views(r.changed@);
    assert(a.to_set() =~= Set::empty());
    assert(d.to_set() =~= Set::empty());
    assert(c.to_set() =~= Set::empty());
    if a.len() > 0 {
        assert(a.to_set().contains(a[0]));
    }
    if d.len() > 0 {
        assert(d.to_set().contains(d[0]));
    }
    if c.len() > 0 {
        assert(c.to_set().contains(c[0]));
    }
}

} // verus!
