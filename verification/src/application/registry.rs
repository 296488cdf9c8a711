//! Session state of the app: the open projects (with the device they live
//! on), the devices being ejected, and the per-photo generation counter
//! that debounces orientation writes. The database handle type is a
//! parameter; the app keeps the registry behind a lock.
use vstd::prelude::*;
use crate::domain::photo::chars_eq;
use crate::text::chars_of;
use crate::search::{index_of, lemma_index_first, lemma_index_of};

verus! {

/// Session state: open projects, devices being ejected, rotation write
/// generations.
pub struct ProjectRegistry<D> {
    /// (project id, device uuid, database handle), ids distinct.
    open_projects: Vec<(String, String, D)>,
    /// UUIDs of devices being ejected, distinct.
    ejecting_devices: Vec<String>,
    /// (photo id, generation), ids distinct.
    rotation_write_gen: Vec<(String, u64)>,
}

/// The first `n` ids whose device is `d`, in order.
pub open spec fn ids_with_device(
    ids: Seq<Seq<char>>,
    devs: Seq<Seq<char>>,
    d: Seq<char>,
    n: int,
) -> Seq<Seq<char>>
    decreases n,
{
    if n <= 0 {
        Seq::empty()
    } else if devs[n - 1] == d {
        ids_with_device(ids, devs, d, n - 1).push(ids[n - 1])
    } else {
        ids_with_device(ids, devs, d, n - 1)
    }
}

/// An id is among the first `n` ids on device `d` exactly when some entry
/// below `n` has that id and that device.
pub proof fn lemma_ids_with_device(
    ids: Seq<Seq<char>>,
    devs: Seq<Seq<char>>,
    d: Seq<char>,
    n: int,
    x: Seq<char>,
)
    requires
        0 <= n <= ids.len(),
        devs.len() == ids.len(),
    ensures
        ids_with_device(ids, devs, d, n).contains(x) <==> exists|k: int|
            0 <= k < n && ids[k] == x && devs[k] == d,
    decreases n,
{
    if n > 0 {
        lemma_ids_with_device(ids, devs, d, n - 1, x);
        let prev = ids_with_device(ids, devs, d, n - 1);
        if devs[n - 1] == d {
            let cur = prev.push(ids[n - 1]);
            if cur.contains(x) {
                let j = choose|j: int| 0 <= j < cur.len() && cur[j] == x;
                if j < prev.len() {
                    assert(prev[j] == x);
                    assert(prev.contains(x));
                } else {
                    assert(ids[n - 1] == x);
                }
            }
            if exists|k: int| 0 <= k < n && ids[k] == x && devs[k] == d {
                let k = choose|k: int| 0 <= k < n && ids[k] == x && devs[k] == d;
                if k == n - 1 {
                    assert(cur[prev.len() as int] == x);
                } else {
                    assert(prev.contains(x));
                    let j = choose|j: int| 0 <= j < prev.len() && prev[j] == x;
                    assert(cur[j] == x);
                }
            }
        } else {
            if exists|k: int| 0 <= k < n && ids[k] == x && devs[k] == d {
                let k = choose|k: int| 0 <= k < n && ids[k] == x && devs[k] == d;
                assert(k != n - 1);
            }
        }
    }
}

/// Whether a project on device `d` stays open: the device is mounted and
/// not being ejected.
pub open spec fn stays_open(mounted: Seq<Seq<char>>, ejecting: Seq<Seq<char>>, d: Seq<char>) -> bool {
    mounted.contains(d) && !ejecting.contains(d)
}

/// Positions below `n` whose device stays open, in increasing order.
pub open spec fn kept_positions(
    devs: Seq<Seq<char>>,
    mounted: Seq<Seq<char>>,
    ejecting: Seq<Seq<char>>,
    n: int,
) -> Seq<int>
    decreases n,
{
    if n <= 0 {
        Seq::empty()
    } else if stays_open(mounted, ejecting, devs[n - 1]) {
        kept_positions(devs, mounted, ejecting, n - 1).push(n - 1)
    } else {
        kept_positions(devs, mounted, ejecting, n - 1)
    }
}

/// The kept positions lie below `n` and increase strictly.
pub proof fn lemma_kept_positions(
    devs: Seq<Seq<char>>,
    mounted: Seq<Seq<char>>,
    ejecting: Seq<Seq<char>>,
    n: int,
)
    ensures
        forall|j: int|
            0 <= j < kept_positions(devs, mounted, ejecting, n).len() ==> 0
                <= #[trigger] kept_positions(devs, mounted, ejecting, n)[j] < n,
        forall|a: int, b: int|
            0 <= a < b < kept_positions(devs, mounted, ejecting, n).len() ==> kept_positions(
                devs,
                mounted,
                ejecting,
                n,
            )[a] < kept_positions(devs, mounted, ejecting, n)[b],
    decreases n,
{
    if n > 0 {
        lemma_kept_positions(devs, mounted, ejecting, n - 1);
        let prev = kept_positions(devs, mounted, ejecting, n - 1);
        let cur = kept_positions(devs, mounted, ejecting, n);
        if stays_open(mounted, ejecting, devs[n - 1]) {
            assert(cur == prev.push(n - 1));
            assert forall|j: int| 0 <= j < cur.len() implies 0 <= #[trigger] cur[j] < n by {
                if j < prev.len() {
                    assert(cur[j] == prev[j]);
                }
            }
            assert forall|a: int, b: int| 0 <= a < b < cur.len() implies cur[a] < cur[b] by {
                assert(cur[a] == prev[a]);
                if b < prev.len() {
                    assert(cur[b] == prev[b]);
                }
            }
        }
    }
}

/// Position of `x` in the strings of `v` (`v.len()` when absent).
fn find_index(v: &Vec<String>, x: &str) -> (i: usize)
    ensures
        i == index_of(v@.map_values(|s: String| s@), x@),
{
    proof {
        lemma_index_of(v@.map_values(|s: String| s@), x@);
    }
    let xv = chars_of(x);
    let mut i: usize = 0;
    while i < v.len()
        invariant
            i <= v.len(),
            xv@ == x@,
            forall|k: int| 0 <= k < i ==> v@[k]@ != x@,
        decreases v.len() - i,
    {
        let w = chars_of(v[i].as_str());
        if chars_eq(&w, &xv) {
            proof {
                lemma_index_first(v@.map_values(|s: String| s@), x@, i as int);
            }
            return i;
        }
        i = i + 1;
    }
    proof {
        lemma_index_first(v@.map_values(|s: String| s@), x@, v.len() as int);
    }
    i
}

impl<D> ProjectRegistry<D> {
    /// Ids of the open projects, in order.
    pub closed spec fn ids(&self) -> Seq<Seq<char>> {
        self.open_projects@.map_values(|e: (String, String, D)| e.0@)
    }

    /// Device of each open project, aligned with `ids`.
    pub closed spec fn devices(&self) -> Seq<Seq<char>> {
        self.open_projects@.map_values(|e: (String, String, D)| e.1@)
    }

    /// Database handle of each open project, aligned with `ids`.
    pub closed spec fn dbs(&self) -> Seq<D> {
        self.open_projects@.map_values(|e: (String, String, D)| e.2)
    }

    /// Devices being ejected.
    pub closed spec fn ejecting(&self) -> Seq<Seq<char>> {
        self.ejecting_devices@.map_values(|s: String| s@)
    }

    /// Photo ids with a rotation generation.
    pub closed spec fn gen_ids(&self) -> Seq<Seq<char>> {
        self.rotation_write_gen@.map_values(|e: (String, u64)| e.0@)
    }

    /// Generations, aligned with `gen_ids`.
    pub closed spec fn gens(&self) -> Seq<u64> {
        self.rotation_write_gen@.map_values(|e: (String, u64)| e.1)
    }

    /// Whether the project `id` is open.
    pub open spec fn has(&self, id: Seq<char>) -> bool {
        self.ids().contains(id)
    }

    /// Device of the open project `id`.
    pub open spec fn device_of(&self, id: Seq<char>) -> Seq<char> {
        self.devices()[index_of(self.ids(), id)]
    }

    /// Database of the open project `id`.
    pub open spec fn db_of(&self, id: Seq<char>) -> D {
        self.dbs()[index_of(self.ids(), id)]
    }

    /// Whether device `d` is being ejected.
    pub open spec fn is_ejecting(&self, d: Seq<char>) -> bool {
        self.ejecting().contains(d)
    }

    /// Current rotation generation of photo `id`, if any.
    pub open spec fn gen_of(&self, id: Seq<char>) -> Option<u64> {
        if self.gen_ids().contains(id) {
            Some(self.gens()[index_of(self.gen_ids(), id)])
        } else {
            None
        }
    }

    /// The registry's lists are aligned and hold each key once.
    pub closed spec fn wf(&self) -> bool {
        &&& self.ids().no_duplicates()
        &&& self.ejecting().no_duplicates()
        &&& self.gen_ids().no_duplicates()
    }

    /// Number of open projects.
    pub open spec fn count(&self) -> nat {
        self.ids().len()
    }

    /// The aligned lists have the same length.
    pub proof fn lemma_aligned(&self)
        ensures
            self.devices().len() == self.ids().len(),
            self.dbs().len() == self.ids().len(),
            self.gens().len() == self.gen_ids().len(),
    {
    }

    /// An empty registry.
    pub fn new() -> (r: Self)
        ensures
            r.wf(),
            r.ids().len() == 0,
            r.ejecting().len() == 0,
            r.gen_ids().len() == 0,
    {
        let r = ProjectRegistry {
            open_projects: Vec::new(),
            ejecting_devices: Vec::new(),
            rotation_write_gen: Vec::new(),
        };
        assert(r.ids() =~= Seq::<Seq<char>>::empty());
        assert(r.ejecting() =~= Seq::<Seq<char>>::empty());
        assert(r.gen_ids() =~= Seq::<Seq<char>>::empty());
        r
    }

    /// Position of project `id` (`count` when it is not open).
    fn project_index(&self, id: &str) -> (i: usize)
        ensures
            i == index_of(self.ids(), id@),
    {
        proof {
            lemma_index_of(self.ids(), id@);
        }
        let xv = chars_of(id);
        let mut i: usize = 0;
        while i < self.open_projects.len()
            invariant
                i <= self.open_projects.len(),
                xv@ == id@,
                forall|k: int| 0 <= k < i ==> self.ids()[k] != id@,
            decreases self.open_projects.len() - i,
        {
            let w = chars_of(self.open_projects[i].0.as_str());
            if chars_eq(&w, &xv) {
                proof {
                    lemma_index_first(self.ids(), id@, i as int);
                }
                return i;
            }
            i = i + 1;
        }
        proof {
            lemma_index_first(self.ids(), id@, i as int);
        }
        i
    }

    /// Position of photo `id` among the generations (their count when absent).
    fn gen_index(&self, id: &str) -> (i: usize)
        ensures
            i == index_of(self.gen_ids(), id@),
    {
        proof {
            lemma_index_of(self.gen_ids(), id@);
        }
        let xv = chars_of(id);
        let mut i: usize = 0;
        while i < self.rotation_write_gen.len()
            invariant
                i <= self.rotation_write_gen.len(),
                xv@ == id@,
                forall|k: int| 0 <= k < i ==> self.gen_ids()[k] != id@,
            decreases self.rotation_write_gen.len() - i,
        {
            let w = chars_of(self.rotation_write_gen[i].0.as_str());
            if chars_eq(&w, &xv) {
                proof {
                    lemma_index_first(self.gen_ids(), id@, i as int);
                }
                return i;
            }
            i = i + 1;
        }
        proof {
            lemma_index_first(self.gen_ids(), id@, i as int);
        }
        i
    }

    /// The database of the project, if its device is mounted (it is open).
    pub fn get(&self, project_id: &str) -> (r: Option<&D>)
        ensures
            self.has(project_id@) <==> r is Some,
            r matches Some(d) ==> *d == self.db_of(project_id@),
    {
        let i = self.project_index(project_id);
        proof {
            lemma_index_of(self.ids(), project_id@);
        }
        if i < self.open_projects.len() {
            Some(&self.open_projects[i].2)
        } else {
            None
        }
    }

    /// Whether the project is open.
    pub fn contains(&self, project_id: &str) -> (r: bool)
        ensures
            r == self.has(project_id@),
    {
        let i = self.project_index(project_id);
        proof {
            lemma_index_of(self.ids(), project_id@);
        }
        i < self.open_projects.len()
    }

    /// Number of open projects.
    pub fn open_count(&self) -> (n: usize)
        ensures
            n == self.count(),
    {
        self.open_projects.len()
    }

    /// Opens (or replaces) project `project_id`, living on `device_uuid`.
    pub fn insert(&mut self, project_id: String, device_uuid: String, db: D)
        requires
            old(self).wf(),
        ensures
            final(self).wf(),
            forall|x: Seq<char>| #[trigger] final(self).has(x) == (old(self).has(x) || x == project_id@),
            final(self).device_of(project_id@) == device_uuid@,
            final(self).db_of(project_id@) == db,
            forall|x: Seq<char>|
                old(self).has(x) && x != project_id@ ==> #[trigger] final(self).device_of(x)
                    == old(self).device_of(x) && final(self).db_of(x) == old(self).db_of(x),
            final(self).ejecting() == old(self).ejecting(),
            final(self).gen_ids() == old(self).gen_ids(),
            final(self).gens() == old(self).gens(),
    {
        let i = self.project_index(project_id.as_str());
        let ghost old_ids = self.ids();
        proof {
            lemma_index_of(old_ids, project_id@);
        }
        if i < self.open_projects.len() {
            let ghost pid = project_id@;
            self.open_projects.set(i, (project_id, device_uuid, db));
            assert(self.ids() =~= old_ids.update(i as int, pid));
            assert(self.ids() =~= old_ids);
            proof {
                assert forall|x: Seq<char>| old(self).has(x) && x != pid implies #[trigger] self.device_of(x)
                    == old(self).device_of(x) && self.db_of(x) == old(self).db_of(x) by {
                    lemma_index_of(old_ids, x);
                }
            }
        } else {
            let ghost pid = project_id@;
            self.open_projects.push((project_id, device_uuid, db));
            assert(self.ids() =~= old_ids.push(pid));
            proof {
                lemma_index_of(self.ids(), pid);
                lemma_index_first(self.ids(), pid, old_ids.len() as int);
                assert forall|x: Seq<char>| #[trigger] self.has(x) == (old(self).has(x) || x == pid) by {
                    if self.has(x) && x != pid {
                        let j = choose|j: int| 0 <= j < self.ids().len() && self.ids()[j] == x;
                        assert(old_ids[j] == x);
                    }
                    if old(self).has(x) {
                        let j = choose|j: int| 0 <= j < old_ids.len() && old_ids[j] == x;
                        assert(self.ids()[j] == x);
                    }
                }
                assert forall|x: Seq<char>| old(self).has(x) && x != pid implies #[trigger] self.device_of(x)
                    == old(self).device_of(x) && self.db_of(x) == old(self).db_of(x) by {
                    lemma_index_of(old_ids, x);
                    let j = index_of(old_ids, x);
                    lemma_index_first(self.ids(), x, j);
                }
                assert(self.ids().no_duplicates()) by {
                    assert forall|a: int, b: int| 0 <= a < b < self.ids().len() implies self.ids()[a] != self.ids()[b] by {
                        if b == old_ids.len() {
                            assert(old_ids.contains(old_ids[a]));
                        }
                    }
                }
            }
        }
    }

    /// Closes project `project_id`; its database handle, if it was open.
    pub fn remove(&mut self, project_id: &str) -> (r: Option<D>)
        requires
            old(self).wf(),
        ensures
            final(self).wf(),
            r is Some <==> old(self).has(project_id@),
            r matches Some(d) ==> d == old(self).db_of(project_id@),
            forall|x: Seq<char>| #[trigger] final(self).has(x) == (old(self).has(x) && x != project_id@),
            forall|x: Seq<char>|
                final(self).has(x) ==> #[trigger] final(self).device_of(x) == old(self).device_of(x)
                    && final(self).db_of(x) == old(self).db_of(x),
            final(self).ejecting() == old(self).ejecting(),
            final(self).gen_ids() == old(self).gen_ids(),
            final(self).gens() == old(self).gens(),
    {
        let i = self.project_index(project_id);
        let ghost old_ids = self.ids();
        proof {
            lemma_index_of(old_ids, project_id@);
        }
        if i < self.open_projects.len() {
            let e = self.open_projects.remove(i);
            proof {
                assert(self.ids() =~= old_ids.remove(i as int));
                assert forall|x: Seq<char>| #[trigger] self.has(x) == (old(self).has(x) && x != project_id@) by {
                    if self.has(x) {
                        let j = choose|j: int| 0 <= j < self.ids().len() && self.ids()[j] == x;
                        if j < i {
                            assert(old_ids[j] == x);
                        } else {
                            assert(old_ids[j + 1] == x);
                            assert(old_ids[i as int] == project_id@);
                        }
                    }
                    if old(self).has(x) && x != project_id@ {
                        let j = choose|j: int| 0 <= j < old_ids.len() && old_ids[j] == x;
                        if j < i {
                            assert(self.ids()[j] == x);
                        } else {
                            assert(j != i);
                            assert(self.ids()[j - 1] == x);
                        }
                    }
                }
                assert forall|x: Seq<char>| self.has(x) implies #[trigger] self.device_of(x) == old(self).device_of(x)
                    && self.db_of(x) == old(self).db_of(x) by {
                    lemma_index_of(old_ids, x);
                    lemma_index_of(self.ids(), x);
                    let j = index_of(old_ids, x);
                    if j < i {
                        lemma_index_first(self.ids(), x, j);
                    } else {
                        assert(j != i);
                        assert forall|k: int| 0 <= k < j - 1 implies self.ids()[k] != x by {
                            if k >= i {
                                assert(self.ids()[k] == old_ids[k + 1]);
                            } else {
                                assert(self.ids()[k] == old_ids[k]);
                            }
                        }
                        lemma_index_first(self.ids(), x, j - 1);
                    }
                }
                assert(self.ids().no_duplicates()) by {
                    assert forall|a: int, b: int| 0 <= a < b < self.ids().len() implies self.ids()[a] != self.ids()[b] by {
                        let oa = if a < i { a } else { a + 1 };
                        let ob = if b < i { b } else { b + 1 };
                        assert(self.ids()[a] == old_ids[oa]);
                        assert(self.ids()[b] == old_ids[ob]);
                    }
                }
            }
            Some(e.2)
        } else {
            None
        }
    }

    /// Ids of the open projects living on device `device_uuid`, in order.
    pub fn ids_on_device(&self, device_uuid: &str) -> (r: Vec<String>)
        ensures
            r@.map_values(|s: String| s@) == ids_with_device(
                self.ids(),
                self.devices(),
                device_uuid@,
                self.count() as int,
            ),
    {
        let dv = chars_of(device_uuid);
        let mut r: Vec<String> = Vec::new();
        let mut i: usize = 0;
        while i < self.open_projects.len()
            invariant
                i <= self.open_projects.len(),
                dv@ == device_uuid@,
                r@.map_values(|s: String| s@) == ids_with_device(
                    self.ids(),
                    self.devices(),
                    device_uuid@,
                    i as int,
                ),
            decreases self.open_projects.len() - i,
        {
            let ghost prev = r@.map_values(|s: String| s@);
            let w = chars_of(self.open_projects[i].1.as_str());
            if chars_eq(&w, &dv) {
                r.push(self.open_projects[i].0.clone());
                assert(r@.map_values(|s: String| s@) =~= prev.push(self.ids()[i as int]));
            }
            i = i + 1;
        }
        r
    }

    /// Closes the projects whose device is not mounted or is being ejected;
    /// the others stay, in order.
    pub fn retain_mounted(&mut self, mounted_uuids: &Vec<String>, ejecting: &Vec<String>)
        requires
            old(self).wf(),
        ensures
            final(self).wf(),
            ({
                let kept = kept_positions(
                    old(self).devices(),
                    mounted_uuids@.map_values(|s: String| s@),
                    ejecting@.map_values(|s: String| s@),
                    old(self).count() as int,
                );
                &&& final(self).count() == kept.len()
                &&& forall|j: int|
                    0 <= j < kept.len() ==> #[trigger] final(self).ids()[j] == old(self).ids()[kept[j]]
                        && final(self).devices()[j] == old(self).devices()[kept[j]]
                        && final(self).dbs()[j] == old(self).dbs()[kept[j]]
            }),
            final(self).ejecting() == old(self).ejecting(),
            final(self).gen_ids() == old(self).gen_ids(),
            final(self).gens() == old(self).gens(),
    {
        let ghost m = mounted_uuids@.map_values(|s: String| s@);
        let ghost e = ejecting@.map_values(|s: String| s@);
        let ghost ids0 = self.ids();
        let ghost devs0 = self.devices();
        let ghost dbs0 = self.dbs();
        let ghost n0 = self.open_projects.len() as int;
        let mut rest: Vec<(String, String, D)> = Vec::new();
        std::mem::swap(&mut rest, &mut self.open_projects);
        let ghost all = rest@;
        let mut kept: Vec<(String, String, D)> = Vec::new();
        let mut i: usize = 0;
        proof {
            lemma_kept_positions(devs0, m, e, 0);
        }
        while rest.len() > 0
            invariant
                i <= n0,
                n0 <= usize::MAX,
                n0 == all.len(),
                rest@ == all.skip(i as int),
                ids0 == all.map_values(|x: (String, String, D)| x.0@),
                devs0 == all.map_values(|x: (String, String, D)| x.1@),
                dbs0 == all.map_values(|x: (String, String, D)| x.2),
                m == mounted_uuids@.map_values(|s: String| s@),
                e == ejecting@.map_values(|s: String| s@),
                kept@.len() == kept_positions(devs0, m, e, i as int).len(),
                forall|j: int|
                    0 <= j < kept@.len() ==> #[trigger] kept@[j] == all[kept_positions(
                        devs0,
                        m,
                        e,
                        i as int,
                    )[j]],
            decreases rest.len(),
        {
            let x = rest.remove(0);
            proof {
                assert(x == all[i as int]);
                assert(rest@ =~= all.skip(i + 1));
            }
            let a = find_index(mounted_uuids, x.1.as_str());
            let b = find_index(ejecting, x.1.as_str());
            proof {
                lemma_index_of(m, x.1@);
                lemma_index_of(e, x.1@);
            }
            if a < mounted_uuids.len() && b == ejecting.len() {
                kept.push(x);
            }
            i = i + 1;
        }
        proof {
            assert(rest@.len() == 0);
            assert(i == n0);
        }
        self.open_projects = kept;
        proof {
            let kp = kept_positions(devs0, m, e, n0);
            lemma_kept_positions(devs0, m, e, n0);
            assert forall|j: int| 0 <= j < kp.len() implies #[trigger] self.ids()[j] == ids0[kp[j]]
                && self.devices()[j] == devs0[kp[j]] && self.dbs()[j] == dbs0[kp[j]] by {
                assert(self.open_projects@[j] == all[kp[j]]);
            }
            assert(self.ids().no_duplicates()) by {
                assert forall|a: int, b: int| 0 <= a < b < self.ids().len() implies self.ids()[a]
                    != self.ids()[b] by {
                    assert(self.ids()[a] == ids0[kp[a]]);
                    assert(self.ids()[b] == ids0[kp[b]]);
                }
            }
        }
    }

    /// The database handles of all open projects, in order (each a clone).
    pub fn all_open(&self) -> (r: Vec<D>) where D: Clone
        ensures
            r@.len() == self.count(),
            forall|j: int| 0 <= j < r@.len() ==> cloned::<D>(self.dbs()[j], #[trigger] r@[j]),
    {
        let mut r: Vec<D> = Vec::new();
        let mut i: usize = 0;
        while i < self.open_projects.len()
            invariant
                i <= self.open_projects.len(),
                r@.len() == i,
                forall|j: int| 0 <= j < i ==> cloned::<D>(self.dbs()[j], #[trigger] r@[j]),
            decreases self.open_projects.len() - i,
        {
            let d = self.open_projects[i].2.clone();
            r.push(d);
            i = i + 1;
        }
        r
    }

    /// Closes every open project on device `device_uuid` (so that nothing
    /// holds its files); the ids closed, in order.
    pub fn close_projects_on_device(&mut self, device_uuid: &str) -> (closed: Vec<String>)
        requires
            old(self).wf(),
        ensures
            final(self).wf(),
            closed@.map_values(|s: String| s@) == ids_with_device(
                old(self).ids(),
                old(self).devices(),
                device_uuid@,
                old(self).count() as int,
            ),
            forall|x: Seq<char>|
                #[trigger] final(self).has(x) == (old(self).has(x) && old(self).device_of(x)
                    != device_uuid@),
            forall|x: Seq<char>|
                final(self).has(x) ==> #[trigger] final(self).device_of(x) == old(self).device_of(x),
            forall|x: Seq<char>|
                final(self).has(x) ==> #[trigger] final(self).db_of(x) == old(self).db_of(x),
            final(self).ejecting() == old(self).ejecting(),
            final(self).gen_ids() == old(self).gen_ids(),
            final(self).gens() == old(self).gens(),
    {
        let ids = self.ids_on_device(device_uuid);
        let ghost cl = ids@.map_values(|s: String| s@);
        let ghost ids0 = self.ids();
        let ghost devs0 = self.devices();
        proof {
            assert forall|x: Seq<char>| #[trigger] cl.contains(x) == (old(self).has(x) && old(
                self,
            ).device_of(x) == device_uuid@) by {
                lemma_ids_with_device(ids0, devs0, device_uuid@, ids0.len() as int, x);
                lemma_index_of(ids0, x);
                if exists|k: int| 0 <= k < ids0.len() && ids0[k] == x && devs0[k] == device_uuid@ {
                    let k = choose|k: int|
                        0 <= k < ids0.len() && ids0[k] == x && devs0[k] == device_uuid@;
                    assert(ids0.contains(x));
                    let j = index_of(ids0, x);
                    assert(ids0[j] == x);
                    assert(j == k);
                }
                if old(self).has(x) && old(self).device_of(x) == device_uuid@ {
                    let j = index_of(ids0, x);
                    assert(0 <= j < ids0.len() && ids0[j] == x && devs0[j] == device_uuid@);
                }
            }
        }
        let mut i: usize = 0;
        while i < ids.len()
            invariant
                i <= ids.len(),
                cl == ids@.map_values(|s: String| s@),
                self.wf(),
                forall|x: Seq<char>| #[trigger] cl.contains(x) == (old(self).has(x) && old(
                    self,
                ).device_of(x) == device_uuid@),
                forall|x: Seq<char>|
                    #[trigger] self.has(x) == (old(self).has(x) && !cl.take(i as int).contains(x)),
                forall|x: Seq<char>|
                    self.has(x) ==> #[trigger] self.device_of(x) == old(self).device_of(x)
                        && self.db_of(x) == old(self).db_of(x),
                self.ejecting() == old(self).ejecting(),
                self.gen_ids() == old(self).gen_ids(),
                self.gens() == old(self).gens(),
            decreases ids.len() - i,
        {
            let ghost before = *self;
            assert(ids@[i as int]@ == cl[i as int]);
            self.remove(ids[i].as_str());
            proof {
                assert(cl.take(i + 1) =~= cl.take(i as int).push(cl[i as int]));
                assert forall|x: Seq<char>| self.has(x) implies #[trigger] self.device_of(x) == old(
                    self,
                ).device_of(x) && self.db_of(x) == old(self).db_of(x) by {
                    assert(self.has(x) == (before.has(x) && x != cl[i as int]));
                    assert(before.has(x));
                    assert(before.device_of(x) == old(self).device_of(x));
                }
                assert forall|x: Seq<char>| #[trigger] self.has(x) == (old(self).has(x) && !cl.take(
                    i + 1,
                ).contains(x)) by {
                    let t1 = cl.take(i + 1);
                    let t0 = cl.take(i as int);
                    assert(self.has(x) == (before.has(x) && x != cl[i as int]));
                    assert(before.has(x) == (old(self).has(x) && !t0.contains(x)));
                    assert(t1[i as int] == cl[i as int]);
                    if t1.contains(x) && !t0.contains(x) {
                        let j = choose|j: int| 0 <= j < t1.len() && #[trigger] t1[j] == x;
                        if j < i {
                            assert(t0[j] == x);
                        }
                    }
                    if t0.contains(x) {
                        let j = choose|j: int| 0 <= j < t0.len() && #[trigger] t0[j] == x;
                        assert(t1[j] == x);
                    }
                }
            }
            i = i + 1;
        }
        proof {
            assert(cl.take(ids.len() as int) =~= cl);
            assert forall|x: Seq<char>| #[trigger] self.has(x) == (old(self).has(x) && old(
                self,
            ).device_of(x) != device_uuid@) by {
                assert(cl.contains(x) == (old(self).has(x) && old(self).device_of(x) == device_uuid@));
            }
            assert forall|x: Seq<char>| self.has(x) implies #[trigger] self.db_of(x) == old(
                self,
            ).db_of(x) by {
                assert(self.device_of(x) == old(self).device_of(x));
            }
        }
        ids
    }

    /// Marks a device as being ejected.
    pub fn mark_ejecting(&mut self, device_uuid: &str)
        requires
            old(self).wf(),
        ensures
            final(self).wf(),
            forall|d: Seq<char>| #[trigger] final(self).is_ejecting(d) == (old(self).is_ejecting(d) || d == device_uuid@),
            final(self).ids() == old(self).ids(),
            final(self).devices() == old(self).devices(),
            final(self).dbs() == old(self).dbs(),
            final(self).gen_ids() == old(self).gen_ids(),
            final(self).gens() == old(self).gens(),
    {
        let i = find_index(&self.ejecting_devices, device_uuid);
        proof {
            lemma_index_of(self.ejecting(), device_uuid@);
        }
        if i == self.ejecting_devices.len() {
            let ghost prev = self.ejecting();
            self.ejecting_devices.push(string_of_str(device_uuid));
            proof {
                assert(self.ejecting() =~= prev.push(device_uuid@));
                assert forall|d: Seq<char>| #[trigger] self.is_ejecting(d) == (old(self).is_ejecting(d) || d == device_uuid@) by {
                    if self.is_ejecting(d) && d != device_uuid@ {
                        let j = choose|j: int| 0 <= j < self.ejecting().len() && self.ejecting()[j] == d;
                        assert(prev[j] == d);
                    }
                    if old(self).is_ejecting(d) {
                        let j = choose|j: int| 0 <= j < prev.len() && prev[j] == d;
                        assert(self.ejecting()[j] == d);
                    }
                    if d == device_uuid@ {
                        assert(self.ejecting()[prev.len() as int] == d);
                    }
                }
                assert(self.ejecting().no_duplicates()) by {
                    assert forall|a: int, b: int| 0 <= a < b < self.ejecting().len() implies self.ejecting()[a] != self.ejecting()[b] by {
                        if b == prev.len() {
                            assert(prev.contains(prev[a]));
                        }
                    }
                }
            }
        }
    }

    /// Clears the ejecting mark of a device.
    pub fn clear_ejecting(&mut self, device_uuid: &str)
        requires
            old(self).wf(),
        ensures
            final(self).wf(),
            forall|d: Seq<char>| #[trigger] final(self).is_ejecting(d) == (old(self).is_ejecting(d) && d != device_uuid@),
            final(self).ids() == old(self).ids(),
            final(self).devices() == old(self).devices(),
            final(self).dbs() == old(self).dbs(),
            final(self).gen_ids() == old(self).gen_ids(),
            final(self).gens() == old(self).gens(),
    {
        let i = find_index(&self.ejecting_devices, device_uuid);
        let ghost prev = self.ejecting();
        proof {
            lemma_index_of(prev, device_uuid@);
        }
        if i < self.ejecting_devices.len() {
            self.ejecting_devices.remove(i);
            proof {
                assert(self.ejecting() =~= prev.remove(i as int));
                assert forall|d: Seq<char>| #[trigger] self.is_ejecting(d) == (old(self).is_ejecting(d) && d != device_uuid@) by {
                    if self.is_ejecting(d) {
                        let j = choose|j: int| 0 <= j < self.ejecting().len() && self.ejecting()[j] == d;
                        if j < i {
                            assert(prev[j] == d);
                        } else {
                            assert(prev[j + 1] == d);
                        }
                    }
                    if old(self).is_ejecting(d) && d != device_uuid@ {
                        let j = choose|j: int| 0 <= j < prev.len() && prev[j] == d;
                        if j < i {
                            assert(self.ejecting()[j] == d);
                        } else {
                            assert(j != i);
                            assert(self.ejecting()[j - 1] == d);
                        }
                    }
                }
                assert(self.ejecting().no_duplicates()) by {
                    assert forall|a: int, b: int| 0 <= a < b < self.ejecting().len() implies self.ejecting()[a] != self.ejecting()[b] by {
                        let oa = if a < i { a } else { a + 1 };
                        let ob = if b < i { b } else { b + 1 };
                        assert(self.ejecting()[a] == prev[oa]);
                        assert(self.ejecting()[b] == prev[ob]);
                    }
                }
            }
        }
    }

    /// The devices being ejected.
    pub fn ejecting_snapshot(&self) -> (r: Vec<String>)
        ensures
            r@.map_values(|s: String| s@) == self.ejecting(),
    {
        let mut r: Vec<String> = Vec::new();
        let mut i: usize = 0;
        while i < self.ejecting_devices.len()
            invariant
                i <= self.ejecting_devices.len(),
                r@.map_values(|s: String| s@) == self.ejecting().take(i as int),
            decreases self.ejecting_devices.len() - i,
        {
            let ghost prev = r@.map_values(|s: String| s@);
            r.push(self.ejecting_devices[i].clone());
            assert(r@.map_values(|s: String| s@) =~= prev.push(self.ejecting()[i as int]));
            assert(self.ejecting().take(i + 1) =~= self.ejecting().take(i as int).push(self.ejecting()[i as int]));
            i = i + 1;
        }
        assert(self.ejecting().take(i as int) =~= self.ejecting());
        r
    }

    /// Increments and returns the rotation write generation of a photo
    /// (starting from 0).
    pub fn bump_rotation_gen(&mut self, photo_id: &str) -> (g: u64)
        requires
            old(self).wf(),
            old(self).gen_of(photo_id@) matches Some(n) ==> n < u64::MAX,
        ensures
            final(self).wf(),
            g == match old(self).gen_of(photo_id@) {
                Some(n) => n + 1,
                None => 1,
            },
            final(self).gen_of(photo_id@) == Some(g),
            forall|x: Seq<char>| x != photo_id@ ==> #[trigger] final(self).gen_of(x) == old(self).gen_of(x),
            final(self).ids() == old(self).ids(),
            final(self).devices() == old(self).devices(),
            final(self).dbs() == old(self).dbs(),
            final(self).ejecting() == old(self).ejecting(),
    {
        let ghost old_ids = self.gen_ids();
        let ghost old_gens = self.gens();
        let i = self.gen_index(photo_id);
        proof {
            lemma_index_of(old_ids, photo_id@);
        }
        if i < self.rotation_write_gen.len() {
            let g = self.rotation_write_gen[i].1 + 1;
            let id = self.rotation_write_gen[i].0.clone();
            self.rotation_write_gen.set(i, (id, g));
            proof {
                assert(self.gen_ids() =~= old_ids);
                assert(self.gens() =~= old_gens.update(i as int, g));
                assert forall|x: Seq<char>| x != photo_id@ implies #[trigger] self.gen_of(x) == old(self).gen_of(x) by {
                    lemma_index_of(old_ids, x);
                }
            }
            g
        } else {
            self.rotation_write_gen.push((string_of_str(photo_id), 1));
            proof {
                assert(self.gen_ids() =~= old_ids.push(photo_id@));
                assert(self.gens() =~= old_gens.push(1u64));
                lemma_index_first(self.gen_ids(), photo_id@, old_ids.len() as int);
                assert(self.gen_ids()[old_ids.len() as int] == photo_id@);
                assert forall|x: Seq<char>| x != photo_id@ implies #[trigger] self.gen_of(x) == old(self).gen_of(x) by {
                    lemma_index_of(old_ids, x);
                    lemma_index_of(self.gen_ids(), x);
                    if old_ids.contains(x) {
                        let j = index_of(old_ids, x);
                        lemma_index_first(self.gen_ids(), x, j);
                    }
                    if self.gen_ids().contains(x) {
                        let j = choose|j: int| 0 <= j < self.gen_ids().len() && self.gen_ids()[j] == x;
                        assert(j < old_ids.len());
                        assert(old_ids[j] == x);
                    }
                }
                assert(self.gen_ids().no_duplicates()) by {
                    assert forall|a: int, b: int| 0 <= a < b < self.gen_ids().len() implies self.gen_ids()[a] != self.gen_ids()[b] by {
                        if b == old_ids.len() {
                            assert(old_ids.contains(old_ids[a]));
                        }
                    }
                }
            }
            1
        }
    }

    /// The current rotation write generation of a photo.
    pub fn rotation_gen(&self, photo_id: &str) -> (r: Option<u64>)
        ensures
            r == self.gen_of(photo_id@),
    {
        let i = self.gen_index(photo_id);
        proof {
            lemma_index_of(self.gen_ids(), photo_id@);
        }
        if i < self.rotation_write_gen.len() {
            Some(self.rotation_write_gen[i].1)
        } else {
            None
        }
    }
}

/// A `String` with the characters of `s`.
fn string_of_str(s: &str) -> (r: String)
    ensures
        r@ == s@,
{
    crate::text::string_of(&chars_of(s))
}

/// A rotation write scheduled at generation `g` is superseded by any later
/// bump of the same photo: the photo's generation is then no longer `g`.
pub proof fn law_bump_supersedes<D>(
    scheduled: ProjectRegistry<D>,
    later: ProjectRegistry<D>,
    photo: Seq<char>,
    g: u64,
    g2: u64,
)
    requires
        scheduled.gen_of(photo) == Some(g),
        g2 == match scheduled.gen_of(photo) {
            Some(n) => n + 1,
            None => 1,
        },
        later.gen_of(photo) == Some(g2),
    ensures
        later.gen_of(photo) != Some(g),
{
}

/// Marking a device as ejecting then clearing it leaves it not ejecting,
/// and neither touches the open projects.
pub proof fn law_ejecting_roundtrip<D>(
    before: ProjectRegistry<D>,
    marked: ProjectRegistry<D>,
    cleared: ProjectRegistry<D>,
    dev: Seq<char>,
)
    requires
        forall|d: Seq<char>| #[trigger] marked.is_ejecting(d) == (before.is_ejecting(d) || d == dev),
        forall|d: Seq<char>| #[trigger] cleared.is_ejecting(d) == (marked.is_ejecting(d) && d != dev),
    ensures
        marked.is_ejecting(dev),
        !cleared.is_ejecting(dev),
        forall|d: Seq<char>| d != dev ==> #[trigger] cleared.is_ejecting(d) == before.is_ejecting(d),
{
}

} // verus!
