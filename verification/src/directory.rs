//! The device directory cache on the controller side: vehicles discovered
//! over multicast DNS, upserted by their stable id on every resolution and
//! never dropped on discovery loss. A side table from the advertised name to
//! the id, filled at resolution time, maps a removal event back to the cached
//! identity for the offline signal; the identity itself stays cached.
use crate::types::F1Car;
use vstd::prelude::*;

verus! {

/// First index at or after `i` whose car carries `id`.
pub open spec fn find_car(cars: Seq<F1Car>, id: Seq<char>, i: int) -> Option<int>
    decreases cars.len() - i,
{
    if i < 0 || i >= cars.len() {
        None
    } else if cars[i].id@ == id {
        Some(i)
    } else {
        find_car(cars, id, i + 1)
    }
}

/// First index at or after `i` whose entry maps `fullname`.
pub open spec fn find_name(names: Seq<(String, String)>, fullname: Seq<char>, i: int) -> Option<
    int,
>
    decreases names.len() - i,
{
    if i < 0 || i >= names.len() {
        None
    } else if names[i].0@ == fullname {
        Some(i)
    } else {
        find_name(names, fullname, i + 1)
    }
}

/// Upsert by stable id: replace the one entry with the car's id, or append.
pub open spec fn spec_upsert(cars: Seq<F1Car>, car: F1Car) -> Seq<F1Car> {
    match find_car(cars, car.id@, 0) {
        Some(k) => cars.update(k, car),
        None => cars.push(car),
    }
}

/// No two cached cars share an id.
pub open spec fn unique_ids(cars: Seq<F1Car>) -> bool {
    forall|i: int, j: int|
        0 <= i < j < cars.len() ==> (#[trigger] cars[i]).id@ != (#[trigger] cars[j]).id@
}

/// No two side-table entries share a fullname.
pub open spec fn unique_names(names: Seq<(String, String)>) -> bool {
    forall|i: int, j: int|
        0 <= i < j < names.len() ==> (#[trigger] names[i]).0@ != (#[trigger] names[j]).0@
}

/// The find scans return what they claim to.
pub proof fn lemma_find_car_props(cars: Seq<F1Car>, id: Seq<char>, i: int)
    requires
        0 <= i,
    ensures
        match find_car(cars, id, i) {
            Some(k) => i <= k < cars.len() && cars[k].id@ == id && (forall|j: int|
                i <= j < k ==> (#[trigger] cars[j]).id@ != id),
            None => forall|j: int| i <= j < cars.len() ==> (#[trigger] cars[j]).id@ != id,
        },
    decreases cars.len() - i,
{
    if i < cars.len() && cars[i].id@ != id {
        lemma_find_car_props(cars, id, i + 1);
    }
}

pub proof fn lemma_find_name_props(names: Seq<(String, String)>, fullname: Seq<char>, i: int)
    requires
        0 <= i,
    ensures
        match find_name(names, fullname, i) {
            Some(k) => i <= k < names.len() && names[k].0@ == fullname && (forall|j: int|
                i <= j < k ==> (#[trigger] names[j]).0@ != fullname),
            None => forall|j: int| i <= j < names.len() ==> (#[trigger] names[j]).0@ != fullname,
        },
    decreases names.len() - i,
{
    if i < names.len() && names[i].0@ != fullname {
        lemma_find_name_props(names, fullname, i + 1);
    }
}

/// Law: a second resolution of the same key updates the one cached identity
/// in place — same cache size, no duplicate — and is classified as an
/// update, not a new discovery.
pub proof fn lemma_second_resolution_updates(cars: Seq<F1Car>, a: F1Car, b: F1Car)
    requires
        unique_ids(cars),
        a.id@ == b.id@,
    ensures
        ({
            let once = spec_upsert(cars, a);
            let twice = spec_upsert(once, b);
            &&& find_car(once, b.id@, 0) is Some
            &&& twice.len() == once.len()
            &&& unique_ids(once)
            &&& unique_ids(twice)
            &&& find_car(twice, b.id@, 0) matches Some(k) && twice[k] == b
        }),
{
    let once = spec_upsert(cars, a);
    lemma_find_car_props(cars, a.id@, 0);
    lemma_upsert_props(cars, a);
    let twice = spec_upsert(once, b);
    lemma_find_car_props(once, b.id@, 0);
    lemma_upsert_props(once, b);
}

/// Upserting keeps ids unique, keeps the size except for a genuinely new id,
/// and leaves the upserted car findable under its id.
pub proof fn lemma_upsert_props(cars: Seq<F1Car>, car: F1Car)
    requires
        unique_ids(cars),
    ensures
        ({
            let after = spec_upsert(cars, car);
            &&& unique_ids(after)
            &&& after.len() == if find_car(cars, car.id@, 0) is Some {
                cars.len() as int
            } else {
                cars.len() + 1 as int
            }
            &&& find_car(after, car.id@, 0) matches Some(k) && after[k] == car
        }),
{
    lemma_find_car_props(cars, car.id@, 0);
    let after = spec_upsert(cars, car);
    match find_car(cars, car.id@, 0) {
        Some(k) => {
            assert forall|j: int| 0 <= j < k implies (#[trigger] after[j]).id@ != car.id@ by {}
            lemma_find_car_at(after, car.id@, 0, k);
        },
        None => {
            let k = cars.len() as int;
            assert forall|j: int| 0 <= j < k implies (#[trigger] after[j]).id@ != car.id@ by {}
            lemma_find_car_at(after, car.id@, 0, k);
        },
    }
}

/// The scan stops exactly at the first index holding the id.
pub proof fn lemma_find_car_at(cars: Seq<F1Car>, id: Seq<char>, i: int, k: int)
    requires
        0 <= i <= k < cars.len(),
        cars[k].id@ == id,
        forall|j: int| i <= j < k ==> (#[trigger] cars[j]).id@ != id,
    ensures
        find_car(cars, id, i) == Some(k),
    decreases k - i,
{
    if i < k {
        lemma_find_car_at(cars, id, i + 1, k);
    }
}

/// Character-for-character text comparison.
pub fn str_eq(a: &str, b: &str) -> (r: bool)
    ensures
        r == (a@ == b@),
{
    let na = a.unicode_len();
    let nb = b.unicode_len();
    if na != nb {
        return false;
    }
    let mut i: usize = 0;
    while i < na
        invariant
            0 <= i <= na,
            na == a@.len(),
            na == b@.len(),
            forall|j: int| 0 <= j < i ==> a@[j] == b@[j],
        decreases na - i,
    {
        if a.get_char(i) != b.get_char(i) {
            return false;
        }
        i += 1;
    }
    proof {
        assert(a@ =~= b@);
    }
    true
}

/// The directory cache and its name-to-id side table.
pub struct DirectoryCache {
    pub cars: Vec<F1Car>,
    pub names: Vec<(String, String)>,
}

impl DirectoryCache {
    /// Cache well-formedness: ids and fullnames are unique keys.
    pub open spec fn wf(self) -> bool {
        unique_ids(self.cars@) && unique_names(self.names@)
    }

    /// An empty directory.
    pub fn new() -> (d: DirectoryCache)
        ensures
            d.wf(),
            d.cars@.len() == 0,
            d.names@.len() == 0,
    {
        DirectoryCache { cars: Vec::new(), names: Vec::new() }
    }

    /// Upserts a resolved car by its stable id and remembers the advertised
    /// fullname for later removal events. True means a new discovery, false
    /// an update of the cached identity.
    pub fn upsert(&mut self, car: F1Car, fullname: String) -> (is_new: bool)
        requires
            old(self).wf(),
        ensures
            final(self).wf(),
            is_new == (find_car(old(self).cars@, car.id@, 0) is None),
            final(self).cars@ == spec_upsert(old(self).cars@, car),
            find_name(final(self).names@, fullname@, 0) matches Some(k) && final(self).names@[k].1@
                == car.id@,
    {
        proof {
            lemma_upsert_props(self.cars@, car);
            lemma_find_car_props(self.cars@, car.id@, 0);
        }
        let id_copy = clone_string(&car.id);
        let pos = self.find_car_index(car.id.as_str());
        let is_new = match pos {
            Some(k) => {
                self.cars.set(k, car);
                false
            },
            None => {
                self.cars.push(car);
                true
            },
        };
        self.set_name(fullname, id_copy);
        is_new
    }

    /// First cache index holding `id`.
    fn find_car_index(&self, id: &str) -> (r: Option<usize>)
        ensures
            match r {
                Some(k) => find_car(self.cars@, id@, 0) == Some(k as int),
                None => find_car(self.cars@, id@, 0) is None,
            },
    {
        let n = self.cars.len();
        let mut i: usize = 0;
        while i < n
            invariant
                0 <= i <= n,
                n == self.cars@.len(),
                find_car(self.cars@, id@, 0) == find_car(self.cars@, id@, i as int),
            decreases n - i,
        {
            if str_eq(self.cars[i].id.as_str(), id) {
                return Some(i);
            }
            i += 1;
        }
        None
    }

    /// Maps `fullname` to `id` in the side table, replacing a previous entry.
    fn set_name(&mut self, fullname: String, id: String)
        requires
            unique_names(old(self).names@),
        ensures
            final(self).cars@ == old(self).cars@,
            unique_names(final(self).names@),
            find_name(final(self).names@, fullname@, 0) matches Some(k) && final(self).names@[k].1@
                == id@,
    {
        proof {
            lemma_find_name_props(self.names@, fullname@, 0);
        }
        let pos = self.find_name_index(fullname.as_str());
        match pos {
            Some(k) => {
                self.names.set(k, (fullname, id));
                proof {
                    let names = self.names@;
                    assert forall|j: int| 0 <= j < k implies (#[trigger] names[j]).0@
                        != names[k as int].0@ by {}
                    lemma_find_name_at(names, names[k as int].0@, 0, k as int);
                }
            },
            None => {
                let ghost n = self.names@.len() as int;
                self.names.push((fullname, id));
                proof {
                    let names = self.names@;
                    assert forall|j: int| 0 <= j < n implies (#[trigger] names[j]).0@
                        != names[n].0@ by {}
                    lemma_find_name_at(names, names[n].0@, 0, n);
                }
            },
        }
    }

    /// First side-table index holding `fullname`.
    fn find_name_index(&self, fullname: &str) -> (r: Option<usize>)
        ensures
            match r {
                Some(k) => find_name(self.names@, fullname@, 0) == Some(k as int),
                None => find_name(self.names@, fullname@, 0) is None,
            },
    {
        let n = self.names.len();
        let mut i: usize = 0;
        while i < n
            invariant
                0 <= i <= n,
                n == self.names@.len(),
                find_name(self.names@, fullname@, 0) == find_name(self.names@, fullname@, i as int),
            decreases n - i,
        {
            if str_eq(self.names[i].0.as_str(), fullname) {
                return Some(i);
            }
            i += 1;
        }
        None
    }

    /// The cached car under `id`, copied out.
    pub fn get_car_by_id(&self, id: &str) -> (r: Option<F1Car>)
        ensures
            match r {
                Some(car) => find_car(self.cars@, id@, 0) matches Some(k) && car@
                    == self.cars@[k]@,
                None => find_car(self.cars@, id@, 0) is None,
            },
    {
        let pos = self.find_car_index(id);
        proof {
            lemma_find_car_props(self.cars@, id@, 0);
        }
        match pos {
            Some(k) => Some(self.cars[k].clone()),
            None => None,
        }
    }

    /// Every cached car, copied out in cache order.
    pub fn get_all_cars(&self) -> (r: Vec<F1Car>)
        ensures
            r@.len() == self.cars@.len(),
            forall|i: int| 0 <= i < r@.len() ==> (#[trigger] r@[i])@ == self.cars@[i]@,
    {
        let mut out: Vec<F1Car> = Vec::new();
        let n = self.cars.len();
        let mut i: usize = 0;
        while i < n
            invariant
                0 <= i <= n,
                n == self.cars@.len(),
                out@.len() == i,
                forall|j: int| 0 <= j < i ==> (#[trigger] out@[j])@ == self.cars@[j]@,
            decreases n - i,
        {
            out.push(self.cars[i].clone());
            i += 1;
        }
        out
    }

    /// A removal event, carrying only the advertised name, is mapped back to
    /// the cached identity: the side-table entry is dropped — so the same
    /// removal signals offline exactly once — while the identity stays
    /// cached. The returned car is the offline event's payload.
    pub fn remove_name(&mut self, fullname: &str) -> (r: Option<F1Car>)
        requires
            old(self).wf(),
        ensures
            final(self).wf(),
            final(self).cars@ == old(self).cars@,
            find_name(final(self).names@, fullname@, 0) is None,
            match r {
                Some(car) => {
                    &&& find_name(old(self).names@, fullname@, 0) is Some
                    &&& find_car(old(self).cars@, car.id@, 0) matches Some(k) && car@
                        == old(self).cars@[k]@
                },
                None => find_name(old(self).names@, fullname@, 0) is None || ({
                    let k = find_name(old(self).names@, fullname@, 0)->Some_0;
                    find_car(old(self).cars@, old(self).names@[k].1@, 0) is None
                }),
            },
    {
        proof {
            lemma_find_name_props(self.names@, fullname@, 0);
        }
        let pos = match self.find_name_index(fullname) {
            Some(k) => k,
            None => {
                return None;
            },
        };
        let entry = self.names.remove(pos);
        proof {
            let names = self.names@;
            assert forall|j: int| 0 <= j < names.len() implies (#[trigger] names[j]).0@
                != fullname@ by {
                if j < pos {
                    assert(names[j] == old(self).names@[j]);
                } else {
                    assert(names[j] == old(self).names@[j + 1]);
                }
            }
            lemma_find_name_props(names, fullname@, 0);
            assert(unique_names(names)) by {
                assert forall|i: int, j: int| 0 <= i < j < names.len() implies (
                #[trigger] names[i]).0@ != (#[trigger] names[j]).0@ by {
                    let oi = if i < pos {
                        i
                    } else {
                        i + 1
                    };
                    let oj = if j < pos {
                        j
                    } else {
                        j + 1
                    };
                    assert(names[i] == old(self).names@[oi]);
                    assert(names[j] == old(self).names@[oj]);
                }
            }
        }
        let r = self.get_car_by_id(entry.1.as_str());
        proof {
            lemma_find_car_props(self.cars@, entry.1@, 0);
        }
        r
    }
}

/// The discovery service of the controller: the cache plus the running flag
/// of the browse task. Starting twice or stopping a stopped service is an
/// error, as the shell treats both as misuse.
pub struct DiscoveryService {
    pub cache: DirectoryCache,
    pub is_running: bool,
}

impl DiscoveryService {
    pub fn new() -> (s: DiscoveryService)
        ensures
            !s.is_running,
            s.cache.wf(),
            s.cache.cars@.len() == 0,
            s.cache.names@.len() == 0,
    {
        DiscoveryService { cache: DirectoryCache::new(), is_running: false }
    }

    pub fn is_running(&self) -> (r: bool)
        ensures
            r == self.is_running,
    {
        self.is_running
    }

    /// Marks the browse task started; a second start is refused.
    pub fn start(&mut self) -> (r: Result<(), crate::events::DiscoveryError>)
        ensures
            final(self).cache == old(self).cache,
            r is Ok <==> !old(self).is_running,
            r is Ok ==> final(self).is_running,
            r is Err ==> final(self).is_running == old(self).is_running && r->Err_0@.code
                == "SERVICE_ALREADY_RUNNING"@,
    {
        if self.is_running {
            Err(crate::events::DiscoveryError::service_already_running())
        } else {
            self.is_running = true;
            Ok(())
        }
    }

    /// Marks the browse task stopped; stopping a stopped service is refused.
    pub fn stop(&mut self) -> (r: Result<(), crate::events::DiscoveryError>)
        ensures
            final(self).cache == old(self).cache,
            r is Ok <==> old(self).is_running,
            r is Ok ==> !final(self).is_running,
            r is Err ==> final(self).is_running == old(self).is_running && r->Err_0@.code
                == "SERVICE_NOT_RUNNING"@,
    {
        if self.is_running {
            self.is_running = false;
            Ok(())
        } else {
            Err(crate::events::DiscoveryError::service_not_running())
        }
    }

    /// Every cached car, copied out.
    pub fn get_all_cars(&self) -> (r: Vec<F1Car>)
        ensures
            r@.len() == self.cache.cars@.len(),
            forall|i: int| 0 <= i < r@.len() ==> (#[trigger] r@[i])@ == self.cache.cars@[i]@,
    {
        self.cache.get_all_cars()
    }

    /// The cached car under `id`, copied out.
    pub fn get_car_by_id(&self, id: &str) -> (r: Option<F1Car>)
        ensures
            match r {
                Some(car) => find_car(self.cache.cars@, id@, 0) matches Some(k) && car@
                    == self.cache.cars@[k]@,
                None => find_car(self.cache.cars@, id@, 0) is None,
            },
    {
        self.cache.get_car_by_id(id)
    }
}

/// A character-for-character copy.
fn clone_string(s: &String) -> (r: String)
    ensures
        r@ == s@,
{
    s.clone()
}

/// The scan stops exactly at the first index holding the fullname.
pub proof fn lemma_find_name_at(names: Seq<(String, String)>, fullname: Seq<char>, i: int, k: int)
    requires
        0 <= i <= k < names.len(),
        names[k].0@ == fullname,
        forall|j: int| i <= j < k ==> (#[trigger] names[j]).0@ != fullname,
    ensures
        find_name(names, fullname, i) == Some(k),
    decreases k - i,
{
    if i < k {
        lemma_find_name_at(names, fullname, i + 1, k);
    }
}

} // verus!
