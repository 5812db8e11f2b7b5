//! Properties kept by device and by name.
//!
//! A `PropertyStore` holds, for each device, the properties defined for it,
//! each under its own name. It is viewed as a map from device name to a map
//! from property name to property.
use vstd::prelude::*;

use crate::property::{Property, PropertyValue};
use crate::strings::str_eq;

verus! {

/// The map an association list denotes: each key (by its text) maps to the
/// value of its last entry.
pub open spec fn assoc_map<V>(es: Seq<(String, V)>) -> Map<Seq<char>, V>
    decreases es.len(),
{
    if es.len() == 0 {
        Map::empty()
    } else {
        assoc_map(es.drop_last()).insert(es.last().0@, es.last().1)
    }
}

/// No two entries of an association list have the same key text.
pub open spec fn keys_unique<V>(es: Seq<(String, V)>) -> bool {
    forall|i: int, j: int| 0 <= i < j < es.len() ==> es[i].0@ != es[j].0@
}

/// A key is in the denoted map exactly when some entry has it.
pub proof fn lemma_assoc_contains<V>(es: Seq<(String, V)>, k: Seq<char>)
    ensures
        assoc_map(es).contains_key(k) <==> exists|i: int| 0 <= i < es.len() && es[i].0@ == k,
    decreases es.len(),
{
    if es.len() > 0 {
        let d = es.drop_last();
        lemma_assoc_contains(d, k);
        if assoc_map(d).contains_key(k) {
            let i = choose|i: int| 0 <= i < d.len() && d[i].0@ == k;
            assert(es[i].0@ == k);
        }
        if exists|i: int| 0 <= i < es.len() && es[i].0@ == k {
            let i = choose|i: int| 0 <= i < es.len() && es[i].0@ == k;
            if i < es.len() - 1 {
                assert(d[i].0@ == k);
            }
        }
    }
}

/// With unique keys, each entry's key maps to that entry's value.
pub proof fn lemma_assoc_index<V>(es: Seq<(String, V)>, i: int)
    requires
        keys_unique(es),
        0 <= i < es.len(),
    ensures
        assoc_map(es).contains_key(es[i].0@),
        assoc_map(es)[es[i].0@] == es[i].1,
    decreases es.len(),
{
    if i < es.len() - 1 {
        let d = es.drop_last();
        assert(keys_unique(d));
        assert(d[i] == es[i]);
        lemma_assoc_index(d, i);
        assert(es.last().0@ != es[i].0@);
    }
}

/// Replacing an entry by one with the same key text changes that key only.
pub proof fn lemma_assoc_update<V>(es: Seq<(String, V)>, i: int, k: String, v: V)
    requires
        keys_unique(es),
        0 <= i < es.len(),
        k@ == es[i].0@,
    ensures
        assoc_map(es.update(i, (k, v))) == assoc_map(es).insert(k@, v),
        keys_unique(es.update(i, (k, v))),
    decreases es.len(),
{
    let e2 = es.update(i, (k, v));
    let d = es.drop_last();
    if i == es.len() - 1 {
        assert(e2.drop_last() =~= d);
        assert(assoc_map(e2) =~= assoc_map(es).insert(k@, v));
    } else {
        assert(keys_unique(d));
        lemma_assoc_update(d, i, k, v);
        assert(e2.drop_last() =~= d.update(i, (k, v)));
        assert(es.last().0@ != k@);
        assert(assoc_map(e2) =~= assoc_map(es).insert(k@, v));
    }
    assert forall|a: int, b: int| 0 <= a < b < e2.len() implies e2[a].0@ != e2[b].0@ by {
        assert(e2[a].0@ == es[a].0@);
        assert(e2[b].0@ == es[b].0@);
    }
}

/// Adding an entry with a new key text adds that key.
pub proof fn lemma_assoc_push<V>(es: Seq<(String, V)>, k: String, v: V)
    requires
        keys_unique(es),
        !assoc_map(es).contains_key(k@),
    ensures
        assoc_map(es.push((k, v))) == assoc_map(es).insert(k@, v),
        keys_unique(es.push((k, v))),
{
    let e2 = es.push((k, v));
    assert(e2.drop_last() =~= es);
    lemma_assoc_contains(es, k@);
    assert forall|a: int, b: int| 0 <= a < b < e2.len() implies e2[a].0@ != e2[b].0@ by {
        if b == es.len() {
            assert(e2[a] == es[a]);
        }
    }
}

/// Removing an entry removes just its key.
pub proof fn lemma_assoc_remove<V>(es: Seq<(String, V)>, i: int)
    requires
        keys_unique(es),
        0 <= i < es.len(),
    ensures
        assoc_map(es.remove(i)) == assoc_map(es).remove(es[i].0@),
        keys_unique(es.remove(i)),
    decreases es.len(),
{
    let d = es.drop_last();
    let e2 = es.remove(i);
    assert(keys_unique(d));
    if i == es.len() - 1 {
        assert(e2 =~= d);
        lemma_assoc_contains(d, es[i].0@);
        assert(assoc_map(e2) =~= assoc_map(es).remove(es[i].0@));
    } else {
        lemma_assoc_remove(d, i);
        assert(e2.drop_last() =~= d.remove(i));
        assert(e2.last() == es.last());
        assert(es.last().0@ != es[i].0@);
        assert(assoc_map(e2) =~= assoc_map(es).remove(es[i].0@));
    }
    assert forall|a: int, b: int| 0 <= a < b < e2.len() implies e2[a].0@ != e2[b].0@ by {
        if a < i {
            assert(e2[a] == es[a]);
        } else {
            assert(e2[a] == es[a + 1]);
        }
        if b < i {
            assert(e2[b] == es[b]);
        } else {
            assert(e2[b] == es[b + 1]);
        }
    }
}

/// An association list denotes the empty map exactly when it has no entry.
proof fn lemma_assoc_empty<V>(es: Seq<(String, V)>)
    ensures
        (es.len() == 0) <==> (assoc_map(es) == Map::<Seq<char>, V>::empty()),
{
    if es.len() > 0 {
        assert(assoc_map(es).contains_key(es.last().0@));
    }
}

/// The index of the entry with the given key text, if any.
fn find_key<V>(es: &Vec<(String, V)>, k: &str) -> (r: Option<usize>)
    ensures
        match r {
            Some(i) => i < es@.len() && es@[i as int].0@ == k@,
            None => forall|i: int| 0 <= i < es@.len() ==> es@[i].0@ != k@,
        },
{
    let mut i: usize = 0;
    while i < es.len()
        invariant
            i <= es@.len(),
            forall|j: int| 0 <= j < i ==> es@[j].0@ != k@,
        decreases es.len() - i,
    {
        if str_eq(es[i].0.as_str(), k) {
            return Some(i);
        }
        i = i + 1;
    }
    None
}

/// Sets the value of a key, adding an entry when the key is new.
pub fn put_entry<V>(es: &mut Vec<(String, V)>, k: String, v: V)
    requires
        keys_unique(old(es)@),
    ensures
        keys_unique(final(es)@),
        assoc_map(final(es)@) == assoc_map(old(es)@).insert(k@, v),
{
    match find_key(es, k.as_str()) {
        Some(i) => {
            proof {
                lemma_assoc_update(es@, i as int, k, v);
            }
            es.set(i, (k, v));
        },
        None => {
            proof {
                lemma_assoc_contains(es@, k@);
                lemma_assoc_push(es@, k, v);
            }
            es.push((k, v));
        },
    }
}

/// The properties of one device, by name.
pub open spec fn named(es: Seq<(String, Property)>) -> Map<Seq<char>, Property> {
    assoc_map(es)
}

/// The properties of a device in a store view (none when it is absent).
pub open spec fn device_view(
    m: Map<Seq<char>, Map<Seq<char>, Property>>,
    device: Seq<char>,
) -> Map<Seq<char>, Property> {
    if m.contains_key(device) {
        m[device]
    } else {
        Map::empty()
    }
}

/// A store view with the property put under its own device and name.
pub open spec fn put(m: Map<Seq<char>, Map<Seq<char>, Property>>, p: Property) -> Map<
    Seq<char>,
    Map<Seq<char>, Property>,
> {
    m.insert(p.device@, device_view(m, p.device@).insert(p.name@, p))
}

/// A store view without the named property; a device left with no property
/// is removed as well.
pub open spec fn drop_property(
    m: Map<Seq<char>, Map<Seq<char>, Property>>,
    device: Seq<char>,
    name: Seq<char>,
) -> Map<Seq<char>, Map<Seq<char>, Property>> {
    if !m.contains_key(device) {
        m
    } else if m[device].remove(name) == Map::<Seq<char>, Property>::empty() {
        m.remove(device)
    } else {
        m.insert(device, m[device].remove(name))
    }
}

/// A read after a write gives back what was written: after a property is
/// put, its device holds it under its name.
pub proof fn lemma_put_then_get(m: Map<Seq<char>, Map<Seq<char>, Property>>, p: Property)
    ensures
        put(m, p).contains_key(p.device@),
        put(m, p)[p.device@].contains_key(p.name@),
        put(m, p)[p.device@][p.name@] == p,
{
}

/// Putting a property leaves every other property, and every other device,
/// as it was.
pub proof fn lemma_put_keeps_others(
    m: Map<Seq<char>, Map<Seq<char>, Property>>,
    p: Property,
    device: Seq<char>,
    name: Seq<char>,
)
    requires
        device != p.device@ || name != p.name@,
    ensures
        device_view(put(m, p), device).contains_key(name) == device_view(m, device).contains_key(
            name,
        ),
        device_view(m, device).contains_key(name) ==> device_view(put(m, p), device)[name]
            == device_view(m, device)[name],
        device != p.device@ ==> (put(m, p).contains_key(device) == m.contains_key(device)),
{
}

/// Putting the same property twice is the same as putting it once.
pub proof fn lemma_put_idempotent(m: Map<Seq<char>, Map<Seq<char>, Property>>, p: Property)
    ensures
        put(put(m, p), p) == put(m, p),
{
    let d = p.device@;
    assert(device_view(put(m, p), d) == device_view(m, d).insert(p.name@, p));
    assert(device_view(m, d).insert(p.name@, p).insert(p.name@, p) =~= device_view(m, d).insert(
        p.name@,
        p,
    ));
    assert(put(put(m, p), p) =~= put(m, p));
}

/// Removing a device undoes every property put on it.
pub proof fn lemma_remove_device_after_put(m: Map<Seq<char>, Map<Seq<char>, Property>>, p: Property)
    ensures
        put(m, p).remove(p.device@) == m.remove(p.device@),
{
    assert(put(m, p).remove(p.device@) =~= m.remove(p.device@));
}

/// Removing a property undoes putting it, when the property was new and its
/// device, if present, held other properties.
pub proof fn lemma_drop_after_put(m: Map<Seq<char>, Map<Seq<char>, Property>>, p: Property)
    requires
        !device_view(m, p.device@).contains_key(p.name@),
        m.contains_key(p.device@) ==> m[p.device@] != Map::<Seq<char>, Property>::empty(),
    ensures
        drop_property(put(m, p), p.device@, p.name@) == m,
{
    let d = p.device@;
    let inner = device_view(m, d);
    assert(put(m, p)[d].remove(p.name@) =~= inner);
    if m.contains_key(d) {
        assert(drop_property(put(m, p), d, p.name@) =~= m);
    } else {
        assert(inner =~= Map::<Seq<char>, Property>::empty());
        assert(drop_property(put(m, p), d, p.name@) =~= m);
    }
}

/// Whether a device is among those asked for: the given one, or all.
pub open spec fn in_scope(device: Option<Seq<char>>, d: Seq<char>) -> bool {
    match device {
        Some(x) => x == d,
        None => true,
    }
}

/// The device text asked for, if any.
pub open spec fn scope_of(device: Option<&str>) -> Option<Seq<char>> {
    match device {
        Some(x) => Some(x@),
        None => None,
    }
}

/// Whether a property is stored under some device in scope.
pub open spec fn stored_in_scope(
    m: Map<Seq<char>, Map<Seq<char>, Property>>,
    device: Option<Seq<char>>,
    p: Property,
) -> bool {
    exists|d: Seq<char>, n: Seq<char>|
        #![trigger m[d][n]]
        in_scope(device, d) && m.contains_key(d) && m[d].contains_key(n) && p == m[d][n]
}

/// Whether a property is among the selected ones.
pub open spec fn selected(r: Seq<&Property>, p: Property) -> bool {
    exists|k: int| 0 <= k < r.len() && *r[k] == p
}

/// Every selected property is a stored property of a device in scope.
pub open spec fn selection_sound(
    m: Map<Seq<char>, Map<Seq<char>, Property>>,
    device: Option<Seq<char>>,
    r: Seq<&Property>,
) -> bool {
    forall|k: int| 0 <= k < r.len() ==> stored_in_scope(m, device, #[trigger] *r[k])
}

/// Every stored property of a device in scope is selected.
pub open spec fn selection_complete(
    m: Map<Seq<char>, Map<Seq<char>, Property>>,
    device: Option<Seq<char>>,
    r: Seq<&Property>,
) -> bool {
    forall|d: Seq<char>, n: Seq<char>|
        #![trigger m[d][n]]
        in_scope(device, d) && m.contains_key(d) && m[d].contains_key(n) ==> selected(r, m[d][n])
}

/// Whether an index pair names a stored property of a device in scope.
pub open spec fn slot(
    devs: Seq<(String, Vec<(String, Property)>)>,
    device: Option<Seq<char>>,
    ab: (int, int),
) -> bool {
    &&& 0 <= ab.0 < devs.len()
    &&& 0 <= ab.1 < devs[ab.0].1@.len()
    &&& in_scope(device, devs[ab.0].0@)
}

/// The property an index pair names.
pub open spec fn slot_value(devs: Seq<(String, Vec<(String, Property)>)>, ab: (int, int)) -> Property {
    devs[ab.0].1@[ab.1].1
}

/// Turns the index-wise description of selected properties into one over
/// the view of the devices.
/// A device of a list is in its view, with the view of its properties.
proof fn lemma_view_of_entry(devs: Seq<(String, Vec<(String, Property)>)>, a: int)
    requires
        keys_unique(devs),
        0 <= a < devs.len(),
    ensures
        view_of(devs).contains_key(devs[a].0@),
        view_of(devs)[devs[a].0@] == named(devs[a].1@),
{
    reveal(view_of);
    lemma_assoc_index(devs, a);
}

/// A device in the view of a list is one of its devices.
proof fn lemma_view_of_key(devs: Seq<(String, Vec<(String, Property)>)>, d: Seq<char>)
    requires
        view_of(devs).contains_key(d),
    ensures
        exists|a: int| 0 <= a < devs.len() && devs[a].0@ == d,
{
    reveal(view_of);
    lemma_assoc_contains(devs, d);
}

proof fn lemma_select_view(
    devs: Seq<(String, Vec<(String, Property)>)>,
    device: Option<Seq<char>>,
    r: Seq<&Property>,
    idx: Seq<(int, int)>,
)
    requires
        keys_unique(devs),
        forall|i: int| 0 <= i < devs.len() ==> keys_unique(#[trigger] devs[i].1@),
        r.len() == idx.len(),
        forall|k: int| 0 <= k < idx.len() ==> #[trigger] slot(devs, device, idx[k]),
        forall|k: int| 0 <= k < idx.len() ==> *r[k] == #[trigger] slot_value(devs, idx[k]),
        forall|a: int, b: int| 0 <= a < devs.len() && slot(devs, device, (a, b)) ==> #[trigger] idx.contains((a, b)),
    ensures
        selection_sound(view_of(devs), device, r),
        selection_complete(view_of(devs), device, r),
{
    let m = view_of(devs);
    assert forall|k: int| 0 <= k < r.len() implies stored_in_scope(m, device, #[trigger] *r[k]) by {
        let a = idx[k].0;
        let b = idx[k].1;
        assert(slot(devs, device, idx[k]));
        assert(*r[k] == slot_value(devs, idx[k]));
        lemma_view_of_entry(devs, a);
        assert(keys_unique(devs[a].1@));
        lemma_assoc_index(devs[a].1@, b);
        let d = devs[a].0@;
        let n = devs[a].1@[b].0@;
        assert(in_scope(device, d) && m.contains_key(d) && m[d].contains_key(n) && *r[k] == m[d][n]);
    }
    assert forall|d: Seq<char>, n: Seq<char>|
        #![trigger m[d][n]]
        in_scope(device, d) && m.contains_key(d) && m[d].contains_key(n) implies selected(r, m[d][n]) by {
        lemma_view_of_key(devs, d);
        let a = choose|a: int| 0 <= a < devs.len() && devs[a].0@ == d;
        lemma_view_of_entry(devs, a);
        assert(keys_unique(devs[a].1@));
        lemma_assoc_contains(devs[a].1@, n);
        let b = choose|b: int| 0 <= b < devs[a].1@.len() && devs[a].1@[b].0@ == n;
        lemma_assoc_index(devs[a].1@, b);
        assert(slot(devs, device, (a, b)));
        assert(idx.contains((a, b)));
        let k = choose|k: int| 0 <= k < idx.len() && idx[k] == (a, b);
        assert(*r[k] == slot_value(devs, idx[k]));
    }
}

/// The view of a list of devices with their properties.
#[verifier::opaque]
pub open spec fn view_of(devs: Seq<(String, Vec<(String, Property)>)>) -> Map<Seq<char>, Map<Seq<char>, Property>> {
    assoc_map(devs).map_values(|ps: Vec<(String, Property)>| named(ps@))
}

/// Properties by device and by name.
#[derive(Debug)]
pub struct PropertyStore {
    devices: Vec<(String, Vec<(String, Property)>)>,
}

impl View for PropertyStore {
    type V = Map<Seq<char>, Map<Seq<char>, Property>>;

    closed spec fn view(&self) -> Self::V {
        view_of(self.devices@)
    }
}

impl PropertyStore {
    /// The store's internal invariant: device names are unique, and so are
    /// the property names of each device.
    pub closed spec fn wf(&self) -> bool {
        &&& keys_unique(self.devices@)
        &&& forall|i: int| 0 <= i < self.devices@.len() ==> keys_unique(#[trigger] self.devices@[i].1@)
    }

    /// An empty store.
    pub fn new() -> (r: Self)
        ensures
            r.wf(),
            r@ == Map::<Seq<char>, Map<Seq<char>, Property>>::empty(),
    {
        proof {
            reveal(view_of);
        }
        let r = PropertyStore { devices: Vec::new() };
        assert(r@ =~= Map::<Seq<char>, Map<Seq<char>, Property>>::empty());
        r
    }

    /// The property with the given name of the given device, if any.
    pub fn get(&self, device: &str, name: &str) -> (r: Option<&Property>)
        requires
            self.wf(),
        ensures
            match r {
                Some(p) => self@.contains_key(device@) && self@[device@].contains_key(name@)
                    && *p == self@[device@][name@],
                None => !(self@.contains_key(device@) && self@[device@].contains_key(name@)),
            },
    {
        proof {
            reveal(view_of);
        }
        match find_key(&self.devices, device) {
            None => {
                proof {
                    lemma_assoc_contains(self.devices@, device@);
                }
                None
            },
            Some(i) => {
                proof {
                    lemma_assoc_index(self.devices@, i as int);
                }
                let props = &self.devices[i].1;
                assert(keys_unique(self.devices@[i as int].1@));
                match find_key(props, name) {
                    None => {
                        proof {
                            lemma_assoc_contains(props@, name@);
                        }
                        None
                    },
                    Some(j) => {
                        proof {
                            lemma_assoc_index(props@, j as int);
                        }
                        Some(&props[j].1)
                    },
                }
            },
        }
    }

    /// Puts a property under its own device and name, replacing any property
    /// that was there.
    pub fn insert(&mut self, p: Property)
        requires
            old(self).wf(),
        ensures
            final(self).wf(),
            final(self)@ == put(old(self)@, p),
    {
        proof {
            reveal(view_of);
        }
        let ghost old_view = self@;
        let ghost q = p;
        let device = p.device.clone();
        let name = p.name.clone();
        match find_key(&self.devices, device.as_str()) {
            Some(i) => {
                let ghost old_devices = self.devices@;
                proof {
                    lemma_assoc_index(old_devices, i as int);
                }
                let (key, mut props) = self.devices.remove(i);
                assert(keys_unique(old_devices[i as int].1@));
                put_entry(&mut props, name, p);
                proof {
                    lemma_assoc_update(old_devices, i as int, key, props);
                }
                self.devices.insert(i, (key, props));
                assert(self.devices@ =~= old_devices.update(i as int, (key, props)));
                assert forall|k: int| 0 <= k < self.devices@.len() implies keys_unique(
                    #[trigger] self.devices@[k].1@,
                ) by {
                    if k != i {
                        assert(self.devices@[k] == old_devices[k]);
                    }
                }
                assert(self@ =~= put(old_view, q));
            },
            None => {
                let ghost old_devices = self.devices@;
                let mut props: Vec<(String, Property)> = Vec::new();
                let ghost gname = name;
                props.push((name, p));
                assert(props@.drop_last() =~= Seq::<(String, Property)>::empty());
                assert(assoc_map(props@.drop_last()) == Map::<Seq<char>, Property>::empty());
                assert(props@.last() == (gname, q));
                assert(named(props@) =~= Map::<Seq<char>, Property>::empty().insert(q.name@, q));
                proof {
                    lemma_assoc_contains(old_devices, device@);
                    lemma_assoc_push(old_devices, device, props);
                }
                self.devices.push((device, props));
                assert forall|k: int| 0 <= k < self.devices@.len() implies keys_unique(
                    #[trigger] self.devices@[k].1@,
                ) by {
                    if k < old_devices.len() {
                        assert(self.devices@[k] == old_devices[k]);
                    }
                }
                assert(self@ =~= put(old_view, q));
            },
        }
    }

    /// Removes a device with all its properties.
    pub fn remove_device(&mut self, device: &str)
        requires
            old(self).wf(),
        ensures
            final(self).wf(),
            final(self)@ == old(self)@.remove(device@),
    {
        proof {
            reveal(view_of);
        }
        let ghost old_view = self@;
        let ghost old_devices = self.devices@;
        match find_key(&self.devices, device) {
            Some(i) => {
                proof {
                    lemma_assoc_remove(old_devices, i as int);
                }
                self.devices.remove(i);
                assert forall|k: int| 0 <= k < self.devices@.len() implies keys_unique(
                    #[trigger] self.devices@[k].1@,
                ) by {
                    if k < i {
                        assert(self.devices@[k] == old_devices[k]);
                    } else {
                        assert(self.devices@[k] == old_devices[k + 1]);
                    }
                }
                assert(self@ =~= old_view.remove(device@));
            },
            None => {
                proof {
                    lemma_assoc_contains(old_devices, device@);
                }
                assert(self@ =~= old_view.remove(device@));
            },
        }
    }

    /// Removes one property of a device; a device left with no property is
    /// removed too.
    pub fn remove(&mut self, device: &str, name: &str)
        requires
            old(self).wf(),
        ensures
            final(self).wf(),
            final(self)@ == drop_property(old(self)@, device@, name@),
    {
        proof {
            reveal(view_of);
        }
        let ghost old_view = self@;
        let ghost old_devices = self.devices@;
        match find_key(&self.devices, device) {
            None => {
                proof {
                    lemma_assoc_contains(old_devices, device@);
                }
            },
            Some(i) => {
                proof {
                    lemma_assoc_index(old_devices, i as int);
                    lemma_assoc_remove(old_devices, i as int);
                }
                let (key, mut props) = self.devices.remove(i);
                assert(keys_unique(old_devices[i as int].1@));
                let ghost old_props = props@;
                match find_key(&props, name) {
                    Some(j) => {
                        proof {
                            lemma_assoc_remove(old_props, j as int);
                        }
                        props.remove(j);
                    },
                    None => {
                        proof {
                            lemma_assoc_contains(old_props, name@);
                        }
                        assert(named(props@) =~= named(old_props).remove(name@));
                    },
                }
                proof {
                    lemma_assoc_empty(props@);
                }
                assert forall|k: int| 0 <= k < self.devices@.len() implies keys_unique(
                    #[trigger] self.devices@[k].1@,
                ) by {
                    if k < i {
                        assert(self.devices@[k] == old_devices[k]);
                    } else {
                        assert(self.devices@[k] == old_devices[k + 1]);
                    }
                }
                if props.len() == 0 {
                    assert(self@ =~= drop_property(old_view, device@, name@));
                } else {
                    proof {
                        lemma_assoc_update(old_devices, i as int, key, props);
                    }
                    self.devices.insert(i, (key, props));
                    assert(self.devices@ =~= old_devices.update(i as int, (key, props)));
                    assert forall|k: int| 0 <= k < self.devices@.len() implies keys_unique(
                        #[trigger] self.devices@[k].1@,
                    ) by {
                        if k != i {
                            assert(self.devices@[k] == old_devices[k]);
                        }
                    }
                    assert(self@ =~= drop_property(old_view, device@, name@));
                }
            },
        }
    }

    /// Replaces the value of a stored property; `false` (and no change) when
    /// the device holds no property of that name.
    pub fn set_value(&mut self, device: &str, name: &str, value: PropertyValue) -> (r: bool)
        requires
            old(self).wf(),
        ensures
            final(self).wf(),
            r == (old(self)@.contains_key(device@) && old(self)@[device@].contains_key(name@)),
            r ==> final(self)@ == old(self)@.insert(
                device@,
                old(self)@[device@].insert(
                    name@,
                    Property { value, ..old(self)@[device@][name@] },
                ),
            ),
            !r ==> final(self)@ == old(self)@,
    {
        proof {
            reveal(view_of);
        }
        let ghost old_view = self@;
        let ghost old_devices = self.devices@;
        match find_key(&self.devices, device) {
            None => {
                proof {
                    lemma_assoc_contains(old_devices, device@);
                }
                false
            },
            Some(i) => {
                proof {
                    lemma_assoc_index(old_devices, i as int);
                }
                assert(keys_unique(old_devices[i as int].1@));
                match find_key(&self.devices[i].1, name) {
                    None => {
                        proof {
                            lemma_assoc_contains(old_devices[i as int].1@, name@);
                        }
                        false
                    },
                    Some(j) => {
                        let (key, mut props) = self.devices.remove(i);
                        let ghost old_props = props@;
                        proof {
                            lemma_assoc_index(old_props, j as int);
                        }
                        let (pname, mut prop) = props.remove(j);
                        let ghost old_prop = prop;
                        prop.value = value;
                        assert(prop == Property { value, ..old_prop });
                        props.insert(j, (pname, prop));
                        assert(props@ =~= old_props.update(j as int, (pname, prop)));
                        proof {
                            lemma_assoc_update(old_props, j as int, pname, prop);
                            lemma_assoc_update(old_devices, i as int, key, props);
                        }
                        self.devices.insert(i, (key, props));
                        assert(self.devices@ =~= old_devices.update(i as int, (key, props)));
                        assert forall|k: int| 0 <= k < self.devices@.len() implies keys_unique(
                            #[trigger] self.devices@[k].1@,
                        ) by {
                            if k != i {
                                assert(self.devices@[k] == old_devices[k]);
                            }
                        }
                        assert(self@ =~= old_view.insert(
                            device@,
                            old_view[device@].insert(name@, Property { value, ..old_view[device@][name@] }),
                        ));
                        true
                    },
                }
            },
        }
    }

    /// The stored properties of one device, or of all devices when none is
    /// given.
    pub fn select(&self, device: Option<&str>) -> (r: Vec<&Property>)
        requires
            self.wf(),
        ensures
            selection_sound(self@, scope_of(device), r@),
            selection_complete(self@, scope_of(device), r@),
    {
        let ghost devs = self.devices@;
        let mut r: Vec<&Property> = Vec::new();
        let ghost mut idx: Seq<(int, int)> = Seq::empty();
        let mut i: usize = 0;
        while i < self.devices.len()
            invariant
                devs == self.devices@,
                i <= devs.len(),
                r@.len() == idx.len(),
                forall|k: int| 0 <= k < idx.len() ==> #[trigger] slot(devs, scope_of(device), idx[k]),
                forall|k: int| 0 <= k < idx.len() ==> *r@[k] == #[trigger] slot_value(devs, idx[k]),
                forall|a: int, b: int|
                    0 <= a < i && slot(devs, scope_of(device), (a, b)) ==> #[trigger] idx.contains((a, b)),
            decreases self.devices.len() - i,
        {
            let wanted = match device {
                None => true,
                Some(d) => str_eq(self.devices[i].0.as_str(), d),
            };
            if wanted {
                let props = &self.devices[i].1;
                let mut j: usize = 0;
                while j < props.len()
                    invariant
                        devs == self.devices@,
                        i < devs.len(),
                        *props == devs[i as int].1,
                        in_scope(scope_of(device), devs[i as int].0@),
                        j <= props@.len(),
                        r@.len() == idx.len(),
                        forall|k: int| 0 <= k < idx.len() ==> #[trigger] slot(devs, scope_of(device), idx[k]),
                        forall|k: int| 0 <= k < idx.len() ==> *r@[k] == #[trigger] slot_value(devs, idx[k]),
                        forall|a: int, b: int|
                            0 <= a < i && slot(devs, scope_of(device), (a, b)) ==> #[trigger] idx.contains((a, b)),
                        forall|b: int| 0 <= b < j ==> #[trigger] idx.contains((i as int, b)),
                    decreases props.len() - j,
                {
                    r.push(&props[j].1);
                    proof {
                        let old_idx = idx;
                        idx = idx.push((i as int, j as int));
                        assert forall|a: int, b: int|
                            0 <= a < i && slot(devs, scope_of(device), (a, b)) implies #[trigger] idx.contains((a, b)) by {
                            assert(old_idx.contains((a, b)));
                            let k = choose|k: int| 0 <= k < old_idx.len() && old_idx[k] == (a, b);
                            assert(idx[k] == (a, b));
                        }
                        assert forall|b: int| 0 <= b < j + 1 implies #[trigger] idx.contains((i as int, b)) by {
                            if b < j {
                                assert(old_idx.contains((i as int, b)));
                                let k = choose|k: int| 0 <= k < old_idx.len() && old_idx[k] == (i as int, b);
                                assert(idx[k] == (i as int, b));
                            } else {
                                assert(idx[old_idx.len() as int] == (i as int, b));
                            }
                        }
                    }
                    j = j + 1;
                }
            }
            proof {
                assert forall|a: int, b: int|
                    0 <= a < i + 1 && slot(devs, scope_of(device), (a, b)) implies #[trigger] idx.contains((a, b)) by {
                    if a == i {
                        assert(wanted);
                    }
                }
            }
            i = i + 1;
        }
        proof {
            lemma_select_view(devs, scope_of(device), r@, idx);
            assert(self@ == view_of(devs));
        }
        r
    }

    /// The names of the devices in the store, each once.
    pub fn device_names(&self) -> (r: Vec<String>)
        requires
            self.wf(),
        ensures
            forall|i: int| 0 <= i < r@.len() ==> self@.contains_key(#[trigger] r@[i]@),
            forall|d: Seq<char>| self@.contains_key(d) ==> exists|i: int| 0 <= i < r@.len() && r@[i]@ == d,
            forall|i: int, j: int| 0 <= i < j < r@.len() ==> r@[i]@ != r@[j]@,
    {
        proof {
            reveal(view_of);
        }
        let mut r: Vec<String> = Vec::new();
        let mut i: usize = 0;
        while i < self.devices.len()
            invariant
                i <= self.devices@.len(),
                keys_unique(self.devices@),
                r@.len() == i,
                forall|k: int| 0 <= k < i ==> #[trigger] r@[k]@ == self.devices@[k].0@,
            decreases self.devices.len() - i,
        {
            r.push(self.devices[i].0.clone());
            i = i + 1;
        }
        assert forall|k: int| 0 <= k < r@.len() implies self@.contains_key(#[trigger] r@[k]@) by {
            lemma_assoc_contains(self.devices@, r@[k]@);
        }
        assert forall|d: Seq<char>| self@.contains_key(d) implies exists|k: int|
            0 <= k < r@.len() && r@[k]@ == d by {
            lemma_assoc_contains(self.devices@, d);
            let k = choose|k: int| 0 <= k < self.devices@.len() && self.devices@[k].0@ == d;
            assert(r@[k]@ == d);
        }
        r
    }
}

} // verus!
