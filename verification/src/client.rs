//! INDI client state.
//!
//! The client keeps the properties that servers define, by device and name,
//! and updates them from the messages it receives. The messages it sends are
//! built in `requests`; `scan` finds where a received XML message is complete.
use vstd::prelude::*;

use crate::error::Result;
use crate::message::{DefNumber, DefText, Message, OneSwitch};
use crate::property::timestamp::generate;
use crate::property::{
    perm_from_text, switch_text, Property, PropertyPerm, PropertyState, PropertyValue, SwitchState,
};
use crate::store::{
    assoc_map, keys_unique, lemma_put_then_get, lemma_remove_device_after_put, put, put_entry,
    PropertyStore,
};
pub mod config;
pub mod requests;
pub mod scan;
pub mod state;

use crate::strings::{float_text, is_float_text, owned, str_eq, to_chars, trim, trimmed};


verus! {

/// A view of a property store: device name to property name to property.
pub type StoreView = Map<Seq<char>, Map<Seq<char>, Property>>;

/// Client configuration
#[derive(Debug, Clone)]
pub struct ClientConfig {
    /// Server address
    pub server_addr: String,
}

/// The switch state a switch text denotes when read leniently: `On` once
/// surrounding white space is trimmed, `Off` otherwise.
pub open spec fn switch_on_text(v: Seq<char>) -> SwitchState {
    if trim(v) == seq!['O', 'n'] {
        SwitchState::On
    } else {
        SwitchState::Off
    }
}

/// The switch state a switch text denotes when parsed strictly: `On` only
/// for exactly `On`, `Off` otherwise.
pub open spec fn switch_parsed_text(v: Seq<char>) -> SwitchState {
    if v == seq!['O', 'n'] {
        SwitchState::On
    } else {
        SwitchState::Off
    }
}

/// Switch states by name, leniently read; a later switch of the same name
/// replaces an earlier one.
pub open spec fn switch_map(ss: Seq<OneSwitch>) -> Map<Seq<char>, SwitchState>
    decreases ss.len(),
{
    if ss.len() == 0 {
        Map::empty()
    } else {
        switch_map(ss.drop_last()).insert(ss.last().name@, switch_on_text(ss.last().value@))
    }
}

/// Switch states by name, strictly parsed; a later switch of the same name
/// replaces an earlier one.
pub open spec fn parsed_switch_map(ss: Seq<OneSwitch>) -> Map<Seq<char>, SwitchState>
    decreases ss.len(),
{
    if ss.len() == 0 {
        Map::empty()
    } else {
        parsed_switch_map(ss.drop_last()).insert(
            ss.last().name@,
            switch_parsed_text(ss.last().value@),
        )
    }
}

/// Text values by name; a later text of the same name replaces an earlier one.
pub open spec fn text_map(ts: Seq<DefText>) -> Map<Seq<char>, String>
    decreases ts.len(),
{
    if ts.len() == 0 {
        Map::empty()
    } else {
        text_map(ts.drop_last()).insert(ts.last().name@, ts.last().value)
    }
}

/// The text a number value is kept as: the text itself when it reads as a
/// floating-point number, `0` otherwise.
pub open spec fn number_text(v: Seq<char>) -> Seq<char> {
    if is_float_text(v) {
        v
    } else {
        seq!['0']
    }
}

/// Number texts by name; a later number of the same name replaces an
/// earlier one.
pub open spec fn number_map(ns: Seq<DefNumber>) -> Map<Seq<char>, Seq<char>>
    decreases ns.len(),
{
    if ns.len() == 0 {
        Map::empty()
    } else {
        number_map(ns.drop_last()).insert(ns.last().name@, number_text(ns.last().value@))
    }
}

/// Every number name is stored, and a name's stored text comes from its
/// last number: that number's value text itself whenever it reads as a
/// floating-point number, whatever its sign, and `0` only when it does not.
pub proof fn lemma_number_map_values(ns: Seq<DefNumber>, i: int)
    requires
        0 <= i < ns.len(),
        forall|j: int| i < j < ns.len() ==> #[trigger] ns[j].name@ != ns[i].name@,
    ensures
        number_map(ns).contains_key(ns[i].name@),
        is_float_text(ns[i].value@) ==> number_map(ns)[ns[i].name@] == ns[i].value@,
        !is_float_text(ns[i].value@) ==> number_map(ns)[ns[i].name@] == seq!['0'],
    decreases ns.len(),
{
    if i < ns.len() - 1 {
        let p = ns.drop_last();
        assert forall|j: int| i < j < p.len() implies #[trigger] p[j].name@ != p[i].name@ by {
            assert(p[j] == ns[j]);
        }
        lemma_number_map_values(p, i);
        assert(ns.last() == ns[ns.len() - 1]);
    }
}

/// A switch name's state comes from its last switch: On exactly when that
/// switch's value text, trimmed of white space, is the protocol text of On
/// (read leniently), or when the text itself is (parsed strictly).
pub proof fn lemma_switch_map_values(ss: Seq<OneSwitch>, i: int)
    requires
        0 <= i < ss.len(),
        forall|j: int| i < j < ss.len() ==> #[trigger] ss[j].name@ != ss[i].name@,
    ensures
        switch_map(ss).contains_key(ss[i].name@),
        parsed_switch_map(ss).contains_key(ss[i].name@),
        switch_map(ss)[ss[i].name@] == SwitchState::On <==> trim(ss[i].value@) == switch_text(
            SwitchState::On,
        ),
        parsed_switch_map(ss)[ss[i].name@] == SwitchState::On <==> ss[i].value@ == switch_text(
            SwitchState::On,
        ),
    decreases ss.len(),
{
    if i < ss.len() - 1 {
        let p = ss.drop_last();
        assert forall|j: int| i < j < p.len() implies #[trigger] p[j].name@ != p[i].name@ by {
            assert(p[j] == ss[j]);
        }
        lemma_switch_map_values(p, i);
        assert(ss.last() == ss[ss.len() - 1]);
    }
}

/// A text name's value is the value of its last text, as given.
pub proof fn lemma_text_map_values(ts: Seq<DefText>, i: int)
    requires
        0 <= i < ts.len(),
        forall|j: int| i < j < ts.len() ==> #[trigger] ts[j].name@ != ts[i].name@,
    ensures
        text_map(ts).contains_key(ts[i].name@),
        text_map(ts)[ts[i].name@] == ts[i].value,
    decreases ts.len(),
{
    if i < ts.len() - 1 {
        let p = ts.drop_last();
        assert forall|j: int| i < j < p.len() implies #[trigger] p[j].name@ != p[i].name@ by {
            assert(p[j] == ts[j]);
        }
        lemma_text_map_values(p, i);
        assert(ts.last() == ts[ts.len() - 1]);
    }
}

/// The names a number map holds are exactly the names of the numbers.
pub proof fn lemma_number_map_names(ns: Seq<DefNumber>, k: Seq<char>)
    ensures
        number_map(ns).contains_key(k) <==> exists|j: int| 0 <= j < ns.len() && #[trigger] ns[j].name@ == k,
    decreases ns.len(),
{
    if ns.len() > 0 {
        let p = ns.drop_last();
        lemma_number_map_names(p, k);
        if number_map(ns).contains_key(k) && k != ns.last().name@ {
            let j = choose|j: int| 0 <= j < p.len() && #[trigger] p[j].name@ == k;
            assert(ns[j] == p[j]);
        }
        if exists|j: int| 0 <= j < ns.len() && #[trigger] ns[j].name@ == k {
            let j = choose|j: int| 0 <= j < ns.len() && #[trigger] ns[j].name@ == k;
            if j < ns.len() - 1 {
                assert(p[j] == ns[j]);
            }
        }
    }
}

/// The permission a permission text gives, read-write when it names none.
pub open spec fn perm_or_rw(s: Seq<char>) -> PropertyPerm {
    match perm_from_text(s) {
        Some(p) => p,
        None => PropertyPerm::Rw,
    }
}

/// The texts of a text-valued association list's values.
pub open spec fn value_texts(m: Map<Seq<char>, String>) -> Map<Seq<char>, Seq<char>> {
    m.map_values(|s: String| s@)
}

/// A property with no label, group, timeout or elements.
pub open spec fn plain_property(
    q: Property,
    device: String,
    name: String,
    state: PropertyState,
    perm: PropertyPerm,
    timestamp: String,
) -> bool {
    &&& q.device == device
    &&& q.name == name
    &&& q.state == state
    &&& q.perm == perm
    &&& q.timestamp == timestamp
    &&& q.label is None
    &&& q.group is None
    &&& q.timeout is None
    &&& q.elements is None
}

/// A property holding a switch vector with unique names and the given map.
pub open spec fn has_switches(q: Property, m: Map<Seq<char>, SwitchState>) -> bool {
    q.value matches PropertyValue::SwitchVector(es) && keys_unique(es@) && assoc_map(es@) == m
}

/// A property holding a text vector with unique names and the given map.
pub open spec fn has_texts(q: Property, m: Map<Seq<char>, String>) -> bool {
    q.value matches PropertyValue::TextVector(es) && keys_unique(es@) && assoc_map(es@) == m
}

/// A property holding a number vector with unique names and the given
/// number texts.
pub open spec fn has_numbers(q: Property, m: Map<Seq<char>, Seq<char>>) -> bool {
    q.value matches PropertyValue::NumberVector(es) && keys_unique(es@) && value_texts(
        assoc_map(es@),
    ) == m
}

/// The property stored under its device and name in a store view.
pub open spec fn stored(m: StoreView, device: Seq<char>, name: Seq<char>) -> Property {
    m[device][name]
}

/// How a client's store changes on a received message, given the time of
/// reception: definitions put a property under its device and name,
/// deletions remove the device, and other messages change nothing.
pub open spec fn updated(old: StoreView, message: Message, now: String, new: StoreView) -> bool {
    match message {
        Message::DefProperty(p) => new == put(old, p),
        Message::DefSwitchVector(d) => {
            let q = stored(new, d.device@, d.name@);
            &&& new.contains_key(d.device@) && new[d.device@].contains_key(d.name@)
            &&& new == put(old, q)
            &&& plain_property(q, d.device, d.name, d.state, perm_or_rw(d.perm@), d.timestamp)
            &&& has_switches(q, switch_map(d.switches@))
        },
        Message::DefTextVector { device, name, state, perm, texts, .. } => {
            let q = stored(new, device@, name@);
            &&& new.contains_key(device@) && new[device@].contains_key(name@)
            &&& new == put(old, q)
            &&& plain_property(q, device, name, state, perm_or_rw(perm@), now)
            &&& has_texts(q, text_map(texts@))
        },
        Message::DefNumberVector { device, name, state, perm, numbers, .. } => {
            let q = stored(new, device@, name@);
            &&& new.contains_key(device@) && new[device@].contains_key(name@)
            &&& new == put(old, q)
            &&& plain_property(q, device, name, state, perm_or_rw(perm@), now)
            &&& has_numbers(q, number_map(numbers@))
        },
        Message::DelProperty { device } => new == old.remove(device@),
        _ => new == old,
    }
}

/// The device a message defines a property on, if it is a definition.
pub open spec fn defined_device(message: Message) -> Option<Seq<char>> {
    match message {
        Message::DefProperty(p) => Some(p.device@),
        Message::DefSwitchVector(d) => Some(d.device@),
        Message::DefTextVector { device, .. } => Some(device@),
        Message::DefNumberVector { device, .. } => Some(device@),
        _ => None,
    }
}

/// A property defined by a received message reads back from the store
/// under its device and name.
pub proof fn lemma_defined_property_reads_back(
    old: StoreView,
    p: Property,
    now: String,
    new: StoreView,
)
    requires
        updated(old, Message::DefProperty(p), now, new),
    ensures
        new.contains_key(p.device@),
        new[p.device@].contains_key(p.name@),
        new[p.device@][p.name@] == p,
{
    lemma_put_then_get(old, p);
}

/// Deleting a device undoes a definition received on it just before: the
/// store is as it was, without that device.
pub proof fn lemma_delete_undoes_definition(
    m0: StoreView,
    message: Message,
    t1: String,
    m1: StoreView,
    device: String,
    t2: String,
    m2: StoreView,
)
    requires
        defined_device(message) == Some(device@),
        updated(m0, message, t1, m1),
        updated(m1, Message::DelProperty { device }, t2, m2),
    ensures
        m2 == m0.remove(device@),
{
    match message {
        Message::DefProperty(p) => {
            lemma_remove_device_after_put(m0, p);
        },
        Message::DefSwitchVector(d) => {
            lemma_remove_device_after_put(m0, stored(m1, d.device@, d.name@));
        },
        Message::DefTextVector { device: dv, name, .. } => {
            lemma_remove_device_after_put(m0, stored(m1, dv@, name@));
        },
        Message::DefNumberVector { device: dv, name, .. } => {
            lemma_remove_device_after_put(m0, stored(m1, dv@, name@));
        },
        _ => {},
    }
}

/// Whether a text is `On` once surrounding white space is trimmed.
fn trimmed_on(v: &String) -> (r: bool)
    ensures
        r == (trim(v@) == seq!['O', 'n']),
{
    let c = to_chars(v.as_str());
    let t = trimmed(&c, 0, c.len());
    assert(c@.subrange(0, c@.len() as int) =~= v@);
    proof {
        reveal_strlit("On");
        assert("On"@ =~= seq!['O', 'n']);
    }
    str_eq(t.as_str(), "On")
}

/// The permission a text names, read-write when it names none.
pub fn perm_or_read_write(s: &str) -> (r: PropertyPerm)
    ensures
        r == perm_or_rw(s@),
{
    match PropertyPerm::parse_str(s) {
        Ok(p) => p,
        Err(_) => PropertyPerm::Rw,
    }
}

/// The switch entries of switch elements, read leniently, one per name.
pub fn switch_entries(switches: &Vec<OneSwitch>) -> (r: Vec<(String, SwitchState)>)
    ensures
        keys_unique(r@),
        assoc_map(r@) == switch_map(switches@),
{
    let mut r: Vec<(String, SwitchState)> = Vec::new();
    let mut i: usize = 0;
    while i < switches.len()
        invariant
            i <= switches@.len(),
            keys_unique(r@),
            assoc_map(r@) == switch_map(switches@.take(i as int)),
        decreases switches.len() - i,
    {
        let state = if trimmed_on(&switches[i].value) {
            SwitchState::On
        } else {
            SwitchState::Off
        };
        put_entry(&mut r, switches[i].name.clone(), state);
        proof {
            assert(switches@.take(i + 1).drop_last() =~= switches@.take(i as int));
        }
        i = i + 1;
    }
    assert(switches@.take(switches@.len() as int) =~= switches@);
    r
}

/// The switch entries of switch elements, strictly parsed, one per name.
pub fn parsed_switch_entries(switches: &Vec<OneSwitch>) -> (r: Vec<(String, SwitchState)>)
    ensures
        keys_unique(r@),
        assoc_map(r@) == parsed_switch_map(switches@),
{
    let mut r: Vec<(String, SwitchState)> = Vec::new();
    let mut i: usize = 0;
    while i < switches.len()
        invariant
            i <= switches@.len(),
            keys_unique(r@),
            assoc_map(r@) == parsed_switch_map(switches@.take(i as int)),
        decreases switches.len() - i,
    {
        let state = match SwitchState::parse_str(switches[i].value.as_str()) {
            Ok(s) => s,
            Err(_) => SwitchState::Off,
        };
        proof {
            reveal_strlit("On");
            reveal_strlit("Off");
            assert(state == switch_parsed_text(switches@[i as int].value@));
        }
        put_entry(&mut r, switches[i].name.clone(), state);
        proof {
            assert(switches@.take(i + 1).drop_last() =~= switches@.take(i as int));
        }
        i = i + 1;
    }
    assert(switches@.take(switches@.len() as int) =~= switches@);
    r
}

/// The text entries of text elements, one per name.
pub fn text_entries(texts: &Vec<DefText>) -> (r: Vec<(String, String)>)
    ensures
        keys_unique(r@),
        assoc_map(r@) == text_map(texts@),
{
    let mut r: Vec<(String, String)> = Vec::new();
    let mut i: usize = 0;
    while i < texts.len()
        invariant
            i <= texts@.len(),
            keys_unique(r@),
            assoc_map(r@) == text_map(texts@.take(i as int)),
        decreases texts.len() - i,
    {
        put_entry(&mut r, texts[i].name.clone(), texts[i].value.clone());
        proof {
            assert(texts@.take(i + 1).drop_last() =~= texts@.take(i as int));
        }
        i = i + 1;
    }
    assert(texts@.take(texts@.len() as int) =~= texts@);
    r
}

/// The number entries of number elements, one per name; a value that does
/// not read as a floating-point number is kept as `0`.
pub fn number_entries(numbers: &Vec<DefNumber>) -> (r: Vec<(String, String)>)
    ensures
        keys_unique(r@),
        value_texts(assoc_map(r@)) == number_map(numbers@),
{
    let mut r: Vec<(String, String)> = Vec::new();
    let mut i: usize = 0;
    while i < numbers.len()
        invariant
            i <= numbers@.len(),
            keys_unique(r@),
            value_texts(assoc_map(r@)) == number_map(numbers@.take(i as int)),
        decreases numbers.len() - i,
    {
        let c = to_chars(numbers[i].value.as_str());
        let text = if float_text(c.as_slice()) {
            numbers[i].value.clone()
        } else {
            proof {
                reveal_strlit("0");
            }
            owned("0")
        };
        assert(text@ == number_text(numbers@[i as int].value@));
        let ghost before = assoc_map(r@);
        put_entry(&mut r, numbers[i].name.clone(), text);
        proof {
            assert(numbers@.take(i + 1).drop_last() =~= numbers@.take(i as int));
            assert(value_texts(assoc_map(r@)) =~= value_texts(before).insert(
                numbers@[i as int].name@,
                text@,
            ));
        }
        i = i + 1;
    }
    assert(numbers@.take(numbers@.len() as int) =~= numbers@);
    r
}

/// Client state
#[derive(Debug)]
pub struct ClientState {
    /// Connected devices and their properties
    pub devices: PropertyStore,
}

impl Default for ClientState {
    fn default() -> (r: Self)
        ensures
            r.devices.wf(),
            r.devices@ == Map::<Seq<char>, Map<Seq<char>, Property>>::empty(),
    {
        ClientState::new()
    }
}

impl ClientState {
    /// Create new client state
    pub fn new() -> (r: Self)
        ensures
            r.devices.wf(),
            r.devices@ == Map::<Seq<char>, Map<Seq<char>, Property>>::empty(),
    {
        ClientState { devices: PropertyStore::new() }
    }

    /// Update state with a message received at the given time (see
    /// `updated`).
    pub fn update_at(&mut self, message: Message, now: String)
        requires
            old(self).devices.wf(),
        ensures
            final(self).devices.wf(),
            updated(old(self).devices@, message, now, final(self).devices@),
    {
        match message {
            Message::DefProperty(prop) => {
                self.devices.insert(prop);
            },
            Message::DefSwitchVector(def_switch) => {
                let entries = switch_entries(&def_switch.switches);
                let perm = perm_or_read_write(def_switch.perm.as_str());
                let prop = Property::new(
                    def_switch.device,
                    def_switch.name,
                    PropertyValue::SwitchVector(entries),
                    def_switch.state,
                    perm,
                    def_switch.timestamp,
                );
                let ghost q = prop;
                self.devices.insert(prop);
                assert(put(old(self).devices@, q)[q.device@][q.name@] == q);
            },
            Message::DefTextVector { device, name, state, perm, texts, .. } => {
                let entries = text_entries(&texts);
                let perm = perm_or_read_write(perm.as_str());
                let prop = Property::new(
                    device,
                    name,
                    PropertyValue::TextVector(entries),
                    state,
                    perm,
                    now,
                );
                let ghost q = prop;
                self.devices.insert(prop);
                assert(put(old(self).devices@, q)[q.device@][q.name@] == q);
            },
            Message::DefNumberVector { device, name, state, perm, numbers, .. } => {
                let entries = number_entries(&numbers);
                let perm = perm_or_read_write(perm.as_str());
                let prop = Property::new(
                    device,
                    name,
                    PropertyValue::NumberVector(entries),
                    state,
                    perm,
                    now,
                );
                let ghost q = prop;
                self.devices.insert(prop);
                assert(put(old(self).devices@, q)[q.device@][q.name@] == q);
            },
            Message::DelProperty { device } => {
                self.devices.remove_device(device.as_str());
            },
            _ => {},
        }
    }

    /// Update state with a message, stamping definitions that carry no time
    /// of their own with the current time.
    pub fn update(&mut self, message: Message)
        requires
            old(self).devices.wf(),
        ensures
            final(self).devices.wf(),
            exists|now: String| updated(old(self).devices@, message, now, final(self).devices@),
    {
        let now = generate();
        let ghost t = now;
        self.update_at(message, now);
        assert(updated(old(self).devices@, message, t, self.devices@));
    }

    /// Handles a device message: a switch vector definition puts a property
    /// whose switch states are parsed strictly (`Off` when a state is not
    /// `On` or `Off`); other messages change nothing.
    pub fn handle_device_message(&mut self, message: Message) -> (r: Result<()>)
        requires
            old(self).devices.wf(),
        ensures
            final(self).devices.wf(),
            r is Ok,
            match message {
                Message::DefSwitchVector(d) => {
                    let new = final(self).devices@;
                    let q = stored(new, d.device@, d.name@);
                    &&& new.contains_key(d.device@) && new[d.device@].contains_key(d.name@)
                    &&& new == put(old(self).devices@, q)
                    &&& plain_property(q, d.device, d.name, d.state, perm_or_rw(d.perm@), d.timestamp)
                    &&& has_switches(q, parsed_switch_map(d.switches@))
                },
                _ => final(self).devices@ == old(self).devices@,
            },
    {
        match message {
            Message::DefSwitchVector(def_switch) => {
                let entries = parsed_switch_entries(&def_switch.switches);
                let perm = perm_or_read_write(def_switch.perm.as_str());
                let prop = Property::new(
                    def_switch.device,
                    def_switch.name,
                    PropertyValue::SwitchVector(entries),
                    def_switch.state,
                    perm,
                    def_switch.timestamp,
                );
                let ghost q = prop;
                self.devices.insert(prop);
                assert(put(old(self).devices@, q)[q.device@][q.name@] == q);
                Ok(())
            },
            _ => Ok(()),
        }
    }
}

} // verus!
