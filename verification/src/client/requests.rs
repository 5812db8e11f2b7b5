//! The messages a client sends to a server.
//!
//! Each function builds the message for one client request. The time a
//! request is made at is passed in as `now`.
use vstd::prelude::*;

use crate::client::{
    has_numbers, has_switches, has_texts, number_entries, number_map, perm_or_read_write,
    perm_or_rw, text_entries, text_map,
};
use crate::error::{Error, Result};
use crate::message::{DefNumber, DefSwitchVector, DefText, Message, OneSwitch};
use crate::property::{
    Property, PropertyPerm, PropertyState, PropertyValue, SwitchRule, SwitchState,
};
use crate::store::{assoc_map, keys_unique, put_entry};
use crate::strings::{append, owned, str_eq};

verus! {

/// A property with the given device and name texts, state, permission and
/// timestamp, and no label, group, timeout or elements.
pub open spec fn fresh_property(
    q: Property,
    device: Seq<char>,
    name: Seq<char>,
    state: PropertyState,
    perm: PropertyPerm,
    now: String,
) -> bool {
    &&& q.device@ == device
    &&& q.name@ == name
    &&& q.state == state
    &&& q.perm == perm
    &&& q.timestamp == now
    &&& q.label is None
    &&& q.group is None
    &&& q.timeout is None
    &&& q.elements is None
}

/// The switch states among named values, by name; values that are not
/// switches are left out, and a later value of the same name replaces an
/// earlier one.
pub open spec fn switch_values_map(vs: Seq<(String, PropertyValue)>) -> Map<Seq<char>, SwitchState>
    decreases vs.len(),
{
    if vs.len() == 0 {
        Map::empty()
    } else {
        let m = switch_values_map(vs.drop_last());
        match vs.last().1 {
            PropertyValue::Switch(s) => m.insert(vs.last().0@, s),
            _ => m,
        }
    }
}

/// Whether every named value is a switch.
pub open spec fn all_switches(vs: Seq<(String, PropertyValue)>) -> bool {
    forall|i: int| 0 <= i < vs.len() ==> #[trigger] vs[i].1 is Switch
}

/// The element property sent for one named switch value of an array.
pub open spec fn element_property(
    e: Property,
    device: Seq<char>,
    v: (String, PropertyValue),
    now: String,
) -> bool {
    &&& e.device@ == device
    &&& e.name == v.0
    &&& e.value == v.1
    &&& e.state == PropertyState::OK
    &&& e.perm == PropertyPerm::Rw
    &&& e.timestamp == now
    &&& e.label is None
    &&& e.group is None
    &&& e.timeout is None
    &&& e.elements is None
}

/// The switch value text for a boolean.
pub open spec fn on_off_text(on: bool) -> Seq<char> {
    if on {
        seq!['O', 'n']
    } else {
        seq!['O', 'f', 'f']
    }
}

/// A switch vector definition with an empty label and group, read-write
/// (or the given) permission, the OneOfMany rule and no timeout.
pub open spec fn switch_definition(
    d: DefSwitchVector,
    device: Seq<char>,
    name: Seq<char>,
    state: PropertyState,
    perm: Seq<char>,
    now: String,
) -> bool {
    &&& d.device@ == device
    &&& d.name@ == name
    &&& d.label@ == Seq::<char>::empty()
    &&& d.group@ == Seq::<char>::empty()
    &&& d.state == state
    &&& d.perm@ == perm
    &&& d.rule == SwitchRule::OneOfMany
    &&& d.timeout == 0
    &&& d.timestamp == now
}

/// The text of a properties request, of one device and property or of all,
/// as a line: `<getProperties version='1.7'`, then ` device='..'` and
/// ` name='..'` for those given, then `/>` and a newline.
pub fn get_properties_request(device: Option<&str>, property: Option<&str>) -> (r: String)
    ensures
        r@ == "<getProperties version='1.7'"@ + match device {
            Some(d) => " device='"@ + d@ + "'"@,
            None => Seq::<char>::empty(),
        } + match property {
            Some(p) => " name='"@ + p@ + "'"@,
            None => Seq::<char>::empty(),
        } + "/>\n"@,
{
    let mut message = owned("<getProperties version='1.7'");
    let ghost head = message@;
    match device {
        Some(d) => {
            append(&mut message, " device='");
            append(&mut message, d);
            append(&mut message, "'");
        },
        None => {},
    }
    let ghost with_device = message@;
    match property {
        Some(p) => {
            append(&mut message, " name='");
            append(&mut message, p);
            append(&mut message, "'");
        },
        None => {},
    }
    let ghost with_name = message@;
    append(&mut message, "/>\n");
    proof {
        match device {
            Some(d) => assert(with_device =~= head + (" device='"@ + d@ + "'"@)),
            None => assert(with_device =~= head + Seq::<char>::empty()),
        }
        match property {
            Some(p) => assert(with_name =~= with_device + (" name='"@ + p@ + "'"@)),
            None => assert(with_name =~= with_device + Seq::<char>::empty()),
        }
    }
    message
}

/// The request for properties, of one device and property or of all.
pub fn get_properties(device: Option<String>, name: Option<String>) -> (r: Message)
    ensures
        r matches Message::GetProperties { version, device: d, name: n } && version@ == "1.7"@
            && d == device && n == name,
{
    Message::get_properties(owned("1.7"), device, name)
}

/// A new value for a property: the property, idle and read-write, with the
/// value.
pub fn set_property(device: &str, name: &str, value: PropertyValue, now: String) -> (r: Message)
    ensures
        r matches Message::NewProperty(p) && fresh_property(
            p,
            device@,
            name@,
            PropertyState::Idle,
            PropertyPerm::Rw,
            now,
        ) && p.value == value,
{
    Message::NewProperty(
        Property::new(
            owned(device),
            owned(name),
            value,
            PropertyState::Idle,
            PropertyPerm::Rw,
            now,
        ),
    )
}

/// A new property with the given value, idle and read-write.
pub fn new_property(device: String, name: String, value: PropertyValue, now: String) -> (r:
    Message)
    ensures
        r matches Message::NewProperty(p) && p == (Property {
            device,
            name,
            value,
            state: PropertyState::Idle,
            perm: PropertyPerm::Rw,
            timestamp: now,
            label: None,
            group: None,
            timeout: None,
            elements: None,
        }),
{
    let prop = Property::new(device, name, value, PropertyState::Idle, PropertyPerm::Rw, now);
    Message::NewProperty(prop)
}

/// New values for an array of switches. For the connection property the
/// switches are sent as one switch vector (values that are not switches are
/// left out); otherwise each switch is sent as an element of the property,
/// and any value that is not a switch is refused.
pub fn set_property_array(
    device: &str,
    name: &str,
    values: &[(String, PropertyValue)],
    now: String,
) -> (r: Result<Message>)
    ensures
        name@ == "CONNECTION"@ ==> (r matches Ok(Message::NewProperty(p)) && fresh_property(
            p,
            device@,
            name@,
            PropertyState::OK,
            PropertyPerm::Rw,
            now,
        ) && has_switches(p, switch_values_map(values@))),
        name@ != "CONNECTION"@ && all_switches(values@) ==> (r matches Ok(Message::NewProperty(p))
            && p.device@ == device@ && p.name@ == Seq::<char>::empty() && (p.value matches PropertyValue::Text(t)
            && t@ == Seq::<char>::empty()) && p.state == PropertyState::OK && p.perm == PropertyPerm::Rw
            && p.timestamp == now && p.label is None && p.group is None && p.timeout is None && (
        p.elements matches Some(es) && es@.len() == values@.len() && forall|i: int|
            0 <= i < values@.len() ==> element_property(#[trigger] es@[i], device@, values@[i], now))),
        name@ != "CONNECTION"@ && !all_switches(values@) ==> (r matches Err(Error::Property(m))
            && m@ == "Only switch properties are supported for array values"@),
{
    proof {
        reveal_strlit("CONNECTION");
    }
    if str_eq(name, "CONNECTION") {
        let mut switches: Vec<(String, SwitchState)> = Vec::new();
        let mut i: usize = 0;
        while i < values.len()
            invariant
                i <= values@.len(),
                keys_unique(switches@),
                assoc_map(switches@) == switch_values_map(values@.take(i as int)),
            decreases values.len() - i,
        {
            proof {
                assert(values@.take(i + 1).drop_last() =~= values@.take(i as int));
            }
            match &values[i].1 {
                PropertyValue::Switch(state) => {
                    put_entry(&mut switches, values[i].0.clone(), *state);
                },
                _ => {},
            }
            i = i + 1;
        }
        assert(values@.take(values@.len() as int) =~= values@);
        let prop = Property::new(
            owned(device),
            owned(name),
            PropertyValue::SwitchVector(switches),
            PropertyState::OK,
            PropertyPerm::Rw,
            now,
        );
        return Ok(Message::NewProperty(prop));
    }
    let mut props: Vec<Property> = Vec::new();
    let mut i: usize = 0;
    while i < values.len()
        invariant
            i <= values@.len(),
            name@ != "CONNECTION"@,
            props@.len() == i,
            forall|k: int| 0 <= k < i ==> element_property(#[trigger] props@[k], device@, values@[k], now),
            forall|k: int| 0 <= k < i ==> #[trigger] values@[k].1 is Switch,
        decreases values.len() - i,
    {
        match &values[i].1 {
            PropertyValue::Switch(state) => {
                let prop = Property::new_with_value(
                    owned(device),
                    owned(name),
                    values[i].0.clone(),
                    PropertyValue::Switch(*state),
                    PropertyState::OK,
                    PropertyPerm::Rw,
                    now.clone(),
                );
                props.push(prop);
            },
            _ => {
                proof {
                    reveal_strlit("Only switch properties are supported for array values");
                }
                return Err(
                    Error::Property(owned("Only switch properties are supported for array values")),
                );
            },
        }
        i = i + 1;
    }
    let array_prop = Property::new_with_elements(
        owned(device),
        owned(name),
        props,
        PropertyState::OK,
        PropertyPerm::Rw,
        now,
    );
    Ok(Message::NewProperty(array_prop))
}

/// Sets one switch of a property: a switch vector with that switch alone.
pub fn set_switch(device: &str, name: &str, switch_name: &str, state: bool, now: String) -> (r:
    Message)
    ensures
        r matches Message::NewProperty(p) && fresh_property(
            p,
            device@,
            name@,
            PropertyState::OK,
            PropertyPerm::Rw,
            now,
        ) && (p.value matches PropertyValue::SwitchVector(es) && es@.len() == 1 && es@[0].0@
            == switch_name@ && es@[0].1 == (if state {
            SwitchState::On
        } else {
            SwitchState::Off
        })),
{
    let mut switches: Vec<(String, SwitchState)> = Vec::new();
    switches.push((owned(switch_name), SwitchState::from_bool(state)));
    let prop = Property::new(
        owned(device),
        owned(name),
        PropertyValue::SwitchVector(switches),
        PropertyState::OK,
        PropertyPerm::Rw,
        now,
    );
    Message::NewProperty(prop)
}

/// A text vector property with the given texts, state and permission (read
/// and write when the permission text names none).
pub fn set_text_vector(
    device: &str,
    name: &str,
    texts: Vec<DefText>,
    prop_state: &PropertyState,
    perm: &str,
    now: String,
) -> (r: Message)
    ensures
        r matches Message::NewProperty(p) && fresh_property(
            p,
            device@,
            name@,
            *prop_state,
            perm_or_rw(perm@),
            now,
        ) && has_texts(p, text_map(texts@)),
{
    let entries = text_entries(&texts);
    let prop = Property::new(
        owned(device),
        owned(name),
        PropertyValue::TextVector(entries),
        *prop_state,
        perm_or_read_write(perm),
        now,
    );
    Message::NewProperty(prop)
}

/// A number vector property with the given numbers (kept as their texts,
/// `0` for a text that is not a number), state and permission.
pub fn set_number_vector(
    device: &str,
    name: &str,
    numbers: Vec<DefNumber>,
    prop_state: &PropertyState,
    perm: &str,
    now: String,
) -> (r: Message)
    ensures
        r matches Message::NewProperty(p) && fresh_property(
            p,
            device@,
            name@,
            *prop_state,
            perm_or_rw(perm@),
            now,
        ) && has_numbers(p, number_map(numbers@)),
{
    let entries = number_entries(&numbers);
    let prop = Property::new(
        owned(device),
        owned(name),
        PropertyValue::NumberVector(entries),
        *prop_state,
        perm_or_read_write(perm),
        now,
    );
    Message::NewProperty(prop)
}

/// Defines a switch vector property, read-write, with the given switches.
pub fn update_switch_vector(
    device: String,
    name: String,
    prop_state: PropertyState,
    switches: Vec<OneSwitch>,
    now: String,
) -> (r: Message)
    ensures
        r matches Message::DefSwitchVector(d) && switch_definition(
            d,
            device@,
            name@,
            prop_state,
            "rw"@,
            now,
        ) && d.switches == switches,
{
    proof {
        reveal_strlit("rw");
    }
    let def_switch = DefSwitchVector {
        device,
        name,
        label: String::new(),
        group: String::new(),
        state: prop_state,
        perm: owned("rw"),
        rule: SwitchRule::OneOfMany,
        timeout: 0,
        timestamp: now,
        switches,
    };
    Message::DefSwitchVector(def_switch)
}

/// Defines a switch vector property with the given permission and switches.
pub fn define_switch_vector(
    device: String,
    name: String,
    prop_state: PropertyState,
    perm: String,
    switches: Vec<OneSwitch>,
    now: String,
) -> (r: Message)
    ensures
        r matches Message::DefSwitchVector(d) && switch_definition(
            d,
            device@,
            name@,
            prop_state,
            perm@,
            now,
        ) && d.switches == switches,
{
    let def_switch = DefSwitchVector {
        device,
        name,
        label: String::new(),
        group: String::new(),
        state: prop_state,
        perm,
        rule: SwitchRule::OneOfMany,
        timeout: 0,
        timestamp: now,
        switches,
    };
    Message::DefSwitchVector(def_switch)
}

/// Sets the states of named switches: each switch is labelled with its name
/// and is `On` or `Off`; the vector is defined read-write.
pub fn set_switch_vector(device: &str, name: &str, switches: &[(String, bool)], now: String) -> (r:
    Message)
    ensures
        r matches Message::DefSwitchVector(d) && switch_definition(
            d,
            device@,
            name@,
            PropertyState::OK,
            "rw"@,
            now,
        ) && d.switches@.len() == switches@.len() && forall|i: int|
            0 <= i < switches@.len() ==> (#[trigger] d.switches@[i]).name == switches@[i].0
                && d.switches@[i].label == switches@[i].0 && d.switches@[i].value@ == on_off_text(
                switches@[i].1,
            ),
{
    let mut ones: Vec<OneSwitch> = Vec::new();
    let mut i: usize = 0;
    while i < switches.len()
        invariant
            i <= switches@.len(),
            ones@.len() == i,
            forall|k: int|
                0 <= k < i ==> (#[trigger] ones@[k]).name == switches@[k].0 && ones@[k].label
                    == switches@[k].0 && ones@[k].value@ == on_off_text(switches@[k].1),
        decreases switches.len() - i,
    {
        proof {
            reveal_strlit("On");
            reveal_strlit("Off");
        }
        let value = if switches[i].1 {
            owned("On")
        } else {
            owned("Off")
        };
        ones.push(
            OneSwitch { name: switches[i].0.clone(), label: switches[i].0.clone(), value },
        );
        i = i + 1;
    }
    update_switch_vector(owned(device), owned(name), PropertyState::OK, ones, now)
}

} // verus!
