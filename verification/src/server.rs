//! Server-side handling of INDI requests.
//!
//! The server keeps the properties defined by devices, by device and name,
//! answers property requests from that store and applies new values sent by
//! clients.
use vstd::prelude::*;

use crate::error::{Error, Result};
use crate::property::{
    lemma_state_parse_canonical, lemma_state_text_roundtrip, state_from_text, state_text,
    switch_text, Property, PropertyState, PropertyValue, SwitchState,
};
use crate::xml::{value_has_shape, ValueShape};
use crate::store::{
    in_scope, lemma_put_then_get, put, selected, selection_complete, selection_sound, PropertyStore,
};
use crate::strings::{float_text, is_float_text, owned, str_eq, to_chars};

pub mod reader;

use reader::{first_attribute, first_content, xml_attribute, xml_content, xml_events};

verus! {

/// Default INDI server port
pub const DEFAULT_PORT: u16 = 7624;

/// The contents of the value elements found in a set-property request.
#[derive(Debug, Clone)]
pub struct ElementContents {
    /// Content of a `oneText` element
    pub text: Option<String>,
    /// Content of a `oneNumber` element
    pub number: Option<String>,
    /// Content of a `oneSwitch` element
    pub switch: Option<String>,
    /// Content of a `oneLight` element
    pub light: Option<String>,
}

/// The text a string holds, if any.
pub open spec fn text_of(o: Option<String>) -> Option<Seq<char>> {
    match o {
        Some(s) => Some(s@),
        None => None,
    }
}

/// The value a set-property request gives, from the contents of its value
/// elements: a text; else a number, when its content reads as one; else a
/// switch (`On` when the content is exactly `On`); else a light, when its
/// content names a state.
pub open spec fn requested_shape(
    text: Option<Seq<char>>,
    number: Option<Seq<char>>,
    switch: Option<Seq<char>>,
    light: Option<Seq<char>>,
) -> Option<ValueShape> {
    match text {
        Some(t) => Some(ValueShape::Text(t)),
        None => if number matches Some(n) && is_float_text(n) {
            Some(ValueShape::Number(number->0))
        } else {
            match switch {
                Some(s) => Some(
                    ValueShape::Switch(
                        if s == seq!['O', 'n'] {
                            SwitchState::On
                        } else {
                            SwitchState::Off
                        },
                    ),
                ),
                None => match light {
                    Some(l) => match state_from_text(l) {
                        Some(st) => Some(ValueShape::Light(st)),
                        None => None,
                    },
                    None => None,
                },
            }
        },
    }
}

/// The value the contents of a set-property request give.
pub open spec fn contents_shape(c: ElementContents) -> Option<ValueShape> {
    requested_shape(text_of(c.text), text_of(c.number), text_of(c.switch), text_of(c.light))
}

/// Which element of a request gives the value: a `oneText` content is the
/// text as given; otherwise a `oneNumber` content that reads as a number is
/// kept as its text.
pub proof fn lemma_requested_text_and_number(
    text: Option<Seq<char>>,
    number: Option<Seq<char>>,
    switch: Option<Seq<char>>,
    light: Option<Seq<char>>,
)
    ensures
        text matches Some(t) ==> requested_shape(text, number, switch, light) == Some(
            ValueShape::Text(t),
        ),
        text is None && number is Some && is_float_text(number->0) ==> requested_shape(
            text,
            number,
            switch,
            light,
        ) == Some(ValueShape::Number(number->0)),
{
}

/// A `oneSwitch` content (with no text and no readable number before it)
/// sets a switch, On exactly when the content is the protocol text of On;
/// the protocol text of either state sets that state.
pub proof fn lemma_requested_switch(
    number: Option<Seq<char>>,
    s: Seq<char>,
    light: Option<Seq<char>>,
)
    requires
        number is None || !is_float_text(number->0),
    ensures
        requested_shape(None, number, Some(s), light) matches Some(ValueShape::Switch(st)) && (st
            == SwitchState::On <==> s == switch_text(SwitchState::On)),
        forall|st: SwitchState|
            s == #[trigger] switch_text(st) ==> requested_shape(None, number, Some(s), light) == Some(
                ValueShape::Switch(st),
            ),
{
    assert(switch_text(SwitchState::Off) != switch_text(SwitchState::On)) by {
        assert(switch_text(SwitchState::Off).len() != switch_text(SwitchState::On).len());
    }
}

/// A `oneLight` content (with nothing before it) sets a light exactly when
/// it is the protocol text of a state, and then to that state.
pub proof fn lemma_requested_light(number: Option<Seq<char>>, l: Seq<char>)
    requires
        number is None || !is_float_text(number->0),
    ensures
        forall|st: PropertyState|
            l == #[trigger] state_text(st) ==> requested_shape(None, number, None, Some(l)) == Some(
                ValueShape::Light(st),
            ),
        requested_shape(None, number, None, Some(l)) matches Some(ValueShape::Light(st)) ==> l
            == state_text(st),
        requested_shape(None, number, None, Some(l)) is Some ==> requested_shape(
            None,
            number,
            None,
            Some(l),
        )->0 is Light,
{
    lemma_state_parse_canonical(l);
    assert forall|st: PropertyState|
        l == #[trigger] state_text(st) implies requested_shape(None, number, None, Some(l)) == Some(
            ValueShape::Light(st),
        ) by {
        lemma_state_text_roundtrip(st);
    }
}

/// How a set-property request with the given device and property names and
/// requested value changes the store, and what it answers: the names are
/// required; a property the server does not have is left alone; one it has
/// needs a value, which it then takes.
pub open spec fn set_outcome(
    old: Map<Seq<char>, Map<Seq<char>, Property>>,
    device: Option<Seq<char>>,
    name: Option<Seq<char>>,
    value: Option<ValueShape>,
    new: Map<Seq<char>, Map<Seq<char>, Property>>,
    r: Result<()>,
) -> bool {
    match (device, name) {
        (None, _) => r matches Err(Error::ParseError(m)) && m@ == "Missing device attribute"@ && new
            == old,
        (Some(_), None) => r matches Err(Error::ParseError(m)) && m@ == "Missing name attribute"@
            && new == old,
        (Some(d), Some(n)) => if !(old.contains_key(d) && old[d].contains_key(n)) {
            r is Ok && new == old
        } else {
            match value {
                None => r matches Err(Error::ParseError(m)) && m@ == "Missing property value"@ && new
                    == old,
                Some(sh) => {
                    let q = new[d][n];
                    &&& r is Ok
                    &&& new.contains_key(d) && new[d].contains_key(n)
                    &&& new == old.insert(d, old[d].insert(n, q))
                    &&& q == (Property { value: q.value, ..old[d][n] })
                    &&& value_has_shape(q.value, sh)
                },
            }
        },
    }
}

/// Server state
#[derive(Debug)]
pub struct ServerState {
    /// Device properties
    pub properties: PropertyStore,
}

impl Default for ServerState {
    fn default() -> (r: Self)
        ensures
            r.properties.wf(),
            r.properties@ == Map::<Seq<char>, Map<Seq<char>, Property>>::empty(),
    {
        ServerState { properties: PropertyStore::new() }
    }
}

/// The value a set-property request gives (see `requested_shape`).
fn choose_value(contents: ElementContents) -> (r: Option<PropertyValue>)
    ensures
        match contents_shape(contents) {
            None => r is None,
            Some(sh) => r matches Some(v) && value_has_shape(v, sh),
        },
{
    match contents.text {
        Some(t) => {
            return Some(PropertyValue::Text(t));
        },
        None => {},
    }
    match contents.number {
        Some(n) => {
            let cs = to_chars(n.as_str());
            if float_text(cs.as_slice()) {
                return Some(PropertyValue::Number(n, None));
            }
        },
        None => {},
    }
    match contents.switch {
        Some(s) => {
            proof {
                reveal_strlit("On");
                assert("On"@ =~= seq!['O', 'n']);
            }
            let on = str_eq(s.as_str(), "On");
            return Some(PropertyValue::Switch(SwitchState::from_bool(on)));
        },
        None => {},
    }
    match contents.light {
        Some(l) => match PropertyState::parse_str(l.as_str()) {
            Ok(st) => Some(PropertyValue::Light(st)),
            Err(_) => None,
        },
        None => None,
    }
}

impl ServerState {
    /// Handles a property request: the properties to define for the client,
    /// those of the device its `device` attribute names, or of all devices
    /// when it has none or names `*`.
    pub fn handle_get_properties(&self, xml: &str) -> (r: Vec<&Property>)
        requires
            self.properties.wf(),
        ensures
            match first_attribute(xml_events(xml@), "device"@) {
                Some(d) if d != seq!['*'] => selection_sound(self.properties@, Some(d), r@)
                    && selection_complete(self.properties@, Some(d), r@),
                _ => selection_sound(self.properties@, None, r@) && selection_complete(
                    self.properties@,
                    None,
                    r@,
                ),
            },
    {
        proof {
            reveal_strlit("*");
            assert("*"@ =~= seq!['*']);
        }
        match xml_attribute(xml, "device") {
            Some(d) => {
                if str_eq(d.as_str(), "*") {
                    self.properties.select(None)
                } else {
                    self.properties.select(Some(d.as_str()))
                }
            },
            None => self.properties.select(None),
        }
    }

    /// Handles a set-property request given as XML: its `device` and `name`
    /// attributes name the property, and the contents of its `oneText`,
    /// `oneNumber`, `oneSwitch` and `oneLight` elements give the value (see
    /// `set_outcome` and `requested_shape`).
    pub fn handle_set_property(&mut self, xml: &str) -> (r: Result<()>)
        requires
            old(self).properties.wf(),
        ensures
            final(self).properties.wf(),
            ({
                let events = xml_events(xml@);
                set_outcome(
                    old(self).properties@,
                    first_attribute(events, "device"@),
                    first_attribute(events, "name"@),
                    requested_shape(
                        first_content(events, "oneText"@),
                        first_content(events, "oneNumber"@),
                        first_content(events, "oneSwitch"@),
                        first_content(events, "oneLight"@),
                    ),
                    final(self).properties@,
                    r,
                )
            }),
    {
        let contents = ElementContents {
            text: xml_content(xml, "oneText"),
            number: xml_content(xml, "oneNumber"),
            switch: xml_content(xml, "oneSwitch"),
            light: xml_content(xml, "oneLight"),
        };
        let device = xml_attribute(xml, "device");
        let name = xml_attribute(xml, "name");
        self.set_property_value(device, name, contents)
    }

    /// Applies a set-property request: the named property, when the server
    /// has it, takes the value the request's element contents give (see
    /// `set_outcome`).
    pub fn set_property_value(
        &mut self,
        device: Option<String>,
        name: Option<String>,
        contents: ElementContents,
    ) -> (r: Result<()>)
        requires
            old(self).properties.wf(),
        ensures
            final(self).properties.wf(),
            set_outcome(
                old(self).properties@,
                text_of(device),
                text_of(name),
                contents_shape(contents),
                final(self).properties@,
                r,
            ),
    {
        let device = match device {
            Some(d) => d,
            None => {
                proof {
                    reveal_strlit("Missing device attribute");
                }
                return Err(Error::ParseError(owned("Missing device attribute")));
            },
        };
        let name = match name {
            Some(n) => n,
            None => {
                proof {
                    reveal_strlit("Missing name attribute");
                }
                return Err(Error::ParseError(owned("Missing name attribute")));
            },
        };
        match self.properties.get(device.as_str(), name.as_str()) {
            None => Ok(()),
            Some(_) => {
                match choose_value(contents) {
                    Some(value) => {
                        let ghost v = value;
                        self.properties.set_value(device.as_str(), name.as_str(), value);
                        assert(self.properties@[device@][name@] == Property { value: v, ..old(self).properties@[device@][name@] });
                        Ok(())
                    },
                    None => {
                        proof {
                            reveal_strlit("Missing property value");
                        }
                        Err(Error::ParseError(owned("Missing property value")))
                    },
                }
            },
        }
    }

    /// Handles a new property: it is stored under its device and name.
    pub fn handle_new_property(&mut self, property: Property) -> (r: Result<()>)
        requires
            old(self).properties.wf(),
        ensures
            r is Ok,
            final(self).properties.wf(),
            final(self).properties@ == put(old(self).properties@, property),
    {
        self.properties.insert(property);
        Ok(())
    }
}

/// A property stored by a new-property message is among the properties a
/// request lists for its device, or for all devices.
pub proof fn lemma_new_property_listed(
    m: Map<Seq<char>, Map<Seq<char>, Property>>,
    p: Property,
    device: Option<Seq<char>>,
    r: Seq<&Property>,
)
    requires
        in_scope(device, p.device@),
        selection_complete(put(m, p), device, r),
    ensures
        selected(r, p),
{
    lemma_put_then_get(m, p);
    assert(put(m, p)[p.device@][p.name@] == p);
}

} // verus!
