//! Client state built from property vector definitions.
use vstd::prelude::*;

use crate::error::Result;
use crate::message::definition::{DefNumber, DefNumberVector, DefSwitch, DefSwitchVector, DefText, DefTextVector};
use crate::property::{Property, PropertyValue, SwitchState};
use crate::store::{drop_property, put, PropertyStore};
use crate::strings::{append, owned, push_char};

verus! {

/// The values of text elements joined by commas.
pub open spec fn joined_texts(ts: Seq<DefText>) -> Seq<char>
    decreases ts.len(),
{
    if ts.len() == 0 {
        Seq::empty()
    } else if ts.len() == 1 {
        ts[0].value@
    } else {
        joined_texts(ts.drop_last()) + seq![','] + ts.last().value@
    }
}

/// The text of the first number, or `0` when there is none.
pub open spec fn first_number(ns: Seq<DefNumber>) -> Seq<char> {
    if ns.len() == 0 {
        seq!['0']
    } else {
        ns[0].value@
    }
}

/// The state of the first switch, or `Off` when there is none.
pub open spec fn first_switch(ss: Seq<DefSwitch>) -> SwitchState {
    if ss.len() == 0 {
        SwitchState::Off
    } else {
        ss[0].state
    }
}

/// Client state
#[derive(Debug)]
pub struct ClientState {
    /// Properties by device and name
    pub properties: PropertyStore,
}

impl Default for ClientState {
    fn default() -> (r: Self)
        ensures
            r.properties.wf(),
            r.properties@ == Map::<Seq<char>, Map<Seq<char>, Property>>::empty(),
    {
        ClientState::new()
    }
}

impl ClientState {
    /// Create a new client state
    pub fn new() -> (r: Self)
        ensures
            r.properties.wf(),
            r.properties@ == Map::<Seq<char>, Map<Seq<char>, Property>>::empty(),
    {
        ClientState { properties: PropertyStore::new() }
    }

    /// Get a property by device and name
    pub fn get_property(&self, device: &str, name: &str) -> (r: Option<&Property>)
        requires
            self.properties.wf(),
        ensures
            match r {
                Some(p) => self.properties@.contains_key(device@)
                    && self.properties@[device@].contains_key(name@) && *p
                    == self.properties@[device@][name@],
                None => !(self.properties@.contains_key(device@)
                    && self.properties@[device@].contains_key(name@)),
            },
    {
        self.properties.get(device, name)
    }

    /// Update state with a text vector definition: the property's value is
    /// the texts joined by commas.
    pub fn update_text_vector(&mut self, prop: DefTextVector) -> (r: Result<()>)
        requires
            old(self).properties.wf(),
        ensures
            r is Ok,
            final(self).properties.wf(),
            exists|q: Property|
                #![trigger put(old(self).properties@, q)]
                final(self).properties@ == put(old(self).properties@, q) && q.device == prop.device
                    && q.name == prop.name && (q.value matches PropertyValue::Text(t) && t@
                    == joined_texts(prop.texts@)) && q.state == prop.state && q.perm == prop.perm
                    && q.timestamp == prop.timestamp && q.label is None && q.group is None
                    && q.timeout is None && q.elements is None,
    {
        let mut value = String::new();
        let mut i: usize = 0;
        while i < prop.texts.len()
            invariant
                i <= prop.texts@.len(),
                value@ == joined_texts(prop.texts@.take(i as int)),
            decreases prop.texts.len() - i,
        {
            proof {
                assert(prop.texts@.take(i + 1).drop_last() =~= prop.texts@.take(i as int));
            }
            if i > 0 {
                push_char(&mut value, ',');
            }
            append(&mut value, prop.texts[i].value.as_str());
            proof {
                if i == 0 {
                    assert(value@ =~= prop.texts@.take(1)[0].value@);
                }
            }
            i = i + 1;
        }
        assert(prop.texts@.take(prop.texts@.len() as int) =~= prop.texts@);
        let property = Property::new(
            prop.device,
            prop.name,
            PropertyValue::Text(value),
            prop.state,
            prop.perm,
            prop.timestamp,
        );
        self.update_property(property);
        Ok(())
    }

    /// Update state with a number vector definition: the property's value is
    /// the first number (kept as its text), or `0` when there is none. Every
    /// number's text must read as a floating-point number.
    pub fn update_number_vector(&mut self, prop: DefNumberVector) -> (r: Result<()>)
        requires
            old(self).properties.wf(),
            forall|i: int| 0 <= i < prop.numbers@.len() ==> crate::strings::is_float_text(
                #[trigger] prop.numbers@[i].value@,
            ),
        ensures
            r is Ok,
            final(self).properties.wf(),
            exists|q: Property|
                #![trigger put(old(self).properties@, q)]
                final(self).properties@ == put(old(self).properties@, q) && q.device == prop.device
                    && q.name == prop.name && (q.value matches PropertyValue::Number(t, f) && t@
                    == first_number(prop.numbers@) && f is None) && q.state == prop.state && q.perm
                    == prop.perm && q.timestamp == prop.timestamp && q.label is None && q.group is None
                    && q.timeout is None && q.elements is None,
    {
        let text = if prop.numbers.len() > 0 {
            prop.numbers[0].value.clone()
        } else {
            proof {
                reveal_strlit("0");
            }
            owned("0")
        };
        let property = Property::new(
            prop.device,
            prop.name,
            PropertyValue::Number(text, None),
            prop.state,
            prop.perm,
            prop.timestamp,
        );
        self.update_property(property);
        Ok(())
    }

    /// Update state with a switch vector definition: the property's value is
    /// the first switch's state, or `Off` when there is none.
    pub fn update_switch_vector(&mut self, prop: DefSwitchVector) -> (r: Result<()>)
        requires
            old(self).properties.wf(),
        ensures
            r is Ok,
            final(self).properties.wf(),
            exists|q: Property|
                #![trigger put(old(self).properties@, q)]
                final(self).properties@ == put(old(self).properties@, q) && q.device == prop.device
                    && q.name == prop.name && q.value == PropertyValue::Switch(
                    first_switch(prop.switches@),
                ) && q.state == prop.state && q.perm == prop.perm && q.timestamp == prop.timestamp
                    && q.label is None && q.group is None && q.timeout is None && q.elements is None,
    {
        let value = if prop.switches.len() > 0 {
            prop.switches[0].state
        } else {
            SwitchState::Off
        };
        let property = Property::new(
            prop.device,
            prop.name,
            PropertyValue::Switch(value),
            prop.state,
            prop.perm,
            prop.timestamp,
        );
        self.update_property(property);
        Ok(())
    }

    /// Update a property in the state
    fn update_property(&mut self, property: Property)
        requires
            old(self).properties.wf(),
        ensures
            final(self).properties.wf(),
            final(self).properties@ == put(old(self).properties@, property),
    {
        self.properties.insert(property);
    }

    /// Remove a property, or the whole device when no name is given; a
    /// device left with no property is removed too.
    pub fn remove_property(&mut self, device: &str, name: Option<&str>)
        requires
            old(self).properties.wf(),
        ensures
            final(self).properties.wf(),
            match name {
                Some(n) => final(self).properties@ == drop_property(
                    old(self).properties@,
                    device@,
                    n@,
                ),
                None => final(self).properties@ == old(self).properties@.remove(device@),
            },
    {
        match name {
            Some(n) => self.properties.remove(device, n),
            None => self.properties.remove_device(device),
        }
    }
}

} // verus!
