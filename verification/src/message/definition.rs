//! Property vector definitions whose numbers are kept as texts.
use vstd::prelude::*;

use crate::error::{Error, Result};
use crate::message::switch::define::{on_count, validate_rule};
use crate::property::{PropertyPerm, PropertyState, SwitchRule, SwitchState};

verus! {

/// Text vector definition
#[derive(Debug, Clone, PartialEq)]
pub struct DefTextVector {
    /// Device name
    pub device: String,
    /// Property name
    pub name: String,
    /// Property label
    pub label: String,
    /// Property group
    pub group: String,
    /// Property state
    pub state: PropertyState,
    /// Property permission
    pub perm: PropertyPerm,
    /// Property timeout
    pub timeout: i32,
    /// Property timestamp
    pub timestamp: String,
    /// Text elements
    pub texts: Vec<DefText>,
}

/// Number vector definition
#[derive(Debug, Clone, PartialEq)]
pub struct DefNumberVector {
    /// Device name
    pub device: String,
    /// Property name
    pub name: String,
    /// Property label
    pub label: String,
    /// Property group
    pub group: String,
    /// Property state
    pub state: PropertyState,
    /// Property permission
    pub perm: PropertyPerm,
    /// Property timeout
    pub timeout: i32,
    /// Property timestamp
    pub timestamp: String,
    /// Number elements
    pub numbers: Vec<DefNumber>,
}

/// Switch element in a switch vector
#[derive(Debug, Clone, PartialEq)]
pub struct DefSwitch {
    /// Switch name
    pub name: String,
    /// Switch label
    pub label: String,
    /// Switch state
    pub state: SwitchState,
}

/// Text element in a text vector
#[derive(Debug, Clone, PartialEq)]
pub struct DefText {
    /// Text name
    pub name: String,
    /// Text label
    pub label: String,
    /// Text value
    pub value: String,
}

/// Number element in a number vector; the numbers are kept as their texts
#[derive(Debug, Clone, PartialEq)]
pub struct DefNumber {
    /// Number name
    pub name: String,
    /// Number label
    pub label: String,
    /// Number format
    pub format: String,
    /// Number minimum value
    pub min: String,
    /// Number maximum value
    pub max: String,
    /// Number step value
    pub step: String,
    /// Number value
    pub value: String,
}

/// Represents a switch vector property definition in the INDI protocol.
#[derive(Debug, Clone, PartialEq)]
pub struct DefSwitchVector {
    /// Device name
    pub device: String,
    /// Property name
    pub name: String,
    /// Property label
    pub label: String,
    /// Property group
    pub group: String,
    /// Property state
    pub state: PropertyState,
    /// Property permission
    pub perm: PropertyPerm,
    /// Switch rule
    pub rule: SwitchRule,
    /// Property timeout
    pub timeout: i32,
    /// Property timestamp
    pub timestamp: String,
    /// Message
    pub message: String,
    /// Switch elements
    pub switches: Vec<DefSwitch>,
}

/// The states of switch elements, in order.
pub open spec fn switch_states(switches: Seq<DefSwitch>) -> Seq<SwitchState> {
    Seq::new(switches.len(), |i: int| switches[i].state)
}

impl DefSwitchVector {
    /// Validates the switch vector according to its rule: OneOfMany needs
    /// exactly one switch On, AtMostOne rejects more than one.
    pub fn validate(&self) -> (r: Result<()>)
        ensures
            match self.rule {
                SwitchRule::OneOfMany => if on_count(switch_states(self.switches@)) > 1 {
                    r matches Err(Error::InvalidSwitchState(m))
                        && m@ == "OneOfMany rule violated: more than one switch is ON"@
                } else if on_count(switch_states(self.switches@)) == 0 {
                    r matches Err(Error::InvalidSwitchState(m))
                        && m@ == "OneOfMany rule violated: no switch is ON"@
                } else {
                    r is Ok
                },
                SwitchRule::AtMostOne => if on_count(switch_states(self.switches@)) > 1 {
                    r matches Err(Error::InvalidSwitchState(m))
                        && m@ == "AtMostOne rule violated: more than one switch is ON"@
                } else {
                    r is Ok
                },
                SwitchRule::AnyOfMany => r is Ok,
            },
    {
        let mut states: Vec<SwitchState> = Vec::new();
        let mut i: usize = 0;
        while i < self.switches.len()
            invariant
                i <= self.switches@.len(),
                states@ == switch_states(self.switches@).take(i as int),
            decreases self.switches.len() - i,
        {
            states.push(self.switches[i].state);
            assert(states@ =~= switch_states(self.switches@).take(i + 1));
            i = i + 1;
        }
        assert(states@ =~= switch_states(self.switches@));
        validate_rule(self.rule, states.as_slice())
    }
}

} // verus!
