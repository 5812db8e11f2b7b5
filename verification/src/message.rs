//! INDI messages.
//!
//! The core protocol messages exchanged between clients and servers, and the
//! modules for each property kind (text, number, switch, light, BLOB) with
//! their definition, new-value and set-value messages.
use vstd::prelude::*;

use crate::error::{Error, Result};
use crate::property::{Property, PropertyState, SwitchRule};
use crate::strings::{append, append_decimal, decimal_text, owned, str_eq};

pub mod basic;
pub mod blob;
pub mod common;
pub mod definition;
pub mod light;
pub mod new;
pub mod set;
pub mod switch;
pub mod text;

verus! {

/// INDI message
#[derive(Debug, Clone)]
pub enum Message {
    /// Get properties message
    GetProperties {
        /// Version of the INDI protocol
        version: String,
        /// Device to get properties for
        device: Option<String>,
        /// Name of the property to get
        name: Option<String>,
    },
    /// Define property message
    DefProperty(Property),
    /// Delete property message
    DelProperty {
        /// Device name
        device: String,
    },
    /// Set property message
    SetProperty {
        /// Raw XML content of the message
        content: String,
    },
    /// New property message
    NewProperty(Property),
    /// Message message
    Message {
        /// Raw XML content of the message
        content: String,
    },
    /// Define switch vector message
    DefSwitchVector(DefSwitchVector),
    /// Define text vector
    DefTextVector {
        /// Device name
        device: String,
        /// Property name
        name: String,
        /// Property label
        label: String,
        /// Property group
        group: String,
        /// Property state
        state: PropertyState,
        /// Property permission
        perm: String,
        /// Property timeout
        timeout: i32,
        /// Property timestamp
        timestamp: String,
        /// Text elements
        texts: Vec<DefText>,
    },
    /// Define number vector
    DefNumberVector {
        /// Device name
        device: String,
        /// Property name
        name: String,
        /// Property label
        label: String,
        /// Property group
        group: String,
        /// Property state
        state: PropertyState,
        /// Property permission
        perm: String,
        /// Property timeout
        timeout: i32,
        /// Property timestamp
        timestamp: String,
        /// Number elements
        numbers: Vec<DefNumber>,
    },
    /// New switch vector message
    NewSwitchVector {
        /// Device name
        device: String,
        /// Property name
        name: String,
        /// Property state
        state: PropertyState,
        /// Switch elements
        switches: Vec<OneSwitch>,
    },
}

/// Switch element in a switch vector
#[derive(Debug, Clone)]
pub struct OneSwitch {
    /// Name of the switch
    pub name: String,
    /// Label for the switch
    pub label: String,
    /// Value of the switch (On/Off)
    pub value: String,
}

/// Text element in a text vector
#[derive(Debug, Clone)]
pub struct DefText {
    /// Text name
    pub name: String,
    /// Text label
    pub label: String,
    /// Text value
    pub value: String,
}

/// Number element in a number vector
#[derive(Debug, Clone)]
pub struct DefNumber {
    /// Number name
    pub name: String,
    /// Number label
    pub label: String,
    /// Number format
    pub format: String,
    /// Number minimum value
    pub min: String,
    /// Number maximum value
    pub max: String,
    /// Number step value
    pub step: String,
    /// Number value
    pub value: String,
}

/// Represents a switch vector property definition in the INDI protocol.
/// Contains information about a set of switches including their device, name,
/// state, and individual switch elements.
#[derive(Debug, Clone)]
pub struct DefSwitchVector {
    /// Device name
    pub device: String,
    /// Property name
    pub name: String,
    /// Property label
    pub label: String,
    /// Property group
    pub group: String,
    /// Property state
    pub state: PropertyState,
    /// Property permission
    pub perm: String,
    /// Switch rule
    pub rule: SwitchRule,
    /// Property timeout
    pub timeout: i32,
    /// Property timestamp
    pub timestamp: String,
    /// Switch elements
    pub switches: Vec<OneSwitch>,
}

/// How many of the switches have the value text exactly `On`.
pub open spec fn count_on(switches: Seq<OneSwitch>) -> nat
    decreases switches.len(),
{
    if switches.len() == 0 {
        0
    } else {
        count_on(switches.drop_last()) + if switches.last().value@ == seq!['O', 'n'] {
            1nat
        } else {
            0nat
        }
    }
}

/// Whether a switch's value text is exactly `On`.
pub open spec fn switch_is_on(w: OneSwitch) -> bool {
    w.value@ == seq!['O', 'n']
}

/// The test of a switch's value text being exactly `On`, as a predicate.
pub open spec fn on_test() -> spec_fn(OneSwitch) -> bool {
    |w: OneSwitch| switch_is_on(w)
}

/// The count of switches On is the number of switches whose value text is
/// exactly `On`, whatever their names and labels: the length of the
/// switches kept by that test.
pub proof fn lemma_count_on_filter(switches: Seq<OneSwitch>)
    ensures
        count_on(switches) == switches.filter(on_test()).len(),
    decreases switches.len(),
{
    if switches.len() > 0 {
        let p = switches.drop_last();
        lemma_count_on_filter(p);
        assert(p.push(switches.last()) =~= switches);
        p.lemma_filter_push(switches.last(), on_test());
    } else {
        assert(switches.filter(on_test()) =~= Seq::<OneSwitch>::empty()) by {
            reveal(Seq::filter);
        }
    }
}

/// Switches with the same value texts, one by one, have the same count of
/// switches On, whatever their names and labels.
pub proof fn lemma_count_on_values(a: Seq<OneSwitch>, b: Seq<OneSwitch>)
    requires
        a.len() == b.len(),
        forall|i: int| 0 <= i < a.len() ==> #[trigger] a[i].value@ == b[i].value@,
    ensures
        count_on(a) == count_on(b),
    decreases a.len(),
{
    if a.len() > 0 {
        assert forall|i: int| 0 <= i < a.drop_last().len() implies #[trigger] a.drop_last()[i].value@
            == b.drop_last()[i].value@ by {
            assert(a.drop_last()[i] == a[i]);
            assert(b.drop_last()[i] == b[i]);
        }
        lemma_count_on_values(a.drop_last(), b.drop_last());
        assert(a.last().value@ == b.last().value@);
    }
}

impl DefSwitchVector {
    /// Validates the switch vector according to its rule: OneOfMany needs
    /// exactly one switch On, AtMostOne allows at most one.
    pub fn validate(&self) -> (r: Result<()>)
        ensures
            match self.rule {
                SwitchRule::OneOfMany => if count_on(self.switches@) != 1 {
                    r matches Err(Error::Property(m)) && m@
                        == "OneOfMany rule requires exactly one switch to be On, found "@
                        + decimal_text(count_on(self.switches@))
                } else {
                    r is Ok
                },
                SwitchRule::AtMostOne => if count_on(self.switches@) > 1 {
                    r matches Err(Error::Property(m)) && m@
                        == "AtMostOne rule allows at most one switch to be On, found "@
                        + decimal_text(count_on(self.switches@))
                } else {
                    r is Ok
                },
                SwitchRule::AnyOfMany => r is Ok,
            },
    {
        proof {
            reveal_strlit("On");
        }
        let mut count: usize = 0;
        let mut i: usize = 0;
        while i < self.switches.len()
            invariant
                i <= self.switches@.len(),
                count == count_on(self.switches@.take(i as int)),
                count <= i,
            decreases self.switches.len() - i,
        {
            proof {
                assert(self.switches@.take(i + 1).drop_last() =~= self.switches@.take(i as int));
                assert(self.switches@.take(i + 1).last() == self.switches@[i as int]);
                reveal_strlit("On");
                assert("On"@ =~= seq!['O', 'n']);
            }
            if str_eq(self.switches[i].value.as_str(), "On") {
                count = count + 1;
            }
            i = i + 1;
        }
        proof {
            assert(self.switches@.take(self.switches@.len() as int) =~= self.switches@);
        }
        match self.rule {
            SwitchRule::OneOfMany => {
                if count != 1 {
                    let mut m = owned("OneOfMany rule requires exactly one switch to be On, found ");
                    append_decimal(&mut m, count as u64);
                    return Err(Error::Property(m));
                }
            },
            SwitchRule::AtMostOne => {
                if count > 1 {
                    let mut m = owned("AtMostOne rule allows at most one switch to be On, found ");
                    append_decimal(&mut m, count as u64);
                    return Err(Error::Property(m));
                }
            },
            SwitchRule::AnyOfMany => {},
        }
        Ok(())
    }
}

impl Message {
    /// Create a new GetProperties message
    pub fn get_properties(version: String, device: Option<String>, name: Option<String>) -> (r:
        Self)
        ensures
            r == (Message::GetProperties { version, device, name }),
    {
        Message::GetProperties { version, device, name }
    }
}

} // verus!
