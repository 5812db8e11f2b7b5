//! Switch element definitions and the rules a switch vector obeys.
use vstd::prelude::*;

use crate::error::{Error, Result};
use crate::property::{SwitchRule, SwitchState};
use crate::strings::owned;

verus! {

/// Define one member of a switch vector
#[derive(Debug, Clone, PartialEq)]
pub struct DefSwitch {
    /// Name of this switch element
    pub name: String,
    /// GUI label, or use name by default
    pub label: Option<String>,
    /// Switch state
    pub value: SwitchState,
}

/// How many of the states are On.
pub open spec fn on_count(states: Seq<SwitchState>) -> nat
    decreases states.len(),
{
    if states.len() == 0 {
        0
    } else {
        on_count(states.drop_last()) + if states.last() == SwitchState::On { 1nat } else { 0nat }
    }
}

/// The test of a switch state being On, as a predicate.
pub open spec fn is_on() -> spec_fn(SwitchState) -> bool {
    |st: SwitchState| st == SwitchState::On
}

/// The count of switches On is the number of On states among the states.
pub proof fn lemma_on_count_filter(states: Seq<SwitchState>)
    ensures
        on_count(states) == states.filter(is_on()).len(),
        on_count(states) <= states.len(),
    decreases states.len(),
{
    if states.len() > 0 {
        let p = states.drop_last();
        lemma_on_count_filter(p);
        assert(p.push(states.last()) =~= states);
        p.lemma_filter_push(states.last(), is_on());
    } else {
        assert(states.filter(is_on()) =~= Seq::<SwitchState>::empty()) by {
            reveal(Seq::filter);
        }
    }
}

/// The states of switch definitions, in order.
pub open spec fn def_switch_states(switches: Seq<DefSwitch>) -> Seq<SwitchState> {
    Seq::new(switches.len(), |i: int| switches[i].value)
}

/// Checks switch states against a rule: OneOfMany needs exactly one switch
/// On, AtMostOne rejects more than one; AnyOfMany accepts any combination.
pub fn validate_rule(rule: SwitchRule, states: &[SwitchState]) -> (r: Result<()>)
    ensures
        match rule {
            SwitchRule::OneOfMany => if on_count(states@) > 1 {
                r matches Err(Error::InvalidSwitchState(m))
                    && m@ == "OneOfMany rule violated: more than one switch is ON"@
            } else if on_count(states@) == 0 {
                r matches Err(Error::InvalidSwitchState(m))
                    && m@ == "OneOfMany rule violated: no switch is ON"@
            } else {
                r is Ok
            },
            SwitchRule::AtMostOne => if on_count(states@) > 1 {
                r matches Err(Error::InvalidSwitchState(m))
                    && m@ == "AtMostOne rule violated: more than one switch is ON"@
            } else {
                r is Ok
            },
            SwitchRule::AnyOfMany => r is Ok,
        },
{
    let mut count: usize = 0;
    let mut i: usize = 0;
    while i < states.len()
        invariant
            i <= states@.len(),
            count == on_count(states@.take(i as int)),
            count <= i,
        decreases states.len() - i,
    {
        proof {
            assert(states@.take(i + 1).drop_last() =~= states@.take(i as int));
        }
        if states[i] == SwitchState::On {
            count = count + 1;
        }
        i = i + 1;
    }
    proof {
        assert(states@.take(states@.len() as int) =~= states@);
    }
    match rule {
        SwitchRule::OneOfMany => {
            if count > 1 {
                return Err(
                    Error::InvalidSwitchState(
                        owned("OneOfMany rule violated: more than one switch is ON"),
                    ),
                );
            }
            if count == 0 {
                proof {
                    reveal_strlit("OneOfMany rule violated: no switch is ON");
                }
                return Err(Error::InvalidSwitchState(owned("OneOfMany rule violated: no switch is ON")));
            }
        },
        SwitchRule::AtMostOne => {
            if count > 1 {
                return Err(
                    Error::InvalidSwitchState(
                        owned("AtMostOne rule violated: more than one switch is ON"),
                    ),
                );
            }
        },
        SwitchRule::AnyOfMany => {},
    }
    Ok(())
}

/// Validates switch definitions against a rule (see `validate_rule`).
pub fn validate_switches(rule: SwitchRule, switches: &[DefSwitch]) -> (r: Result<()>)
    ensures
        match rule {
            SwitchRule::OneOfMany => if on_count(def_switch_states(switches@)) > 1 {
                r matches Err(Error::InvalidSwitchState(m))
                    && m@ == "OneOfMany rule violated: more than one switch is ON"@
            } else if on_count(def_switch_states(switches@)) == 0 {
                r matches Err(Error::InvalidSwitchState(m))
                    && m@ == "OneOfMany rule violated: no switch is ON"@
            } else {
                r is Ok
            },
            SwitchRule::AtMostOne => if on_count(def_switch_states(switches@)) > 1 {
                r matches Err(Error::InvalidSwitchState(m))
                    && m@ == "AtMostOne rule violated: more than one switch is ON"@
            } else {
                r is Ok
            },
            SwitchRule::AnyOfMany => r is Ok,
        },
{
    let mut states: Vec<SwitchState> = Vec::new();
    let mut i: usize = 0;
    while i < switches.len()
        invariant
            i <= switches@.len(),
            states@ == def_switch_states(switches@).take(i as int),
        decreases switches.len() - i,
    {
        states.push(switches[i].value);
        assert(states@ =~= def_switch_states(switches@).take(i + 1));
        i = i + 1;
    }
    assert(states@ =~= def_switch_states(switches@));
    validate_rule(rule, states.as_slice())
}

} // verus!
