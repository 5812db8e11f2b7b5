//! INDI Protocol Property Implementation
//!
//! Properties represent device characteristics and controls, with different
//! types (Number, Text, Switch, etc.), states (Idle, OK, Busy, Alert),
//! and permissions (RO, WO, RW).
use vstd::prelude::*;

pub mod timestamp;

use crate::error::{Error, Result};
use crate::entries::{entry_texts, render_entries, render_sorted, sort_entries, EntryText};
use crate::store::keys_unique;
use crate::strings::{append, owned, push_char, str_eq};

verus! {

/// Property permission
#[derive(Debug, Clone, Copy, PartialEq, Eq, Structural)]
pub enum PropertyPerm {
    /// Read-only property
    Ro,
    /// Write-only property
    Wo,
    /// Read-write property
    Rw,
}

/// The protocol text of a permission.
pub open spec fn perm_text(p: PropertyPerm) -> Seq<char> {
    match p {
        PropertyPerm::Ro => seq!['r', 'o'],
        PropertyPerm::Wo => seq!['w', 'o'],
        PropertyPerm::Rw => seq!['r', 'w'],
    }
}

/// The permission a protocol text denotes, if any.
pub open spec fn perm_from_text(s: Seq<char>) -> Option<PropertyPerm> {
    if s == perm_text(PropertyPerm::Ro) {
        Some(PropertyPerm::Ro)
    } else if s == perm_text(PropertyPerm::Wo) {
        Some(PropertyPerm::Wo)
    } else if s == perm_text(PropertyPerm::Rw) {
        Some(PropertyPerm::Rw)
    } else {
        None
    }
}

impl PropertyPerm {
    /// The protocol text of this permission ("ro", "wo" or "rw").
    pub fn as_str(&self) -> (r: &'static str)
        ensures
            r@ == perm_text(*self),
    {
        proof {
            reveal_strlit("ro");
            reveal_strlit("wo");
            reveal_strlit("rw");
        }
        match self {
            PropertyPerm::Ro => "ro",
            PropertyPerm::Wo => "wo",
            PropertyPerm::Rw => "rw",
        }
    }

    /// The protocol text of this permission, as an owned string.
    pub fn to_string(&self) -> (r: String)
        ensures
            r@ == perm_text(*self),
    {
        owned(self.as_str())
    }

    /// Parses a permission from its protocol text.
    pub fn parse_str(s: &str) -> (r: Result<PropertyPerm>)
        ensures
            match r {
                Ok(p) => perm_from_text(s@) == Some(p),
                Err(e) => perm_from_text(s@) is None && (e matches Error::Property(m)
                    && m@ == "Invalid property permission: "@ + s@),
            },
    {
        if str_eq(s, PropertyPerm::Ro.as_str()) {
            Ok(PropertyPerm::Ro)
        } else if str_eq(s, PropertyPerm::Wo.as_str()) {
            Ok(PropertyPerm::Wo)
        } else if str_eq(s, PropertyPerm::Rw.as_str()) {
            Ok(PropertyPerm::Rw)
        } else {
            let mut m = owned("Invalid property permission: ");
            append(&mut m, s);
            Err(Error::Property(m))
        }
    }
}

impl core::str::FromStr for PropertyPerm {
    type Err = Error;

    fn from_str(s: &str) -> (r: Result<Self>)
        ensures
            match r {
                Ok(p) => perm_from_text(s@) == Some(p),
                Err(e) => perm_from_text(s@) is None && (e matches Error::Property(m)
                    && m@ == "Invalid property permission: "@ + s@),
            },
    {
        PropertyPerm::parse_str(s)
    }
}

/// Parsing the text of a permission gives that permission back.
pub proof fn lemma_perm_text_roundtrip(p: PropertyPerm)
    ensures
        perm_from_text(perm_text(p)) == Some(p),
{
}

/// A text that parses as a permission is that permission's text.
pub proof fn lemma_perm_parse_canonical(s: Seq<char>)
    ensures
        perm_from_text(s) matches Some(p) ==> perm_text(p) == s,
{
}

/// Property state
#[derive(Debug, Clone, Copy, PartialEq, Eq, Structural)]
pub enum PropertyState {
    /// Property is idle
    Idle,
    /// Property is being updated
    OK,
    /// Property is busy
    Busy,
    /// Property has an alert
    Alert,
}

/// The protocol text of a property state.
pub open spec fn state_text(s: PropertyState) -> Seq<char> {
    match s {
        PropertyState::Idle => seq!['I', 'd', 'l', 'e'],
        PropertyState::OK => seq!['O', 'k'],
        PropertyState::Busy => seq!['B', 'u', 's', 'y'],
        PropertyState::Alert => seq!['A', 'l', 'e', 'r', 't'],
    }
}

/// The property state a protocol text denotes, if any.
pub open spec fn state_from_text(s: Seq<char>) -> Option<PropertyState> {
    if s == state_text(PropertyState::Idle) {
        Some(PropertyState::Idle)
    } else if s == state_text(PropertyState::OK) {
        Some(PropertyState::OK)
    } else if s == state_text(PropertyState::Busy) {
        Some(PropertyState::Busy)
    } else if s == state_text(PropertyState::Alert) {
        Some(PropertyState::Alert)
    } else {
        None
    }
}

impl PropertyState {
    /// The protocol text of this state ("Idle", "Ok", "Busy" or "Alert").
    pub fn as_str(&self) -> (r: &'static str)
        ensures
            r@ == state_text(*self),
    {
        proof {
            reveal_strlit("Idle");
            reveal_strlit("Ok");
            reveal_strlit("Busy");
            reveal_strlit("Alert");
        }
        match self {
            PropertyState::Idle => "Idle",
            PropertyState::OK => "Ok",
            PropertyState::Busy => "Busy",
            PropertyState::Alert => "Alert",
        }
    }

    /// The protocol text of this state, as an owned string.
    pub fn to_string(&self) -> (r: String)
        ensures
            r@ == state_text(*self),
    {
        owned(self.as_str())
    }

    /// Parses a property state from its protocol text.
    pub fn parse_str(s: &str) -> (r: Result<PropertyState>)
        ensures
            match r {
                Ok(p) => state_from_text(s@) == Some(p),
                Err(e) => state_from_text(s@) is None && (e matches Error::Property(m)
                    && m@ == "Invalid property state: "@ + s@),
            },
    {
        if str_eq(s, PropertyState::Idle.as_str()) {
            Ok(PropertyState::Idle)
        } else if str_eq(s, PropertyState::OK.as_str()) {
            Ok(PropertyState::OK)
        } else if str_eq(s, PropertyState::Busy.as_str()) {
            Ok(PropertyState::Busy)
        } else if str_eq(s, PropertyState::Alert.as_str()) {
            Ok(PropertyState::Alert)
        } else {
            let mut m = owned("Invalid property state: ");
            append(&mut m, s);
            Err(Error::Property(m))
        }
    }
}

impl core::str::FromStr for PropertyState {
    type Err = Error;

    fn from_str(s: &str) -> (r: Result<Self>)
        ensures
            match r {
                Ok(p) => state_from_text(s@) == Some(p),
                Err(e) => state_from_text(s@) is None && (e matches Error::Property(m)
                    && m@ == "Invalid property state: "@ + s@),
            },
    {
        PropertyState::parse_str(s)
    }
}

/// Parsing the text of a property state gives that state back.
pub proof fn lemma_state_text_roundtrip(p: PropertyState)
    ensures
        state_from_text(state_text(p)) == Some(p),
{
}

/// A text that parses as a property state is that state's text.
pub proof fn lemma_state_parse_canonical(s: Seq<char>)
    ensures
        state_from_text(s) matches Some(p) ==> state_text(p) == s,
{
}

/// Switch state
#[derive(Debug, Clone, Copy, PartialEq, Eq, Structural)]
pub enum SwitchState {
    /// Switch is off
    Off,
    /// Switch is on
    On,
}

/// The protocol text of a switch state.
pub open spec fn switch_text(s: SwitchState) -> Seq<char> {
    match s {
        SwitchState::Off => seq!['O', 'f', 'f'],
        SwitchState::On => seq!['O', 'n'],
    }
}

/// The switch state a protocol text denotes, if any.
pub open spec fn switch_from_text(s: Seq<char>) -> Option<SwitchState> {
    if s == switch_text(SwitchState::Off) {
        Some(SwitchState::Off)
    } else if s == switch_text(SwitchState::On) {
        Some(SwitchState::On)
    } else {
        None
    }
}

impl SwitchState {
    /// The protocol text of this switch state ("Off" or "On").
    pub fn as_str(&self) -> (r: &'static str)
        ensures
            r@ == switch_text(*self),
    {
        proof {
            reveal_strlit("Off");
            reveal_strlit("On");
        }
        match self {
            SwitchState::Off => "Off",
            SwitchState::On => "On",
        }
    }

    /// The protocol text of this switch state, as an owned string.
    pub fn to_string(&self) -> (r: String)
        ensures
            r@ == switch_text(*self),
    {
        owned(self.as_str())
    }

    /// Parses a switch state from its protocol text.
    pub fn parse_str(s: &str) -> (r: Result<SwitchState>)
        ensures
            match r {
                Ok(p) => switch_from_text(s@) == Some(p),
                Err(e) => switch_from_text(s@) is None && (e matches Error::InvalidSwitchState(m)
                    && m@ == s@),
            },
    {
        if str_eq(s, SwitchState::Off.as_str()) {
            Ok(SwitchState::Off)
        } else if str_eq(s, SwitchState::On.as_str()) {
            Ok(SwitchState::On)
        } else {
            Err(Error::InvalidSwitchState(owned(s)))
        }
    }

    /// The switch state for a boolean: `true` is On.
    pub fn from_bool(on: bool) -> (r: SwitchState)
        ensures
            r == (if on { SwitchState::On } else { SwitchState::Off }),
    {
        if on {
            SwitchState::On
        } else {
            SwitchState::Off
        }
    }
}

impl core::str::FromStr for SwitchState {
    type Err = Error;

    fn from_str(s: &str) -> (r: Result<Self>)
        ensures
            match r {
                Ok(p) => switch_from_text(s@) == Some(p),
                Err(e) => switch_from_text(s@) is None && (e matches Error::InvalidSwitchState(m)
                    && m@ == s@),
            },
    {
        SwitchState::parse_str(s)
    }
}

/// Parsing the text of a switch state gives that state back.
pub proof fn lemma_switch_text_roundtrip(p: SwitchState)
    ensures
        switch_from_text(switch_text(p)) == Some(p),
{
}

/// A text that parses as a switch state is that state's text.
pub proof fn lemma_switch_parse_canonical(s: Seq<char>)
    ensures
        switch_from_text(s) matches Some(p) ==> switch_text(p) == s,
{
}

/// Switch rule
#[derive(Debug, Clone, Copy, PartialEq, Eq, Structural)]
pub enum SwitchRule {
    /// Only one switch can be On at a time
    OneOfMany,
    /// At most one switch can be On, all can be Off
    AtMostOne,
    /// Any number of switches can be On
    AnyOfMany,
}

/// The protocol text of a switch rule.
pub open spec fn rule_text(r: SwitchRule) -> Seq<char> {
    match r {
        SwitchRule::OneOfMany => seq!['O', 'n', 'e', 'O', 'f', 'M', 'a', 'n', 'y'],
        SwitchRule::AtMostOne => seq!['A', 't', 'M', 'o', 's', 't', 'O', 'n', 'e'],
        SwitchRule::AnyOfMany => seq!['A', 'n', 'y', 'O', 'f', 'M', 'a', 'n', 'y'],
    }
}

impl SwitchRule {
    /// The protocol text of this rule ("OneOfMany", "AtMostOne" or "AnyOfMany").
    pub fn as_str(&self) -> (r: &'static str)
        ensures
            r@ == rule_text(*self),
    {
        proof {
            reveal_strlit("OneOfMany");
            reveal_strlit("AtMostOne");
            reveal_strlit("AnyOfMany");
        }
        match self {
            SwitchRule::OneOfMany => "OneOfMany",
            SwitchRule::AtMostOne => "AtMostOne",
            SwitchRule::AnyOfMany => "AnyOfMany",
        }
    }

    /// The protocol text of this rule, as an owned string.
    pub fn to_string(&self) -> (r: String)
        ensures
            r@ == rule_text(*self),
    {
        owned(self.as_str())
    }
}

/// Property value
///
/// Numbers are held as their decimal text; the vector values hold their
/// named elements, one entry per name.
#[derive(Debug, PartialEq)]
pub enum PropertyValue {
    /// Text value
    Text(String),
    /// Number value (its decimal text) with optional format
    Number(String, Option<String>),
    /// Switch value
    Switch(SwitchState),
    /// Light value
    Light(PropertyState),
    /// BLOB value
    Blob(Vec<u8>),
    /// Switch vector value
    SwitchVector(Vec<(String, SwitchState)>),
    /// Text vector value
    TextVector(Vec<(String, String)>),
    /// Number vector value (decimal texts)
    NumberVector(Vec<(String, String)>),
}

/// Switch entries as name and state text.
pub open spec fn switch_entry_texts(v: Seq<(String, SwitchState)>) -> Seq<EntryText> {
    Seq::new(v.len(), |i: int| (v[i].0@, switch_text(v[i].1)))
}

/// The text a property value is shown as: vector values list their entries
/// as `name=value`, sorted by name and joined by commas.
pub open spec fn value_text(v: PropertyValue) -> Seq<char> {
    match v {
        PropertyValue::Text(t) => t@,
        PropertyValue::Number(n, f) => match f {
            None => n@,
            Some(f) => n@ + seq![' '] + f@,
        },
        PropertyValue::Switch(s) => switch_text(s),
        PropertyValue::Light(s) => state_text(s),
        PropertyValue::Blob(_) => seq!['[', 'B', 'L', 'O', 'B', ']'],
        PropertyValue::SwitchVector(es) => render_entries(sort_entries(switch_entry_texts(es@))),
        PropertyValue::TextVector(es) => render_entries(sort_entries(entry_texts(es@))),
        PropertyValue::NumberVector(es) => render_entries(sort_entries(entry_texts(es@))),
    }
}

impl Default for PropertyValue {
    fn default() -> (r: Self)
        ensures
            r matches PropertyValue::Text(t) && t@ == Seq::<char>::empty(),
    {
        PropertyValue::Text(String::new())
    }
}

/// Whether a vector value holds each name once, as a map from names to
/// values does; other values always do.
pub open spec fn names_unique(v: PropertyValue) -> bool {
    match v {
        PropertyValue::SwitchVector(es) => keys_unique(es@),
        PropertyValue::TextVector(es) => keys_unique(es@),
        PropertyValue::NumberVector(es) => keys_unique(es@),
        _ => true,
    }
}

impl PropertyValue {
    /// The text this value is shown as; a vector value must hold each name
    /// once.
    pub fn to_string(&self) -> (r: String)
        requires
            names_unique(*self),
        ensures
            r@ == value_text(*self),
    {
        match self {
            PropertyValue::Text(t) => t.clone(),
            PropertyValue::Number(n, f) => match f {
                None => n.clone(),
                Some(f) => {
                    let mut r = n.clone();
                    push_char(&mut r, ' ');
                    append(&mut r, f.as_str());
                    r
                },
            },
            PropertyValue::Switch(s) => s.to_string(),
            PropertyValue::Light(s) => s.to_string(),
            PropertyValue::Blob(_) => {
                proof {
                    reveal_strlit("[BLOB]");
                }
                owned("[BLOB]")
            },
            PropertyValue::SwitchVector(es) => {
                let mut texts: Vec<(String, String)> = Vec::new();
                let mut i: usize = 0;
                while i < es.len()
                    invariant
                        i <= es@.len(),
                        entry_texts(texts@) == switch_entry_texts(es@).take(i as int),
                    decreases es.len() - i,
                {
                    let name = es[i].0.clone();
                    let text = es[i].1.to_string();
                    let ghost before = texts@;
                    texts.push((name, text));
                    proof {
                        assert(texts@ == before.push((name, text)));
                        assert(entry_texts(texts@) =~= entry_texts(before).push((es@[i as int].0@, switch_text(es@[i as int].1))));
                        assert(switch_entry_texts(es@).take(i + 1) =~= switch_entry_texts(es@).take(i as int).push((es@[i as int].0@, switch_text(es@[i as int].1))));
                    }
                    i = i + 1;
                }
                assert(switch_entry_texts(es@).take(es@.len() as int) =~= switch_entry_texts(es@));
                render_sorted(&texts)
            },
            PropertyValue::TextVector(es) => render_sorted(es),
            PropertyValue::NumberVector(es) => render_sorted(es),
        }
    }
}

/// Property
#[derive(Debug)]
pub struct Property {
    /// Device name
    pub device: String,
    /// Property name
    pub name: String,
    /// Property value
    pub value: PropertyValue,
    /// Property state
    pub state: PropertyState,
    /// Property permission
    pub perm: PropertyPerm,
    /// Property timestamp
    pub timestamp: String,
    /// Property label (optional)
    pub label: Option<String>,
    /// Property group (optional)
    pub group: Option<String>,
    /// Property timeout (optional)
    pub timeout: Option<u32>,
    /// Child elements (optional)
    pub elements: Option<Vec<Property>>,
}

impl Property {
    /// Create a new property
    pub fn new(
        device: String,
        name: String,
        value: PropertyValue,
        state: PropertyState,
        perm: PropertyPerm,
        timestamp: String,
    ) -> (r: Self)
        ensures
            r == (Property {
                device,
                name,
                value,
                state,
                perm,
                timestamp,
                label: None,
                group: None,
                timeout: None,
                elements: None,
            }),
    {
        Self {
            device,
            name,
            value,
            state,
            perm,
            timestamp,
            label: None,
            group: None,
            timeout: None,
            elements: None,
        }
    }

    /// Create a new element property with a value; the property takes the
    /// element's name (the parent property's name is not kept).
    pub fn new_with_value(
        device: String,
        _name: String,
        element_name: String,
        value: PropertyValue,
        state: PropertyState,
        perm: PropertyPerm,
        timestamp: String,
    ) -> (r: Self)
        ensures
            r == (Property {
                device,
                name: element_name,
                value,
                state,
                perm,
                timestamp,
                label: None,
                group: None,
                timeout: None,
                elements: None,
            }),
    {
        Self {
            device,
            name: element_name,
            value,
            state,
            perm,
            timestamp,
            label: None,
            group: None,
            timeout: None,
            elements: None,
        }
    }

    /// Create a new property holding child elements; its own name is empty
    /// and its value is the default (empty text).
    pub fn new_with_elements(
        device: String,
        _name: String,
        elements: Vec<Property>,
        state: PropertyState,
        perm: PropertyPerm,
        timestamp: String,
    ) -> (r: Self)
        ensures
            r.device == device,
            r.name@ == Seq::<char>::empty(),
            r.value matches PropertyValue::Text(t) && t@ == Seq::<char>::empty(),
            r.state == state,
            r.perm == perm,
            r.timestamp == timestamp,
            r.label is None,
            r.group is None,
            r.timeout is None,
            r.elements == Some(elements),
    {
        Self {
            device,
            name: String::new(),
            value: PropertyValue::default(),
            state,
            perm,
            timestamp,
            label: None,
            group: None,
            timeout: None,
            elements: Some(elements),
        }
    }

    /// Sets the property label
    pub fn with_label(self, label: String) -> (r: Self)
        ensures
            r == (Property { label: Some(label), ..self }),
    {
        let mut p = self;
        p.label = Some(label);
        p
    }

    /// Sets the property group
    pub fn with_group(self, group: String) -> (r: Self)
        ensures
            r == (Property { group: Some(group), ..self }),
    {
        let mut p = self;
        p.group = Some(group);
        p
    }

    /// Sets the property timeout
    pub fn with_timeout(self, timeout: u32) -> (r: Self)
        ensures
            r == (Property { timeout: Some(timeout), ..self }),
    {
        let mut p = self;
        p.timeout = Some(timeout);
        p
    }

    /// Returns true if the property is readable (read-only or read-write)
    pub fn is_readable(&self) -> (r: bool)
        ensures
            r == (self.perm == PropertyPerm::Ro || self.perm == PropertyPerm::Rw),
    {
        match self.perm {
            PropertyPerm::Ro | PropertyPerm::Rw => true,
            PropertyPerm::Wo => false,
        }
    }

    /// Returns true if the property is writable (write-only or read-write)
    pub fn is_writable(&self) -> (r: bool)
        ensures
            r == (self.perm == PropertyPerm::Wo || self.perm == PropertyPerm::Rw),
    {
        match self.perm {
            PropertyPerm::Wo | PropertyPerm::Rw => true,
            PropertyPerm::Ro => false,
        }
    }
}

/// Whether two property values hold the same contents (vectors and bytes
/// compared element by element).
pub open spec fn same_value(a: PropertyValue, b: PropertyValue) -> bool {
    match (a, b) {
        (PropertyValue::Text(x), PropertyValue::Text(y)) => x == y,
        (PropertyValue::Number(x, f), PropertyValue::Number(y, g)) => x == y && f == g,
        (PropertyValue::Switch(x), PropertyValue::Switch(y)) => x == y,
        (PropertyValue::Light(x), PropertyValue::Light(y)) => x == y,
        (PropertyValue::Blob(x), PropertyValue::Blob(y)) => x@ == y@,
        (PropertyValue::SwitchVector(x), PropertyValue::SwitchVector(y)) => x@ == y@,
        (PropertyValue::TextVector(x), PropertyValue::TextVector(y)) => x@ == y@,
        (PropertyValue::NumberVector(x), PropertyValue::NumberVector(y)) => x@ == y@,
        _ => false,
    }
}

/// Whether two properties hold the same contents: equal fields, the same
/// value, and child elements that are pairwise the same.
pub open spec fn same_property(a: Property, b: Property) -> bool
    decreases a,
{
    &&& a.device == b.device
    &&& a.name == b.name
    &&& same_value(a.value, b.value)
    &&& a.state == b.state
    &&& a.perm == b.perm
    &&& a.timestamp == b.timestamp
    &&& a.label == b.label
    &&& a.group == b.group
    &&& a.timeout == b.timeout
    &&& match a.elements {
        None => b.elements is None,
        Some(xs) => b.elements matches Some(ys) && xs@.len() == ys@.len() && forall|i: int|
            0 <= i < xs@.len() ==> same_property(#[trigger] xs@[i], ys@[i]),
    }
}

fn copy_bytes(v: &Vec<u8>) -> (r: Vec<u8>)
    ensures
        r@ == v@,
{
    let mut r: Vec<u8> = Vec::new();
    let mut i: usize = 0;
    while i < v.len()
        invariant
            i <= v@.len(),
            r@ == v@.subrange(0, i as int),
        decreases v.len() - i,
    {
        r.push(v[i]);
        i = i + 1;
    }
    r
}

fn copy_switch_entries(v: &Vec<(String, SwitchState)>) -> (r: Vec<(String, SwitchState)>)
    ensures
        r@ == v@,
{
    let mut r: Vec<(String, SwitchState)> = Vec::new();
    let mut i: usize = 0;
    while i < v.len()
        invariant
            i <= v@.len(),
            r@ == v@.subrange(0, i as int),
        decreases v.len() - i,
    {
        r.push((v[i].0.clone(), v[i].1));
        i = i + 1;
    }
    r
}

fn copy_text_entries(v: &Vec<(String, String)>) -> (r: Vec<(String, String)>)
    ensures
        r@ == v@,
{
    let mut r: Vec<(String, String)> = Vec::new();
    let mut i: usize = 0;
    while i < v.len()
        invariant
            i <= v@.len(),
            r@ == v@.subrange(0, i as int),
        decreases v.len() - i,
    {
        r.push((v[i].0.clone(), v[i].1.clone()));
        i = i + 1;
    }
    r
}

fn copy_opt_string(o: &Option<String>) -> (r: Option<String>)
    ensures
        r == *o,
{
    match o {
        Some(s) => Some(s.clone()),
        None => None,
    }
}

impl Clone for PropertyValue {
    fn clone(&self) -> (r: Self)
        ensures
            same_value(*self, r),
    {
        match self {
            PropertyValue::Text(t) => PropertyValue::Text(t.clone()),
            PropertyValue::Number(n, f) => PropertyValue::Number(n.clone(), copy_opt_string(f)),
            PropertyValue::Switch(s) => PropertyValue::Switch(*s),
            PropertyValue::Light(s) => PropertyValue::Light(*s),
            PropertyValue::Blob(b) => PropertyValue::Blob(copy_bytes(b)),
            PropertyValue::SwitchVector(es) => PropertyValue::SwitchVector(copy_switch_entries(es)),
            PropertyValue::TextVector(es) => PropertyValue::TextVector(copy_text_entries(es)),
            PropertyValue::NumberVector(es) => PropertyValue::NumberVector(copy_text_entries(es)),
        }
    }
}

/// A copy of a property.
fn copy_property(p: &Property) -> (r: Property)
    ensures
        same_property(*p, r),
    decreases p,
{
    let elements = match &p.elements {
        None => None,
        Some(es) => {
            let mut v: Vec<Property> = Vec::new();
            let mut i: usize = 0;
            while i < es.len()
                invariant
                    p.elements == Some(*es),
                    i <= es@.len(),
                    v@.len() == i,
                    forall|k: int| 0 <= k < i ==> same_property(#[trigger] es@[k], v@[k]),
                decreases es.len() - i,
            {
                proof {
                    broadcast use vstd::std_specs::vec::axiom_vec_index_decreases;

                    assert(decreases_to!(p => p.elements));
                    assert(decreases_to!(p.elements => p.elements->0));
                    assert(decreases_to!(*es => es[i as int]));
                }
                let c = copy_property(&es[i]);
                v.push(c);
                i = i + 1;
            }
            Some(v)
        },
    };
    Property {
        device: p.device.clone(),
        name: p.name.clone(),
        value: p.value.clone(),
        state: p.state,
        perm: p.perm,
        timestamp: p.timestamp.clone(),
        label: copy_opt_string(&p.label),
        group: copy_opt_string(&p.group),
        timeout: p.timeout,
        elements,
    }
}

impl Clone for Property {
    fn clone(&self) -> (r: Self)
        ensures
            same_property(*self, r),
    {
        copy_property(self)
    }
}

} // verus!
