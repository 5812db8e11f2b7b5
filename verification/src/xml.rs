//! Lightweight extraction of attributes and element contents from XML text.
//!
//! These helpers work on the text itself: an attribute is found by its
//! first `name="` occurrence, an element by the first occurrence of its
//! opening tag.
use vstd::prelude::*;

use crate::property::{
    lemma_state_parse_canonical, lemma_state_text_roundtrip, perm_from_text, state_from_text,
    state_text, switch_text, Property, PropertyPerm, PropertyState, PropertyValue, SwitchState,
};
use crate::strings::{
    extend_chars, find, find_from, float_text, from_chars, is_float_text, to_chars, trim, trimmed,
};

verus! {

/// The value of the first `attr="..."` in the text: the characters after the
/// first occurrence of `attr="` up to the next `"`.
pub open spec fn attribute_value(xml: Seq<char>, attr: Seq<char>) -> Option<Seq<char>> {
    let pat = attr + seq!['=', '"'];
    match find(xml, pat) {
        None => None,
        Some(p) => {
            let rest = xml.skip(p + pat.len());
            match find(rest, seq!['"']) {
                None => None,
                Some(e) => Some(rest.take(e)),
            }
        },
    }
}

/// The trimmed text after the first `open` and before the next `close`
/// (or the end of the text when no `close` follows).
pub open spec fn content_between(xml: Seq<char>, open: Seq<char>, close: Seq<char>) -> Option<
    Seq<char>,
> {
    match find(xml, open) {
        None => None,
        Some(p) => {
            let rest = xml.skip(p + open.len());
            let end = match find(rest, close) {
                Some(e) => e,
                None => rest.len() as int,
            };
            Some(trim(rest.take(end)))
        },
    }
}

/// The closing tag `</element>`.
pub open spec fn closing_tag(element: Seq<char>) -> Seq<char> {
    seq!['<', '/'] + element + seq!['>']
}

/// The trimmed content of the first `<element>` (without attributes).
pub open spec fn element_content(xml: Seq<char>, element: Seq<char>) -> Option<Seq<char>> {
    content_between(xml, seq!['<'] + element + seq!['>'], closing_tag(element))
}

/// The trimmed content of the first `<element attr="value">`.
pub open spec fn element_content_with_attr(
    xml: Seq<char>,
    element: Seq<char>,
    attr: Seq<char>,
    value: Seq<char>,
) -> Option<Seq<char>> {
    content_between(
        xml,
        seq!['<'] + element + seq![' '] + attr + seq!['=', '"'] + value + seq!['"', '>'],
        closing_tag(element),
    )
}

/// Parse attribute from XML string
pub fn parse_attribute(xml: &str, attr: &str) -> (r: Option<String>)
    ensures
        match attribute_value(xml@, attr@) {
            None => r is None,
            Some(v) => r matches Some(s) && s@ == v,
        },
{
    let c = to_chars(xml);
    let mut pat: Vec<char> = Vec::new();
    extend_chars(&mut pat, attr);
    pat.push('=');
    pat.push('"');
    assert(pat@ =~= attr@ + seq!['=', '"']);
    assert(c@.skip(0) =~= c@);
    match find_from(&c, &pat, 0) {
        None => None,
        Some(p) => {
            let start = p + pat.len();
            assert(find(xml@, attr@ + seq!['=', '"']) == Some(p as int));
            assert(start == p + (attr@ + seq!['=', '"']).len());
            let mut quote: Vec<char> = Vec::new();
            quote.push('"');
            assert(quote@ =~= seq!['"']);
            match find_from(&c, &quote, start) {
                None => None,
                Some(e) => {
                    let v = from_chars(&c.as_slice()[start..start + e]);
                    assert(v@ =~= c@.skip(start as int).take(e as int));
                    assert(find(c@.skip(start as int), seq!['"']) == Some(e as int));
                    Some(v)
                },
            }
        },
    }
}

fn content_of(c: &Vec<char>, open: &Vec<char>, close: &Vec<char>) -> (r: Option<String>)
    ensures
        match content_between(c@, open@, close@) {
            None => r is None,
            Some(v) => r matches Some(s) && s@ == v,
        },
{
    assert(c@.skip(0) =~= c@);
    match find_from(c, open, 0) {
        None => None,
        Some(p) => {
            let start = p + open.len();
            assert(find(c@, open@) == Some(p as int));
            let end = match find_from(c, close, start) {
                Some(e) => e,
                None => c.len() - start,
            };
            assert(end as int == match find(c@.skip(start as int), close@) {
                Some(e) => e,
                None => c@.skip(start as int).len() as int,
            });
            let v = trimmed(c, start, start + end);
            assert(c@.subrange(start as int, start + end) =~= c@.skip(start as int).take(
                end as int,
            ));
            Some(v)
        },
    }
}

/// Parse element content from XML string
pub fn parse_element_content(xml: &str, element: &str) -> (r: Option<String>)
    ensures
        match element_content(xml@, element@) {
            None => r is None,
            Some(v) => r matches Some(s) && s@ == v,
        },
{
    let c = to_chars(xml);
    let mut open: Vec<char> = Vec::new();
    open.push('<');
    extend_chars(&mut open, element);
    open.push('>');
    let mut close: Vec<char> = Vec::new();
    close.push('<');
    close.push('/');
    extend_chars(&mut close, element);
    close.push('>');
    assert(open@ =~= seq!['<'] + element@ + seq!['>']);
    assert(close@ =~= closing_tag(element@));
    content_of(&c, &open, &close)
}

/// Parse element content with attribute from XML string
pub fn parse_element_content_with_attr(
    xml: &str,
    element: &str,
    attr: &str,
    attr_value: &str,
) -> (r: Option<String>)
    ensures
        match element_content_with_attr(xml@, element@, attr@, attr_value@) {
            None => r is None,
            Some(v) => r matches Some(s) && s@ == v,
        },
{
    let c = to_chars(xml);
    let mut open: Vec<char> = Vec::new();
    open.push('<');
    extend_chars(&mut open, element);
    open.push(' ');
    extend_chars(&mut open, attr);
    open.push('=');
    open.push('"');
    extend_chars(&mut open, attr_value);
    open.push('"');
    open.push('>');
    let mut close: Vec<char> = Vec::new();
    close.push('<');
    close.push('/');
    extend_chars(&mut close, element);
    close.push('>');
    assert(open@ =~= seq!['<'] + element@ + seq![' '] + attr@ + seq!['=', '"'] + attr_value@
        + seq!['"', '>']);
    assert(close@ =~= closing_tag(element@));
    content_of(&c, &open, &close)
}

/// The value a property's XML text describes, as the specification sees it.
pub enum ValueShape {
    /// A text value
    Text(Seq<char>),
    /// A number value, by its text
    Number(Seq<char>),
    /// A switch value
    Switch(SwitchState),
    /// A light value
    Light(PropertyState),
}

/// Whether the text contains `p`.
pub open spec fn contains(xml: Seq<char>, p: Seq<char>) -> bool {
    find(xml, p) is Some
}

/// The switch state a content text denotes: On exactly for `On`.
pub open spec fn switch_of_text(t: Seq<char>) -> SwitchState {
    if t == "On"@ {
        SwitchState::On
    } else {
        SwitchState::Off
    }
}

/// The value of a property's XML text: taken from the first `oneText`,
/// `oneNumber`, `oneSwitch` or `oneLight` element, checked in that order
/// (for the CONNECTION property, from its `CONNECT` switch); an empty text
/// when none is present. `None` when the element's content is missing or
/// not valid for its kind.
pub open spec fn value_shape(xml: Seq<char>, name: Seq<char>) -> Option<ValueShape> {
    if contains(xml, "<oneText"@) {
        match element_content(xml, "oneText"@) {
            Some(t) => Some(ValueShape::Text(t)),
            None => None,
        }
    } else if contains(xml, "<oneNumber"@) {
        match element_content(xml, "oneNumber"@) {
            Some(t) => if is_float_text(t) {
                Some(ValueShape::Number(t))
            } else {
                None
            },
            None => None,
        }
    } else if contains(xml, "<oneSwitch"@) {
        let c = if name == "CONNECTION"@ {
            element_content_with_attr(xml, "oneSwitch"@, "name"@, "CONNECT"@)
        } else {
            element_content(xml, "oneSwitch"@)
        };
        match c {
            Some(t) => Some(ValueShape::Switch(switch_of_text(t))),
            None => None,
        }
    } else if contains(xml, "<oneLight"@) {
        match element_content(xml, "oneLight"@) {
            Some(t) => match state_from_text(t) {
                Some(st) => Some(ValueShape::Light(st)),
                None => None,
            },
            None => None,
        }
    } else {
        Some(ValueShape::Text(Seq::empty()))
    }
}

/// The value of a property's XML text by the first element kind present: a
/// `oneText` content is the text as found; a `oneNumber` content is kept
/// as its text exactly when it reads as a number; with no value element the
/// value is the empty text.
pub proof fn lemma_text_and_number_value(xml: Seq<char>, name: Seq<char>)
    ensures
        contains(xml, "<oneText"@) ==> (match element_content(xml, "oneText"@) {
            Some(t) => value_shape(xml, name) == Some(ValueShape::Text(t)),
            None => value_shape(xml, name) is None,
        }),
        !contains(xml, "<oneText"@) && contains(xml, "<oneNumber"@) ==> (match element_content(
            xml,
            "oneNumber"@,
        ) {
            Some(t) => if is_float_text(t) {
                value_shape(xml, name) == Some(ValueShape::Number(t))
            } else {
                value_shape(xml, name) is None
            },
            None => value_shape(xml, name) is None,
        }),
        !contains(xml, "<oneText"@) && !contains(xml, "<oneNumber"@) && !contains(
            xml,
            "<oneSwitch"@,
        ) && !contains(xml, "<oneLight"@) ==> value_shape(xml, name) == Some(
            ValueShape::Text(Seq::empty()),
        ),
{
}

/// When a property's XML text has a `oneLight` element and none of the
/// kinds checked before it, the value is a light exactly when the element's
/// content is the protocol text of a state, and then that state.
pub proof fn lemma_light_value(xml: Seq<char>, name: Seq<char>)
    requires
        !contains(xml, "<oneText"@),
        !contains(xml, "<oneNumber"@),
        !contains(xml, "<oneSwitch"@),
        contains(xml, "<oneLight"@),
    ensures
        forall|st: PropertyState|
            element_content(xml, "oneLight"@) == Some(#[trigger] state_text(st)) ==> value_shape(
                xml,
                name,
            ) == Some(ValueShape::Light(st)),
        value_shape(xml, name) matches Some(ValueShape::Light(st)) ==> element_content(
            xml,
            "oneLight"@,
        ) == Some(state_text(st)),
        value_shape(xml, name) is Some ==> value_shape(xml, name)->0 is Light,
{
    if element_content(xml, "oneLight"@) is Some {
        lemma_state_parse_canonical(element_content(xml, "oneLight"@)->0);
    }
    assert forall|st: PropertyState|
        element_content(xml, "oneLight"@) == Some(#[trigger] state_text(st)) implies value_shape(
            xml,
            name,
        ) == Some(ValueShape::Light(st)) by {
        lemma_state_text_roundtrip(st);
    }
}

/// When a property's XML text has a `oneSwitch` element and no `oneText`
/// or `oneNumber`, the value is a switch, On exactly when the content read
/// is the protocol text of On.
pub proof fn lemma_switch_value(xml: Seq<char>, name: Seq<char>)
    requires
        !contains(xml, "<oneText"@),
        !contains(xml, "<oneNumber"@),
        contains(xml, "<oneSwitch"@),
    ensures
        ({
            let c = if name == "CONNECTION"@ {
                element_content_with_attr(xml, "oneSwitch"@, "name"@, "CONNECT"@)
            } else {
                element_content(xml, "oneSwitch"@)
            };
            &&& c is None ==> value_shape(xml, name) is None
            &&& c matches Some(t) ==> (value_shape(xml, name) matches Some(ValueShape::Switch(st))
                && (st == SwitchState::On <==> t == switch_text(SwitchState::On)))
        }),
{
    reveal_strlit("On");
    assert("On"@ =~= switch_text(SwitchState::On));
}

/// Whether a property value has the described shape (numbers keep the text
/// they were given in, with no format).
pub open spec fn value_has_shape(v: PropertyValue, sh: ValueShape) -> bool {
    match sh {
        ValueShape::Text(t) => v matches PropertyValue::Text(x) && x@ == t,
        ValueShape::Number(t) => v matches PropertyValue::Number(x, f) && x@ == t && f is None,
        ValueShape::Switch(st) => v == PropertyValue::Switch(st),
        ValueShape::Light(st) => v == PropertyValue::Light(st),
    }
}

/// The state attribute's state, Idle when absent or not a state.
pub open spec fn state_attribute(xml: Seq<char>) -> PropertyState {
    match attribute_value(xml, "state"@) {
        Some(t) => match state_from_text(t) {
            Some(st) => st,
            None => PropertyState::Idle,
        },
        None => PropertyState::Idle,
    }
}

/// The perm attribute's permission, read-write when absent or not a permission.
pub open spec fn perm_attribute(xml: Seq<char>) -> PropertyPerm {
    match attribute_value(xml, "perm"@) {
        Some(t) => match perm_from_text(t) {
            Some(p) => p,
            None => PropertyPerm::Rw,
        },
        None => PropertyPerm::Rw,
    }
}

fn contains_str(c: &Vec<char>, p: &str) -> (r: bool)
    ensures
        r == contains(c@, p@),
{
    let pv = to_chars(p);
    assert(c@.skip(0) =~= c@);
    find_from(c, &pv, 0).is_some()
}

/// Parse property from XML string: needs `device` and `name` attributes and
/// a value (see `value_shape`); the state and permission attributes default
/// to Idle and read-write. The property carries no timestamp.
pub fn parse_property(xml: &str) -> (r: Option<Property>)
    ensures
        match (attribute_value(xml@, "device"@), attribute_value(xml@, "name"@)) {
            (Some(d), Some(n)) => match value_shape(xml@, n) {
                Some(sh) => r matches Some(p) && p.device@ == d && p.name@ == n && value_has_shape(
                    p.value,
                    sh,
                ) && p.state == state_attribute(xml@) && p.perm == perm_attribute(xml@)
                    && p.timestamp@ == Seq::<char>::empty() && p.label is None && p.group is None
                    && p.timeout is None && p.elements is None,
                None => r is None,
            },
            _ => r is None,
        },
{
    proof {
        reveal_strlit("device");
        reveal_strlit("name");
        reveal_strlit("state");
        reveal_strlit("perm");
        reveal_strlit("<oneText");
        reveal_strlit("oneText");
        reveal_strlit("<oneNumber");
        reveal_strlit("oneNumber");
        reveal_strlit("<oneSwitch");
        reveal_strlit("oneSwitch");
        reveal_strlit("<oneLight");
        reveal_strlit("oneLight");
        reveal_strlit("CONNECTION");
        reveal_strlit("CONNECT");
        reveal_strlit("On");
    }
    let device = match parse_attribute(xml, "device") {
        Some(d) => d,
        None => return None,
    };
    let name = match parse_attribute(xml, "name") {
        Some(n) => n,
        None => return None,
    };
    let state = match parse_attribute(xml, "state") {
        Some(t) => match PropertyState::parse_str(t.as_str()) {
            Ok(st) => st,
            Err(_) => PropertyState::Idle,
        },
        None => PropertyState::Idle,
    };
    let perm = match parse_attribute(xml, "perm") {
        Some(t) => match PropertyPerm::parse_str(t.as_str()) {
            Ok(p) => p,
            Err(_) => PropertyPerm::Rw,
        },
        None => PropertyPerm::Rw,
    };
    let c = to_chars(xml);
    let value = if contains_str(&c, "<oneText") {
        match parse_element_content(xml, "oneText") {
            Some(t) => PropertyValue::Text(t),
            None => return None,
        }
    } else if contains_str(&c, "<oneNumber") {
        match parse_element_content(xml, "oneNumber") {
            Some(t) => {
                let tc = to_chars(t.as_str());
                if float_text(tc.as_slice()) {
                    PropertyValue::Number(t, None)
                } else {
                    return None;
                }
            },
            None => return None,
        }
    } else if contains_str(&c, "<oneSwitch") {
        let content = if crate::strings::str_eq(name.as_str(), "CONNECTION") {
            parse_element_content_with_attr(xml, "oneSwitch", "name", "CONNECT")
        } else {
            parse_element_content(xml, "oneSwitch")
        };
        match content {
            Some(t) => PropertyValue::Switch(
                if crate::strings::str_eq(t.as_str(), "On") {
                    SwitchState::On
                } else {
                    SwitchState::Off
                },
            ),
            None => return None,
        }
    } else if contains_str(&c, "<oneLight") {
        match parse_element_content(xml, "oneLight") {
            Some(t) => match PropertyState::parse_str(t.as_str()) {
                Ok(st) => PropertyValue::Light(st),
                Err(_) => return None,
            },
            None => return None,
        }
    } else {
        PropertyValue::Text(String::new())
    };
    Some(Property::new(device, name, value, state, perm, String::new()))
}

} // verus!
