//! XML text as quick-xml's reader sees it: a sequence of events.
//!
//! The reader is quick-xml's; the events it gives for a text are named, not
//! spelled out. The searches over the events are verified.
use vstd::prelude::*;

use quick_xml::events::Event::{Empty, Eof, GeneralRef, Start, Text};
use quick_xml::Reader;

use crate::strings::{append, from_chars, push_char, str_eq, to_chars};

verus! {

/// quick-xml's XML reader.
#[verifier::external_type_specification]
#[verifier::external_body]
#[verifier::reject_recursive_types(R)]
pub struct ExReader<R>(Reader<R>);

/// An event of the XML reader, as plain values.
pub enum XmlEvent {
    /// A tag with its name and attributes: `true` for an empty-element tag
    /// (`<name .../>`), `false` for a start tag. Each attribute is its name
    /// and its unescaped value (`None` when the value cannot be unescaped),
    /// or `None` when the attribute is malformed.
    Tag(bool, String, Vec<Option<(String, Option<String>)>>),
    /// Character data between tags and references, as it stands in the text
    Text(String),
    /// A general entity or character reference (`&name;`), by the text
    /// between `&` and `;`
    Ref(String),
    /// The end of the text
    Eof,
    /// A reading error
    Error,
    /// Any other event (end tags, comments, declarations and the like)
    Other,
}

/// The events quick-xml's reader gives for a text, before it reaches the end
/// of the text. Character data comes as text events, split at references,
/// which come as events of their own.
pub uninterp spec fn xml_events(xml: Seq<char>) -> Seq<XmlEvent>;

/// The events a reader has yet to give before the end of its text.
pub uninterp spec fn pending_events(r: Reader<&[u8]>) -> Seq<XmlEvent>;

/// quick-xml's reader over a text (`Reader::from_str`), with its default
/// configuration: it has all the text's events to give.
#[verifier::external_body]
pub fn xml_reader(xml: &str) -> (r: Reader<&[u8]>)
    ensures
        pending_events(r) == xml_events(xml@),
{
    Reader::from_str(xml)
}

/// What `quick_xml::escape::unescape` gives for a text: the text with its
/// references replaced, or nothing when a reference is malformed or
/// unknown.
pub uninterp spec fn xml_unescape(raw: Seq<char>) -> Option<Seq<char>>;

/// Whether a text holds no `&`, and so no reference.
pub open spec fn free_of_references(s: Seq<char>) -> bool {
    forall|i: int| 0 <= i < s.len() ==> s[i] != '&'
}

/// Replaces the references of a text (`quick_xml::escape::unescape`):
/// `None` when one is malformed or unknown. The contract names the result,
/// and states what the source shows for a text without `&`: it comes back
/// unchanged.
#[verifier::external_body]
fn unescape_text(raw: &str) -> (r: Option<String>)
    ensures
        match r {
            Some(s) => xml_unescape(raw@) == Some(s@),
            None => xml_unescape(raw@) is None,
        },
        free_of_references(raw@) ==> r is Some && r->0@ == raw@,
{
    quick_xml::escape::unescape(raw).ok().map(|s| s.to_string())
}

/// The next event of the reader (`Reader::read_event`) as plain values: the
/// first pending event, or the end once none is pending. Tags, text and
/// references are converted field by field; any other event is `Other`.
#[verifier::external_body]
pub fn next_event(reader: &mut Reader<&[u8]>) -> (e: XmlEvent)
    ensures
        pending_events(*old(reader)).len() == 0 ==> e == XmlEvent::Eof && pending_events(
            *final(reader),
        ).len() == 0,
        pending_events(*old(reader)).len() > 0 ==> e == pending_events(*old(reader))[0]
            && pending_events(*final(reader)) == pending_events(*old(reader)).drop_first(),
{
    let (empty, t) = match reader.read_event() {
        Ok(Start(t)) => (false, t),
        Ok(Empty(t)) => (true, t),
        Ok(Text(t)) => return XmlEvent::Text(t.to_string()),
        Ok(GeneralRef(t)) => return XmlEvent::Ref(t.to_string()),
        Ok(Eof) => return XmlEvent::Eof,
        Ok(_) => return XmlEvent::Other,
        Err(_) => return XmlEvent::Error,
    };
    let attributes = t.attributes().map(|a| a.ok().map(|a| (a.key.as_ref().to_string(),
        a.unescape_value().ok().map(String::from)))).collect();
    XmlEvent::Tag(empty, t.name().as_ref().to_string(), attributes)
}

/// The first well-formed attribute of the given name, by its value (`None`
/// inside when the value cannot be unescaped).
pub open spec fn attribute_in(
    attrs: Seq<Option<(String, Option<String>)>>,
    name: Seq<char>,
) -> Option<Option<String>>
    decreases attrs.len(),
{
    if attrs.len() == 0 {
        None
    } else {
        match attrs[0] {
            Some((k, v)) => if k@ == name {
                Some(v)
            } else {
                attribute_in(attrs.drop_first(), name)
            },
            None => attribute_in(attrs.drop_first(), name),
        }
    }
}

/// The value of the first attribute of the given name on any tag of the
/// events; the search stops with no value at an attribute of that name whose
/// value cannot be unescaped.
pub open spec fn first_attribute(events: Seq<XmlEvent>, attr: Seq<char>) -> Option<Seq<char>>
    decreases events.len(),
{
    if events.len() == 0 {
        None
    } else {
        match events[0] {
            XmlEvent::Tag(_, _, attrs) => match attribute_in(attrs@, attr) {
                Some(Some(v)) => Some(v@),
                Some(None) => None,
                None => first_attribute(events.drop_first(), attr),
            },
            XmlEvent::Eof => None,
            _ => first_attribute(events.drop_first(), attr),
        }
    }
}

/// Whether a character is XML white space: space, tab, carriage return or
/// line feed.
pub open spec fn xml_space(c: char) -> bool {
    c == ' ' || c == '\t' || c == '\r' || c == '\n'
}

/// The number of leading XML white space characters.
pub open spec fn xml_lead(s: Seq<char>) -> nat
    decreases s.len(),
{
    if s.len() > 0 && xml_space(s[0]) {
        1 + xml_lead(s.drop_first())
    } else {
        0
    }
}

/// The number of trailing XML white space characters.
pub open spec fn xml_trail(s: Seq<char>) -> nat
    decreases s.len(),
{
    if s.len() > 0 && xml_space(s.last()) {
        1 + xml_trail(s.drop_last())
    } else {
        0
    }
}

/// A text without leading and trailing XML white space.
pub open spec fn xml_trim(s: Seq<char>) -> Seq<char> {
    let t = s.skip(xml_lead(s) as int);
    t.take(t.len() - xml_trail(t))
}

proof fn lemma_xml_lead(s: Seq<char>, i: int)
    requires
        0 <= i <= s.len(),
        forall|j: int| 0 <= j < i ==> xml_space(#[trigger] s[j]),
        i < s.len() ==> !xml_space(s[i]),
    ensures
        xml_lead(s) == i,
    decreases i,
{
    if i > 0 {
        assert forall|j: int| 0 <= j < i - 1 implies xml_space(#[trigger] s.drop_first()[j]) by {
            assert(s.drop_first()[j] == s[j + 1]);
        }
        lemma_xml_lead(s.drop_first(), i - 1);
    }
}

proof fn lemma_xml_trail(s: Seq<char>, i: int)
    requires
        0 <= i <= s.len(),
        forall|j: int| s.len() - i <= j < s.len() ==> xml_space(#[trigger] s[j]),
        i < s.len() ==> !xml_space(s[s.len() - i - 1]),
    ensures
        xml_trail(s) == i,
    decreases i,
{
    if i > 0 {
        assert forall|j: int| s.drop_last().len() - (i - 1) <= j < s.drop_last().len() implies xml_space(#[trigger] s.drop_last()[j]) by {
            assert(s.drop_last()[j] == s[j]);
        }
        lemma_xml_trail(s.drop_last(), i - 1);
    }
}

/// The bounds of a text without its leading and trailing XML white space.
fn xml_trim_bounds(c: &Vec<char>) -> (r: (usize, usize))
    ensures
        r.0 <= r.1 <= c@.len(),
        c@.subrange(r.0 as int, r.1 as int) == xml_trim(c@),
{
    let n = c.len();
    let mut a: usize = 0;
    while a < n && (c[a] == ' ' || c[a] == '\t' || c[a] == '\r' || c[a] == '\n')
        invariant
            a <= n == c@.len(),
            forall|j: int| 0 <= j < a ==> xml_space(#[trigger] c@[j]),
        decreases n - a,
    {
        a = a + 1;
    }
    proof {
        lemma_xml_lead(c@, a as int);
    }
    let ghost t = c@.skip(a as int);
    let mut b = n;
    while b > a && (c[b - 1] == ' ' || c[b - 1] == '\t' || c[b - 1] == '\r' || c[b - 1] == '\n')
        invariant
            a <= b <= n == c@.len(),
            t == c@.skip(a as int),
            forall|j: int| t.len() - (n - b) <= j < t.len() ==> xml_space(#[trigger] t[j]),
        decreases b - a,
    {
        assert(t[b - 1 - a] == c@[b - 1]);
        b = b - 1;
    }
    proof {
        if b > a {
            assert(t[t.len() - (n - b) - 1] == c@[b - 1]);
        }
        lemma_xml_trail(t, (n - b) as int);
        assert(t.take(t.len() - xml_trail(t)) =~= c@.subrange(a as int, b as int));
    }
    (a, b)
}

/// Whether an event is character data: text or a reference.
pub open spec fn is_char_data(e: XmlEvent) -> bool {
    e is Text || e is Ref
}

/// The number of character-data events at the front of the events.
pub open spec fn char_data_run(events: Seq<XmlEvent>) -> nat
    decreases events.len(),
{
    if events.len() > 0 && is_char_data(events[0]) {
        1 + char_data_run(events.drop_first())
    } else {
        0
    }
}

/// The text character-data events stand for: text as it stands, a
/// reference as `&name;`.
pub open spec fn raw_text(events: Seq<XmlEvent>) -> Seq<char>
    decreases events.len(),
{
    if events.len() == 0 {
        Seq::empty()
    } else {
        raw_text(events.drop_last()) + match events.last() {
            XmlEvent::Text(t) => t@,
            XmlEvent::Ref(n) => seq!['&'] + n@ + seq![';'],
            _ => Seq::empty(),
        }
    }
}

proof fn lemma_char_data_run(events: Seq<XmlEvent>, i: int)
    requires
        0 <= i <= events.len(),
        forall|j: int| 0 <= j < i ==> is_char_data(#[trigger] events[j]),
        i < events.len() ==> !is_char_data(events[i]),
    ensures
        char_data_run(events) == i,
    decreases i,
{
    if i > 0 {
        assert forall|j: int| 0 <= j < i - 1 implies is_char_data(#[trigger] events.drop_first()[j]) by {
            assert(events.drop_first()[j] == events[j + 1]);
        }
        lemma_char_data_run(events.drop_first(), i - 1);
    }
}

/// The content of the first start tag of the given element: the character
/// data right after it (text and references) without surrounding XML white
/// space, with its references replaced (`None` when one cannot be). When
/// that data is only white space, the event after it is passed over too and
/// the search goes on. It stops at the end and at a reading error.
pub open spec fn first_content(events: Seq<XmlEvent>, element: Seq<char>) -> Option<Seq<char>>
    decreases events.len(),
{
    if events.len() == 0 {
        None
    } else {
        match events[0] {
            XmlEvent::Tag(empty, name, _) => if !empty && name@ == element {
                let rest = events.drop_first();
                let n = char_data_run(rest) as int;
                let raw = xml_trim(raw_text(rest.take(n)));
                if raw.len() > 0 {
                    xml_unescape(raw)
                } else if n >= rest.len() {
                    None
                } else {
                    first_content(rest.skip(n + 1), element)
                }
            } else {
                first_content(events.drop_first(), element)
            },
            XmlEvent::Eof => None,
            XmlEvent::Error => None,
            _ => first_content(events.drop_first(), element),
        }
    }
}

/// The first well-formed attribute of the given name among the attributes.
fn find_attribute(attrs: &Vec<Option<(String, Option<String>)>>, name: &str) -> (r: Option<
    Option<String>,
>)
    ensures
        r == attribute_in(attrs@, name@),
{
    let mut i: usize = 0;
    assert(attrs@.skip(0) =~= attrs@);
    while i < attrs.len()
        invariant
            i <= attrs@.len(),
            attribute_in(attrs@.skip(i as int), name@) == attribute_in(attrs@, name@),
        decreases attrs.len() - i,
    {
        assert(attrs@.skip(i as int).drop_first() =~= attrs@.skip(i + 1));
        match &attrs[i] {
            Some((k, v)) => {
                if str_eq(k.as_str(), name) {
                    let value = match v {
                        Some(s) => Some(s.clone()),
                        None => None,
                    };
                    return Some(value);
                }
            },
            None => {},
        }
        i = i + 1;
    }
    assert(attrs@.skip(i as int).len() == 0);
    None
}

/// The value of the first attribute of the given name in the XML text, as
/// quick-xml's reader gives its events (see `first_attribute`).
pub fn xml_attribute(xml: &str, attr: &str) -> (r: Option<String>)
    ensures
        match first_attribute(xml_events(xml@), attr@) {
            None => r is None,
            Some(v) => r matches Some(s) && s@ == v,
        },
{
    let mut reader = xml_reader(xml);
    loop
        invariant
            first_attribute(pending_events(reader), attr@) == first_attribute(xml_events(xml@), attr@),
        decreases pending_events(reader).len(),
    {
        let event = next_event(&mut reader);
        match event {
            XmlEvent::Tag(_, _, attributes) => {
                match find_attribute(&attributes, attr) {
                    Some(value) => {
                        return value;
                    },
                    None => {},
                }
            },
            XmlEvent::Eof => {
                return None;
            },
            _ => {},
        }
    }
}

/// The content of the first start tag of the given element in the XML
/// text, as quick-xml's reader gives its events (see `first_content`).
pub fn xml_content(xml: &str, element: &str) -> (r: Option<String>)
    ensures
        match first_content(xml_events(xml@), element@) {
            None => r is None,
            Some(v) => r matches Some(s) && s@ == v,
        },
{
    let mut reader = xml_reader(xml);
    loop
        invariant
            first_content(pending_events(reader), element@) == first_content(
                xml_events(xml@),
                element@,
            ),
        decreases pending_events(reader).len(),
    {
        let ghost before = pending_events(reader);
        let event = next_event(&mut reader);
        match event {
            XmlEvent::Tag(empty, name, _) => {
                if !empty && str_eq(name.as_str(), element) {
                    let ghost rest = pending_events(reader);
                    assert(rest == before.drop_first());
                    let mut raw = String::new();
                    let mut more = true;
                    let ghost mut j: int = 0;
                    while more
                        invariant
                            rest == before.drop_first(),
                            before.len() > 0,
                            0 <= j <= rest.len(),
                            forall|i: int| 0 <= i < j ==> is_char_data(#[trigger] rest[i]),
                            raw@ == raw_text(rest.take(j)),
                            more ==> pending_events(reader) == rest.skip(j),
                            !more ==> (j == rest.len() && pending_events(reader).len() == 0) || (
                            j < rest.len() && !is_char_data(rest[j]) && pending_events(reader)
                                == rest.skip(j + 1)),
                        decreases rest.len() - j + if more { 1int } else { 0int },
                    {
                        let ghost pend = pending_events(reader);
                        let e = next_event(&mut reader);
                        proof {
                            if pend.len() > 0 {
                                assert(rest.skip(j).drop_first() =~= rest.skip(j + 1));
                                assert(rest.take(j + 1).drop_last() =~= rest.take(j));
                            }
                        }
                        match e {
                            XmlEvent::Text(t) => {
                                append(&mut raw, t.as_str());
                                proof {
                                    j = j + 1;
                                }
                            },
                            XmlEvent::Ref(name) => {
                                push_char(&mut raw, '&');
                                append(&mut raw, name.as_str());
                                push_char(&mut raw, ';');
                                proof {
                                    j = j + 1;
                                }
                            },
                            _ => {
                                more = false;
                            },
                        }
                    }
                    proof {
                        lemma_char_data_run(rest, j);
                    }
                    let c = to_chars(raw.as_str());
                    let (a, b) = xml_trim_bounds(&c);
                    if a < b {
                        let t = from_chars(&c.as_slice()[a..b]);
                        assert(t@ =~= xml_trim(raw@));
                        return unescape_text(t.as_str());
                    }
                    proof {
                        if j < rest.len() {
                            assert(pending_events(reader) == rest.skip(j + 1));
                        }
                    }
                }
            },
            XmlEvent::Eof => {
                return None;
            },
            XmlEvent::Error => {
                return None;
            },
            _ => {},
        }
    }
}

} // verus!
