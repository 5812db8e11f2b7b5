//! Finding where a received XML message is complete.
//!
//! Messages arrive as text in pieces. A scanner runs over the text, after
//! surrounding white space is trimmed, tracking tag nesting; the text holds a
//! complete message once the nesting returns to zero outside any tag.
use vstd::prelude::*;

use crate::strings::{lemma_trim_len, lemma_trim_prefix, to_chars, trim, trimmed};

verus! {

/// The scanner's state
#[derive(Debug, Clone, Copy)]
pub struct XmlParseState {
    /// Nesting depth of open elements
    pub depth: i64,
    /// Whether the scanner is inside a tag
    pub in_tag: bool,
    /// Whether the current tag is a declaration (`<?...?>`)
    pub skip_decl: bool,
    /// The last marker character seen in the current tag
    pub last_char: Option<char>,
    /// The previous character
    pub prev_char: Option<char>,
    /// Whether the current tag is a closing tag
    pub is_closing_tag: bool,
    /// Whether the current tag is self-closing
    pub is_self_closing: bool,
}

/// The state before any character.
pub open spec fn initial_state() -> XmlParseState {
    XmlParseState {
        depth: 0,
        in_tag: false,
        skip_decl: false,
        last_char: None,
        prev_char: None,
        is_closing_tag: false,
        is_self_closing: false,
    }
}

/// One step of the scanner on a character.
///
/// `<` outside a tag opens one; inside a tag, `/` right after `<` makes a
/// closing tag (one level less), and `/` after anything but a space makes it
/// self-closing; `?` right after `<` makes a declaration; `>` ends the tag,
/// one level more unless it was a declaration, a closing or a self-closing
/// tag.
pub open spec fn scan_step(s: XmlParseState, c: char) -> XmlParseState {
    let t = if c == '<' && !s.in_tag {
        XmlParseState {
            in_tag: true,
            is_closing_tag: false,
            is_self_closing: false,
            last_char: None,
            ..s
        }
    } else if c == '/' && s.in_tag {
        if s.prev_char == Some('<') {
            XmlParseState {
                is_closing_tag: true,
                depth: (s.depth - 1) as i64,
                last_char: Some('/'),
                ..s
            }
        } else if s.prev_char != Some(' ') {
            XmlParseState { is_self_closing: true, last_char: Some('/'), ..s }
        } else {
            XmlParseState { last_char: Some('/'), ..s }
        }
    } else if c == '?' && s.in_tag && s.prev_char == Some('<') {
        XmlParseState { skip_decl: true, last_char: Some('?'), ..s }
    } else if c == '>' && s.in_tag {
        let depth = if s.skip_decl || s.is_self_closing || s.is_closing_tag {
            s.depth
        } else {
            (s.depth + 1) as i64
        };
        XmlParseState {
            in_tag: false,
            skip_decl: false,
            depth,
            last_char: None,
            is_closing_tag: false,
            is_self_closing: false,
            ..s
        }
    } else {
        XmlParseState { last_char: None, ..s }
    };
    XmlParseState { prev_char: Some(c), ..t }
}

/// The scanner's state after a run of characters.
pub open spec fn scan_run(s: XmlParseState, cs: Seq<char>) -> XmlParseState
    decreases cs.len(),
{
    if cs.len() == 0 {
        s
    } else {
        scan_step(scan_run(s, cs.drop_last()), cs.last())
    }
}

/// Whether the scanner stands at the end of a complete message.
pub open spec fn scan_complete(s: XmlParseState) -> bool {
    s.depth == 0 && !s.in_tag && !s.skip_decl
}

/// Whether some non-empty prefix of the trimmed text leaves the scanner at
/// the end of a complete message.
pub open spec fn has_complete_message(text: Seq<char>) -> bool {
    exists|k: int|
        1 <= k <= trim(text).len() && scan_complete(
            #[trigger] scan_run(initial_state(), trim(text).take(k)),
        )
}

impl XmlParseState {
    /// The state before any character.
    pub fn new() -> (r: Self)
        ensures
            r == initial_state(),
    {
        XmlParseState {
            depth: 0,
            in_tag: false,
            skip_decl: false,
            last_char: None,
            prev_char: None,
            is_closing_tag: false,
            is_self_closing: false,
        }
    }

    /// Advances the scanner by one character (see `scan_step`).
    pub fn process_char(&mut self, c: char)
        requires
            i64::MIN < old(self).depth < i64::MAX,
        ensures
            *final(self) == scan_step(*old(self), c),
    {
        if c == '<' && !self.in_tag {
            self.in_tag = true;
            self.is_closing_tag = false;
            self.is_self_closing = false;
            self.last_char = None;
        } else if c == '/' && self.in_tag {
            if self.prev_char == Some('<') {
                self.is_closing_tag = true;
                self.depth = self.depth - 1;
            } else if self.prev_char != Some(' ') {
                self.is_self_closing = true;
            }
            self.last_char = Some('/');
        } else if c == '?' && self.in_tag && self.prev_char == Some('<') {
            self.skip_decl = true;
            self.last_char = Some('?');
        } else if c == '>' && self.in_tag {
            self.in_tag = false;
            if self.skip_decl {
                self.skip_decl = false;
            } else if self.is_self_closing {
            } else if !self.is_closing_tag {
                self.depth = self.depth + 1;
            }
            self.last_char = None;
            self.is_closing_tag = false;
            self.is_self_closing = false;
        } else {
            self.last_char = None;
        }
        self.prev_char = Some(c);
    }

    /// Whether the scanner stands at the end of a complete message.
    pub fn is_complete(&self) -> (r: bool)
        ensures
            r == scan_complete(*self),
    {
        self.depth == 0 && !self.in_tag && !self.skip_decl
    }
}

/// Whether the text, once trimmed, holds a complete message: whether the
/// scanner reaches the end of a message at some character of it.
pub fn message_complete(xml_buffer: &str) -> (r: bool)
    requires
        xml_buffer@.len() < i64::MAX,
    ensures
        r == has_complete_message(xml_buffer@),
{
    let c = to_chars(xml_buffer);
    assert(c@.subrange(0, c@.len() as int) =~= xml_buffer@);
    let t = trimmed(&c, 0, c.len());
    let cs = to_chars(t.as_str());
    let ghost text = trim(xml_buffer@);
    assert(cs@ == text);
    proof {
        lemma_trim_len(xml_buffer@);
    }
    let mut state = XmlParseState::new();
    let mut i: usize = 0;
    while i < cs.len()
        invariant
            cs@ == text,
            text == trim(xml_buffer@),
            text.len() < i64::MAX,
            i <= text.len(),
            state == scan_run(initial_state(), text.take(i as int)),
            -(i as int) <= state.depth <= i,
            forall|k: int| 1 <= k <= i ==> !scan_complete(#[trigger] scan_run(initial_state(), text.take(k))),
        decreases cs.len() - i,
    {
        assert(text.take(i + 1).drop_last() =~= text.take(i as int));
        assert(text.take(i + 1).last() == cs@[i as int]);
        state.process_char(cs[i]);
        i = i + 1;
        assert(state == scan_run(initial_state(), text.take(i as int)));
        if state.is_complete() {
            assert(scan_complete(scan_run(initial_state(), text.take(i as int))));
            return true;
        }
    }
    false
}

/// Hands the trimmed text to `parse` once it holds a complete message, and
/// reports whether it does: a parsed message comes only together with the
/// completeness flag, and a text that is empty once trimmed gives neither.
pub fn parse_when_complete<T, F: Fn(String) -> Option<T>>(xml_buffer: &str, parse: F) -> (r: (
    Option<T>,
    bool,
))
    requires
        xml_buffer@.len() < i64::MAX,
        forall|t: String| parse.requires((t,)),
    ensures
        r.1 == has_complete_message(xml_buffer@),
        r.0 is Some ==> r.1,
        r.1 ==> exists|t: String| t@ == trim(xml_buffer@) && parse.ensures((t,), r.0),
        trim(xml_buffer@).len() == 0 ==> r.0 is None && !r.1,
{
    proof {
        if trim(xml_buffer@).len() == 0 {
            lemma_blank_text_incomplete(xml_buffer@);
        }
    }
    if message_complete(xml_buffer) {
        let c = to_chars(xml_buffer);
        assert(c@.subrange(0, c@.len() as int) =~= xml_buffer@);
        let t = trimmed(&c, 0, c.len());
        let m = parse(t);
        (m, true)
    } else {
        (None, false)
    }
}

/// A text that is empty once trimmed never holds a complete message.
pub proof fn lemma_blank_text_incomplete(s: Seq<char>)
    requires
        trim(s).len() == 0,
    ensures
        !has_complete_message(s),
{
}

/// Once a text holds a complete message it still does when more text
/// follows: the scanner sees the same characters up to that point.
pub proof fn lemma_complete_message_persists(s: Seq<char>, t: Seq<char>)
    requires
        has_complete_message(s),
    ensures
        has_complete_message(s + t),
{
    let k = choose|k: int|
        1 <= k <= trim(s).len() && scan_complete(
            #[trigger] scan_run(initial_state(), trim(s).take(k)),
        );
    lemma_trim_prefix(s, t);
    assert(trim(s + t).take(k) =~= trim(s).take(k));
    assert(scan_complete(scan_run(initial_state(), trim(s + t).take(k))));
}

} // verus!
