//! Whether some bytes can be read as a property list without harm.
//!
//! Two things are fatal to a program that reads one: a date in XML that lies
//! after the year 9999 once it is brought to Greenwich, and collections that
//! lie deeper in one another than there is room for on the stack.
use vstd::prelude::*;

use crate::dlna::{next_event, unread, xml_views, XmlEvent, XmlView};
use crate::number::{decimal, digit, digit_value, padded};
use crate::text::{
    begins, cut, is_digit, is_space, same, space, split_once, starts_with, to_chars,
};

verus! {

/// So many collections may lie in one another.
pub const NESTING: usize = 2000;

/// A word stands at a place among some bytes.
pub open spec fn spelled(bytes: Seq<u8>, at: int, word: Seq<char>) -> bool {
    0 <= at && at + word.len() <= bytes.len() && forall|j: int|
        0 <= j < word.len() ==> #[trigger] bytes[at + j] as char == word[j]
}

fn spells(bytes: &[u8], at: usize, word: &str) -> (r: bool)
    ensures
        r == spelled(bytes@, at as int, word@),
{
    let t = to_chars(word);
    let size: usize = bytes.len();
    if at > size || t.len() > size - at {
        return false;
    }
    for j in 0..t.len()
        invariant
            t@ == word@,
            size == bytes@.len(),
            at + t@.len() <= size,
            forall|i: int| 0 <= i < j ==> #[trigger] bytes@[at + i] as char == word@[i],
    {
        if bytes[at + j] as char != t[j] {
            assert(bytes@[at + j] as char != word@[j as int]);
            return false;
        }
    }
    true
}

// ---------------------------------------------------------------------------
// Dates

/// The number that two digits at a place are.
pub open spec fn two_digits(text: Seq<char>, at: int) -> Option<nat> {
    if is_digit(text[at]) && is_digit(text[at + 1]) {
        Some(digit_value(text[at]) * 10 + digit_value(text[at + 1]))
    } else {
        None
    }
}

/// A time of the last day that a date can be on, so far west of Greenwich that
/// there it is the next day: `9999-12-31`, one character, a time of the day,
/// and an offset behind a minus sign.
pub open spec fn far_stamp(text: Seq<char>) -> bool {
    let n = text.len() as int;
    &&& n >= 25
    &&& begins(text, "9999-12-31"@)
    &&& text[n - 6] == '-'
    &&& match (
        two_digits(text, 11),
        two_digits(text, 14),
        two_digits(text, n - 5),
        two_digits(text, n - 2),
    ) {
        (Some(hour), Some(minute), Some(hours), Some(minutes)) => (hour + hours) * 60 + minute
            + minutes >= 1440,
        _ => false,
    }
}

fn read_two(t: &Vec<char>, at: usize) -> (r: Option<u64>)
    requires
        at + 1 < t.len(),
    ensures
        match r {
            Some(n) => two_digits(t@, at as int) == Some(n as nat) && n <= 99,
            None => two_digits(t@, at as int) is None,
        },
{
    let tens: char = t[at];
    let ones: char = t[at + 1];
    if '0' <= tens && tens <= '9' && '0' <= ones && ones <= '9' {
        Some((tens as u64 - 48) * 10 + (ones as u64 - 48))
    } else {
        None
    }
}

fn is_far(text: &str) -> (r: bool)
    ensures
        r == far_stamp(text@),
{
    let t = to_chars(text);
    let n: usize = t.len();
    if n < 25 || !starts_with(text, "9999-12-31") || t[n - 6] != '-' {
        return false;
    }
    match (read_two(&t, 11), read_two(&t, 14), read_two(&t, n - 5), read_two(&t, n - 2)) {
        (Some(hour), Some(minute), Some(hours), Some(minutes)) => (hour + hours) * 60 + minute
            + minutes >= 1440,
        _ => false,
    }
}

// ---------------------------------------------------------------------------
// XML

/// The events of an XML document, up to its end or to the first error, with
/// empty elements as a start and an end, and text as it stands.
pub uninterp spec fn markup(bytes: Seq<u8>) -> Seq<XmlView>;

/// `quick_xml::Reader::from_reader`, set to expand empty elements, as a reader
/// of property lists sets it: the events depend on the bytes alone.
#[verifier::external_body]
pub(crate) fn open_markup<'a>(bytes: &'a [u8]) -> (r: quick_xml::Reader<&'a [u8]>)
    ensures
        unread(r) == markup(bytes@),
{
    let mut reader = quick_xml::Reader::from_reader(bytes);
    reader.config_mut().expand_empty_elements = true;
    reader
}

/// The events of an XML document.
pub fn read_markup(bytes: &[u8]) -> (r: Vec<XmlEvent>)
    ensures
        xml_views(r@) == markup(bytes@),
{
    let mut reader = open_markup(bytes);
    let mut out: Vec<XmlEvent> = Vec::new();
    let ghost all = markup(bytes@);
    assert(all.skip(0) =~= all);
    loop
        invariant_except_break
            all == markup(bytes@),
            out@.len() <= all.len(),
            unread(reader) == all.skip(out@.len() as int),
            forall|j: int| 0 <= j < out@.len() ==> #[trigger] out@[j]@ == all[j],
        ensures
            out@.len() == all.len(),
            forall|j: int| 0 <= j < out@.len() ==> #[trigger] out@[j]@ == all[j],
        decreases unread(reader).len(),
    {
        match next_event(&mut reader) {
            None => {
                break;
            },
            Some(event) => {
                let ghost n = out@.len() as int;
                assert(all.skip(n)[0] == all[n]);
                assert(all.skip(n).skip(1) =~= all.skip(n + 1));
                out.push(event);
            },
        }
    }
    assert(xml_views(out@) =~= markup(bytes@));
    out
}

/// The value of a digit, where it is one of the radix.
pub open spec fn digit_in(c: char, radix: nat) -> Option<nat> {
    let value = if '0' <= c && c <= '9' {
        c as int - 48
    } else if 'a' <= c && c <= 'f' {
        c as int - 87
    } else if 'A' <= c && c <= 'F' {
        c as int - 55
    } else {
        radix as int
    };
    if value < radix {
        Some(value as nat)
    } else {
        None
    }
}

/// The number that a row of digits denotes in a radix.
pub open spec fn radix_value(digits: Seq<char>, radix: nat) -> Option<nat>
    decreases digits.len(),
{
    if digits.len() == 0 {
        None
    } else if digits.len() == 1 {
        digit_in(digits[0], radix)
    } else {
        match (radix_value(digits.drop_last(), radix), digit_in(digits.last(), radix)) {
            (Some(head), Some(last)) => Some(head * radix + last),
            _ => None,
        }
    }
}

/// The character that a reference stands for by its number, decimal or behind
/// an `x` hexadecimal: none where it is no number, and nothing at all where the
/// number is not that of a character, or is zero.
pub open spec fn char_ref(name: Seq<char>) -> Option<Option<char>> {
    if begins(name, "#"@) {
        let number = name.skip(1);
        match if begins(number, "x"@) {
            radix_value(number.skip(1), 16)
        } else {
            radix_value(number, 10)
        } {
            Some(n) => if 0 < n <= 0xd7ff || 0xe000 <= n <= 0x10ffff {
                Some(Some(n as char))
            } else {
                None
            },
            None => None,
        }
    } else {
        Some(None)
    }
}

/// `quick_xml::events::BytesRef::resolve_char_ref`: the character that a
/// reference stands for by its number.
#[verifier::external_body]
pub(crate) fn resolve_char(name: &str) -> (r: Option<Option<char>>)
    ensures
        r == char_ref(name@),
{
    quick_xml::events::BytesRef::new(name).resolve_char_ref().ok()
}

/// The character that a reference stands for by its name; nothing for a name
/// that XML does not know.
pub open spec fn entity(name: Seq<char>) -> Seq<char> {
    if name == "lt"@ {
        "<"@
    } else if name == "gt"@ {
        ">"@
    } else if name == "amp"@ {
        "&"@
    } else if name == "apos"@ {
        "'"@
    } else if name == "quot"@ {
        "\""@
    } else {
        Seq::empty()
    }
}

fn entity_of(name: &str) -> (r: &'static str)
    ensures
        r@ == entity(name@),
{
    if same(name, "lt") {
        "<"
    } else if same(name, "gt") {
        ">"
    } else if same(name, "amp") {
        "&"
    } else if same(name, "apos") {
        "'"
    } else if same(name, "quot") {
        "\""
    } else {
        proof {
            reveal_strlit("");
        }
        assert(""@ =~= Seq::empty());
        ""
    }
}

/// The text of an element from a place on, after what has been read of it, and
/// the place behind its end; nothing where another element begins in it, it
/// does not end, or a reference in it is wrong.
pub open spec fn content_from(events: Seq<XmlView>, at: int, text: Seq<char>) -> Option<
    (Seq<char>, int),
>
    decreases events.len() - at,
{
    if at < 0 || at >= events.len() {
        None
    } else {
        match events[at] {
            XmlView::Text(more) => content_from(events, at + 1, text + more),
            XmlView::Reference(name) => match char_ref(name) {
                Some(Some(c)) => content_from(events, at + 1, text.push(c)),
                Some(None) => content_from(events, at + 1, text + entity(name)),
                None => None,
            },
            XmlView::End(_) => Some((text, at + 1)),
            XmlView::Start(_) => None,
            _ => content_from(events, at + 1, text),
        }
    }
}

fn content(events: &Vec<XmlEvent>, from: usize) -> (r: Option<(String, usize)>)
    requires
        from <= events@.len(),
    ensures
        match r {
            Some((text, next)) => content_from(xml_views(events@), from as int, Seq::empty())
                == Some((text@, next as int)) && from < next <= events@.len(),
            None => content_from(xml_views(events@), from as int, Seq::empty()) is None,
        },
{
    let mut text: String = String::new();
    let mut at: usize = from;
    let ghost all = xml_views(events@);
    assert(text@ =~= Seq::empty());
    while at < events.len()
        invariant
            all == xml_views(events@),
            from <= at <= events@.len(),
            content_from(all, at as int, text@) == content_from(all, from as int, Seq::empty()),
        decreases events@.len() - at,
    {
        assert(all[at as int] == events@[at as int]@);
        match &events[at] {
            XmlEvent::Text(more) => {
                text.append(more.as_str());
            },
            XmlEvent::Reference(name) => match resolve_char(name.as_str()) {
                Some(Some(c)) => {
                    text.push(c);
                },
                Some(None) => {
                    text.append(entity_of(name.as_str()));
                },
                None => {
                    return None;
                },
            },
            XmlEvent::End(_) => {
                return Some((text, at + 1));
            },
            XmlEvent::Start(_) => {
                return None;
            },
            _ => {},
        }
        at = at + 1;
    }
    None
}

/// A tag name behind its first colon.
pub open spec fn local_tag(name: Seq<char>) -> Seq<char> {
    match cut(name, ":"@) {
        Some((_, rest)) => rest,
        None => name,
    }
}

/// What an element of a property list is.
#[derive(Debug, Clone, Copy, PartialEq, Eq, Structural)]
pub enum Element {
    /// The list itself.
    List,
    Collection,
    Boolean,
    /// A text, or a key, which can be any text.
    Text,
    Date,
    /// Any other value that is written as text.
    Value,
    Unknown,
}

/// What an element of a property list is, by its name.
pub open spec fn element_named(name: Seq<char>) -> Element {
    let n = local_tag(name);
    if n == "plist"@ {
        Element::List
    } else if n == "array"@ || n == "dict"@ {
        Element::Collection
    } else if n == "true"@ || n == "false"@ {
        Element::Boolean
    } else if n == "key"@ || n == "string"@ {
        Element::Text
    } else if n == "date"@ {
        Element::Date
    } else if n == "data"@ || n == "integer"@ || n == "real"@ {
        Element::Value
    } else {
        Element::Unknown
    }
}

fn element(name: &str) -> (r: Element)
    ensures
        r == element_named(name@),
{
    let n: String = match split_once(name, ":") {
        Some((_, rest)) => rest,
        None => name.to_owned(),
    };
    let n = n.as_str();
    if same(n, "plist") {
        Element::List
    } else if same(n, "array") || same(n, "dict") {
        Element::Collection
    } else if same(n, "true") || same(n, "false") {
        Element::Boolean
    } else if same(n, "key") || same(n, "string") {
        Element::Text
    } else if same(n, "date") {
        Element::Date
    } else if same(n, "data") || same(n, "integer") || same(n, "real") {
        Element::Value
    } else {
        Element::Unknown
    }
}

/// There is nothing but white space.
pub open spec fn all_space(text: Seq<char>) -> bool {
    forall|i: int| 0 <= i < text.len() ==> is_space(#[trigger] text[i])
}

fn only_space(text: &str) -> (r: bool)
    ensures
        r == all_space(text@),
{
    let t = to_chars(text);
    for i in 0..t.len()
        invariant
            t@ == text@,
            forall|j: int| 0 <= j < i ==> is_space(#[trigger] text@[j]),
    {
        if !space(t[i]) {
            assert(!is_space(text@[i as int]));
            return false;
        }
    }
    true
}

/// A reference that stands for white space.
pub open spec fn space_ref(name: Seq<char>) -> bool {
    char_ref(name) matches Some(Some(c)) && is_space(c)
}

fn is_space_ref(name: &str) -> (r: bool)
    ensures
        r == space_ref(name@),
{
    match resolve_char(name) {
        Some(Some(c)) => space(c),
        _ => false,
    }
}

/// To read a document from a place on, where so many collections are open, is
/// fatal: there is a far date in it, or one collection too many in another. At
/// an element or at text that does not belong there, reading ends.
pub open spec fn fatal_markup(events: Seq<XmlView>, at: int, depth: nat) -> bool
    decreases events.len() - at,
{
    if at < 0 || at >= events.len() {
        false
    } else {
        match events[at] {
            XmlView::Start(name) => match element_named(name) {
                Element::Collection => depth >= NESTING || fatal_markup(events, at + 1, depth + 1),
                Element::List | Element::Boolean => fatal_markup(events, at + 1, depth),
                Element::Unknown => false,
                kind => match content_from(events, at + 1, Seq::empty()) {
                    Some((text, next)) => (kind is Date && far_stamp(text)) || (at < next
                        <= events.len() && fatal_markup(events, next, depth)),
                    None => false,
                },
            },
            XmlView::End(name) => fatal_markup(
                events,
                at + 1,
                if element_named(name) is Collection && depth > 0 {
                    (depth - 1) as nat
                } else {
                    depth
                },
            ),
            XmlView::Text(text) => all_space(text) && fatal_markup(events, at + 1, depth),
            XmlView::Reference(name) => space_ref(name) && fatal_markup(events, at + 1, depth),
            _ => fatal_markup(events, at + 1, depth),
        }
    }
}

fn is_fatal_markup(events: &Vec<XmlEvent>) -> (r: bool)
    ensures
        r == fatal_markup(xml_views(events@), 0, 0),
{
    let ghost all = xml_views(events@);
    let mut at: usize = 0;
    let mut depth: usize = 0;
    while at < events.len()
        invariant
            all == xml_views(events@),
            at <= events@.len(),
            depth <= NESTING,
            fatal_markup(all, at as int, depth as nat) == fatal_markup(all, 0, 0),
        decreases events@.len() - at,
    {
        assert(all[at as int] == events@[at as int]@);
        match &events[at] {
            XmlEvent::Start(name) => {
                let kind = element(name.as_str());
                match kind {
                    Element::Collection => {
                        if depth >= NESTING {
                            return true;
                        }
                        depth = depth + 1;
                        at = at + 1;
                    },
                    Element::List | Element::Boolean => {
                        at = at + 1;
                    },
                    Element::Unknown => {
                        return false;
                    },
                    _ => match content(events, at + 1) {
                        Some((text, next)) => {
                            if kind == Element::Date && is_far(text.as_str()) {
                                return true;
                            }
                            at = next;
                        },
                        None => {
                            return false;
                        },
                    },
                }
            },
            XmlEvent::End(name) => {
                if element(name.as_str()) == Element::Collection && depth > 0 {
                    depth = depth - 1;
                }
                at = at + 1;
            },
            XmlEvent::Text(text) => {
                if !only_space(text.as_str()) {
                    return false;
                }
                at = at + 1;
            },
            XmlEvent::Reference(name) => {
                if !is_space_ref(name.as_str()) {
                    return false;
                }
                at = at + 1;
            },
            _ => {
                at = at + 1;
            },
        }
    }
    false
}

/// A document is taken for XML, whatever follows: there is a declaration, or a
/// value that is well written, before anything that does not belong there.
pub open spec fn is_xml(events: Seq<XmlView>, at: int) -> bool
    decreases events.len() - at,
{
    if at < 0 || at >= events.len() {
        false
    } else {
        match events[at] {
            XmlView::Prolog => true,
            XmlView::Start(name) => match element_named(name) {
                Element::List => is_xml(events, at + 1),
                Element::Collection | Element::Boolean => true,
                Element::Text => content_from(events, at + 1, Seq::empty()) is Some,
                _ => false,
            },
            XmlView::Text(text) => all_space(text) && is_xml(events, at + 1),
            XmlView::Reference(name) => space_ref(name) && is_xml(events, at + 1),
            _ => is_xml(events, at + 1),
        }
    }
}

fn taken_for_xml(events: &Vec<XmlEvent>) -> (r: bool)
    ensures
        r == is_xml(xml_views(events@), 0),
{
    let ghost all = xml_views(events@);
    let mut at: usize = 0;
    while at < events.len()
        invariant
            all == xml_views(events@),
            at <= events@.len(),
            is_xml(all, at as int) == is_xml(all, 0),
        decreases events@.len() - at,
    {
        assert(all[at as int] == events@[at as int]@);
        match &events[at] {
            XmlEvent::Prolog => {
                return true;
            },
            XmlEvent::Start(name) => match element(name.as_str()) {
                Element::List => {},
                Element::Collection | Element::Boolean => {
                    return true;
                },
                Element::Text => {
                    return content(events, at + 1).is_some();
                },
                _ => {
                    return false;
                },
            },
            XmlEvent::Text(text) => {
                if !only_space(text.as_str()) {
                    return false;
                }
            },
            XmlEvent::Reference(name) => {
                if !is_space_ref(name.as_str()) {
                    return false;
                }
            },
            _ => {},
        }
        at = at + 1;
    }
    false
}

// ---------------------------------------------------------------------------
// Text

/// The place behind a quoted text, of which the rest begins at a place: a
/// backslash takes the next byte with it. Nothing where the text does not end.
pub open spec fn quote_end(bytes: Seq<u8>, at: int, quote: u8) -> Option<int>
    decreases bytes.len() - at,
{
    if at < 0 || at >= bytes.len() {
        None
    } else if bytes[at] == quote {
        Some(at + 1)
    } else if bytes[at] as char == '\\' {
        if at + 1 < bytes.len() {
            quote_end(bytes, at + 2, quote)
        } else {
            None
        }
    } else {
        quote_end(bytes, at + 1, quote)
    }
}

fn find_quote_end(bytes: &[u8], from: usize, quote: u8) -> (r: Option<usize>)
    requires
        from <= bytes@.len(),
    ensures
        match r {
            Some(next) => quote_end(bytes@, from as int, quote) == Some(next as int) && from < next
                <= bytes@.len(),
            None => quote_end(bytes@, from as int, quote) is None,
        },
{
    let size: usize = bytes.len();
    let mut at: usize = from;
    while at < size
        invariant
            size == bytes@.len(),
            from <= at <= size,
            quote_end(bytes@, at as int, quote) == quote_end(bytes@, from as int, quote),
        decreases size - at,
    {
        if bytes[at] == quote {
            return Some(at + 1);
        }
        if bytes[at] as char == '\\' {
            if size - at < 2 {
                return None;
            }
            at = at + 2;
        } else {
            at = at + 1;
        }
    }
    None
}

/// The end of the line that a place is on.
pub open spec fn line_end(bytes: Seq<u8>, at: int) -> int
    decreases bytes.len() - at,
{
    if at < 0 || at >= bytes.len() || bytes[at] as char == '\n' {
        at
    } else {
        line_end(bytes, at + 1)
    }
}

fn find_line_end(bytes: &[u8], from: usize) -> (r: usize)
    requires
        from <= bytes@.len(),
    ensures
        r == line_end(bytes@, from as int),
        from <= r <= bytes@.len(),
{
    let size: usize = bytes.len();
    let mut at: usize = from;
    while at < size && bytes[at] as char != '\n'
        invariant
            size == bytes@.len(),
            from <= at <= size,
            line_end(bytes@, at as int) == line_end(bytes@, from as int),
        decreases size - at,
    {
        at = at + 1;
    }
    at
}

/// The place behind a comment, of which the rest begins at a place: behind a
/// `*` that a `/` follows, where a `*` takes any other byte with it, or at the
/// end, behind a `*`. Nothing where the comment does not end.
pub open spec fn comment_end(bytes: Seq<u8>, at: int) -> Option<int>
    decreases bytes.len() - at,
{
    if at < 0 || at >= bytes.len() {
        None
    } else if bytes[at] as char != '*' {
        comment_end(bytes, at + 1)
    } else if at + 1 >= bytes.len() {
        Some(at + 1)
    } else if bytes[at + 1] as char == '/' {
        Some(at + 2)
    } else {
        comment_end(bytes, at + 2)
    }
}

fn find_comment_end(bytes: &[u8], from: usize) -> (r: Option<usize>)
    requires
        from <= bytes@.len(),
    ensures
        match r {
            Some(next) => comment_end(bytes@, from as int) == Some(next as int) && from < next
                <= bytes@.len(),
            None => comment_end(bytes@, from as int) is None,
        },
{
    let size: usize = bytes.len();
    let mut at: usize = from;
    while at < size
        invariant
            size == bytes@.len(),
            from <= at <= size,
            comment_end(bytes@, at as int) == comment_end(bytes@, from as int),
        decreases size - at,
    {
        if bytes[at] as char != '*' {
            at = at + 1;
        } else if size - at < 2 {
            return Some(at + 1);
        } else if bytes[at + 1] as char == '/' {
            return Some(at + 2);
        } else {
            at = at + 2;
        }
    }
    None
}

/// A byte that ends a text without quotes.
pub open spec fn ends_word(c: char) -> bool {
    c == ' ' || c == ')' || c == '\r' || c == '\t' || c == ';' || c == ','
}

/// The end of a text without quotes.
pub open spec fn word_end(bytes: Seq<u8>, at: int) -> int
    decreases bytes.len() - at,
{
    if at < 0 || at >= bytes.len() || ends_word(bytes[at] as char) {
        at
    } else {
        word_end(bytes, at + 1)
    }
}

fn find_word_end(bytes: &[u8], from: usize) -> (r: usize)
    requires
        from <= bytes@.len(),
    ensures
        r == word_end(bytes@, from as int),
        from <= r <= bytes@.len(),
{
    let size: usize = bytes.len();
    let mut at: usize = from;
    while at < size
        invariant
            size == bytes@.len(),
            from <= at <= size,
            word_end(bytes@, at as int) == word_end(bytes@, from as int),
        decreases size - at,
    {
        let c = bytes[at] as char;
        if c == ' ' || c == ')' || c == '\r' || c == '\t' || c == ';' || c == ',' {
            return at;
        }
        at = at + 1;
    }
    at
}

/// The place behind what begins at a place and is no bracket: a text in quotes
/// or without, a comment, a separator or white space. Nothing where it is not
/// complete.
pub open spec fn token_end(bytes: Seq<u8>, at: int) -> Option<int> {
    let c = bytes[at] as char;
    if c == '\'' || c == '"' {
        quote_end(bytes, at + 1, bytes[at])
    } else if c == '/' {
        if at + 1 >= bytes.len() {
            None
        } else if bytes[at + 1] as char == '/' {
            Some(line_end(bytes, at + 1))
        } else if bytes[at + 1] as char == '*' {
            comment_end(bytes, at + 1)
        } else {
            Some(word_end(bytes, at + 1))
        }
    } else if c == ',' || c == ';' || c == '=' || c == ' ' || c == '\r' || c == '\t' || c == '\n' {
        Some(at + 1)
    } else {
        Some(word_end(bytes, at + 1))
    }
}

fn find_token_end(bytes: &[u8], at: usize) -> (r: Option<usize>)
    requires
        at < bytes@.len(),
    ensures
        match r {
            Some(next) => token_end(bytes@, at as int) == Some(next as int) && at < next
                <= bytes@.len(),
            None => token_end(bytes@, at as int) is None,
        },
{
    let size: usize = bytes.len();
    let c = bytes[at] as char;
    if c == '\'' || c == '"' {
        find_quote_end(bytes, at + 1, bytes[at])
    } else if c == '/' {
        if size - at < 2 {
            None
        } else if bytes[at + 1] as char == '/' {
            Some(find_line_end(bytes, at + 1))
        } else if bytes[at + 1] as char == '*' {
            find_comment_end(bytes, at + 1)
        } else {
            Some(find_word_end(bytes, at + 1))
        }
    } else if c == ',' || c == ';' || c == '=' || c == ' ' || c == '\r' || c == '\t' || c == '\n' {
        Some(at + 1)
    } else {
        Some(find_word_end(bytes, at + 1))
    }
}

/// From a place on, where so many collections are open, one collection too many
/// lies in another.
pub open spec fn deep_text(bytes: Seq<u8>, at: int, depth: nat) -> bool
    decreases bytes.len() - at,
{
    if at < 0 || at >= bytes.len() {
        false
    } else {
        let c = bytes[at] as char;
        if c == '(' || c == '{' {
            depth >= NESTING || deep_text(bytes, at + 1, depth + 1)
        } else if c == ')' || c == '}' {
            deep_text(
                bytes,
                at + 1,
                if depth > 0 {
                    (depth - 1) as nat
                } else {
                    0
                },
            )
        } else {
            match token_end(bytes, at) {
                Some(next) => at < next <= bytes.len() && deep_text(bytes, next, depth),
                None => false,
            }
        }
    }
}

fn is_deep_text(bytes: &[u8]) -> (r: bool)
    ensures
        r == deep_text(bytes@, 0, 0),
{
    let size: usize = bytes.len();
    let mut at: usize = 0;
    let mut depth: usize = 0;
    while at < size
        invariant
            size == bytes@.len(),
            at <= size,
            depth <= NESTING,
            deep_text(bytes@, at as int, depth as nat) == deep_text(bytes@, 0, 0),
        decreases size - at,
    {
        let c = bytes[at] as char;
        if c == '(' || c == '{' {
            if depth >= NESTING {
                return true;
            }
            depth = depth + 1;
            at = at + 1;
        } else if c == ')' || c == '}' {
            if depth > 0 {
                depth = depth - 1;
            }
            at = at + 1;
        } else {
            match find_token_end(bytes, at) {
                Some(next) => {
                    at = next;
                },
                None => {
                    return false;
                },
            }
        }
    }
    false
}

// ---------------------------------------------------------------------------
// Binary

/// The number that `count` bytes from a place on are, the first one counting most.
pub open spec fn big_endian(bytes: Seq<u8>, at: int, count: nat) -> nat
    decreases count,
{
    if count == 0 {
        0
    } else {
        big_endian(bytes, at, (count - 1) as nat) * 256 + bytes[at + count - 1] as nat
    }
}

spec fn room(count: nat) -> nat
    decreases count,
{
    if count == 0 {
        1
    } else {
        room((count - 1) as nat) * 256
    }
}

proof fn big_endian_fits(bytes: Seq<u8>, at: int, count: nat)
    requires
        count <= 8,
    ensures
        big_endian(bytes, at, count) < room(count),
        room(count) <= 0x1_0000_0000_0000_0000,
    decreases count,
{
    if count > 0 {
        big_endian_fits(bytes, at, (count - 1) as nat);
    }
    assert(room(count) <= 0x1_0000_0000_0000_0000) by {
        reveal_with_fuel(room, 9);
    }
}

fn read_number(bytes: &[u8], at: usize, count: usize) -> (r: u64)
    requires
        at + count <= bytes.len(),
        count <= 8,
    ensures
        r == big_endian(bytes@, at as int, count as nat),
{
    let mut sum: u64 = 0;
    for i in 0..count
        invariant
            at + count <= bytes.len(),
            count <= 8,
            sum == big_endian(bytes@, at as int, i as nat),
    {
        proof {
            big_endian_fits(bytes@, at as int, (i + 1) as nat);
        }
        sum = sum * 256 + bytes[at + i] as u64;
    }
    sum
}

/// What the last bytes of a binary list say of it.
#[derive(Debug, Clone, Copy, PartialEq, Eq, Structural)]
pub struct Trailer {
    /// So many bytes hold the place of an object.
    pub offset_size: u8,
    /// So many bytes hold the number of an object.
    pub ref_size: u8,
    /// There are so many objects.
    pub objects: u64,
    /// The number of the object that all others lie in.
    pub root: u64,
    /// Where the places of the objects stand.
    pub table: u64,
}

/// So many bytes can hold a number of the list.
pub open spec fn is_width(n: u8) -> bool {
    n == 1 || n == 2 || n == 3 || n == 4 || n == 8
}

/// What the last bytes of a binary list say of it; nothing where they are not
/// complete, or the places of the objects do not stand before them.
pub open spec fn trailer_of(bytes: Seq<u8>) -> Option<Trailer> {
    let n = bytes.len() as int;
    let t = Trailer {
        offset_size: bytes[n - 26],
        ref_size: bytes[n - 25],
        objects: big_endian(bytes, n - 24, 8) as u64,
        root: big_endian(bytes, n - 16, 8) as u64,
        table: big_endian(bytes, n - 8, 8) as u64,
    };
    if n >= 32 && is_width(t.offset_size) && is_width(t.ref_size) && t.table + t.objects
        * t.offset_size <= n - 32 {
        Some(t)
    } else {
        None
    }
}

fn read_trailer(bytes: &[u8]) -> (r: Option<Trailer>)
    ensures
        r == trailer_of(bytes@),
{
    let n: usize = bytes.len();
    if n < 32 {
        return None;
    }
    let t = Trailer {
        offset_size: bytes[n - 26],
        ref_size: bytes[n - 25],
        objects: read_number(bytes, n - 24, 8),
        root: read_number(bytes, n - 16, 8),
        table: read_number(bytes, n - 8, 8),
    };
    let o: u8 = t.offset_size;
    let f: u8 = t.ref_size;
    if !(o == 1 || o == 2 || o == 3 || o == 4 || o == 8) || !(f == 1 || f == 2 || f == 3 || f == 4
        || f == 8) {
        return None;
    }
    let count: u64 = t.objects;
    assert(0 <= count * o <= 8 * 0x1_0000_0000_0000_0000) by (nonlinear_arith)
        requires
            0 <= o <= 8,
            0 <= count < 0x1_0000_0000_0000_0000,
    ;
    if t.table as u128 + t.objects as u128 * t.offset_size as u128 <= (n - 32) as u128 {
        Some(t)
    } else {
        None
    }
}

/// Where the place of an object stands.
pub open spec fn entry_at(t: Trailer, object: nat) -> int {
    t.table + object * t.offset_size
}

/// The numbers of objects that an object holds, where it is a collection: where
/// they stand, and how many there are. A length of fifteen stands for the
/// number behind it, whose width is a power of two.
pub open spec fn parts_of(bytes: Seq<u8>, t: Trailer, object: nat) -> Option<(int, nat)> {
    let n = bytes.len() as int;
    let at = big_endian(bytes, entry_at(t, object), t.offset_size as nat) as int;
    if object >= t.objects || at >= n - 32 {
        None
    } else {
        let short = (bytes[at] % 16) as nat;
        let width = match bytes[at + 1] % 4 {
            0 => 1nat,
            1 => 2,
            2 => 4,
            _ => 8,
        };
        let (start, length) = if short < 15 {
            (at + 1, short)
        } else {
            (at + 2 + width, big_endian(bytes, at + 2, width))
        };
        let count = if bytes[at] / 16 == 10 {
            Some(length)
        } else if bytes[at] / 16 == 13 {
            Some(2 * length)
        } else {
            None
        };
        match count {
            Some(count) => if start + count * t.ref_size <= n {
                Some((start, count))
            } else {
                None
            },
            None => None,
        }
    }
}

proof fn entry_is_before(t: Trailer, object: u64)
    requires
        object < t.objects,
    ensures
        0 <= object * t.offset_size,
        object * t.offset_size + t.offset_size <= t.objects * t.offset_size,
{
    let (i, n, w) = (object as int, t.objects as int, t.offset_size as int);
    assert(0 <= i * w && i * w + w <= n * w) by (nonlinear_arith)
        requires
            0 <= i < n,
            0 <= w,
    ;
}

fn read_parts(bytes: &[u8], t: &Trailer, object: u64) -> (r: Option<(usize, usize)>)
    requires
        trailer_of(bytes@) == Some(*t),
    ensures
        match r {
            Some((start, count)) => parts_of(bytes@, *t, object as nat) == Some(
                (start as int, count as nat),
            ),
            None => parts_of(bytes@, *t, object as nat) is None,
        },
{
    let n: usize = bytes.len();
    if object >= t.objects {
        return None;
    }
    proof {
        entry_is_before(*t, object);
    }
    let width: usize = t.offset_size as usize;
    let entry: usize = t.table as usize + object as usize * width;
    let place: u64 = read_number(bytes, entry, width);
    if place >= (n - 32) as u64 {
        return None;
    }
    let at: usize = place as usize;
    let short: u8 = bytes[at] % 16;
    let (start, length): (usize, u64) = if short < 15 {
        (at + 1, short as u64)
    } else {
        let width: usize = match bytes[at + 1] % 4 {
            0 => 1,
            1 => 2,
            2 => 4,
            _ => 8,
        };
        (at + 2 + width, read_number(bytes, at + 2, width))
    };
    let kind: u8 = bytes[at] / 16;
    let count: u128 = if kind == 10 {
        length as u128
    } else if kind == 13 {
        2 * length as u128
    } else {
        return None;
    };
    let size: u8 = t.ref_size;
    assert(count <= count * size <= 16 * 0x1_0000_0000_0000_0000) by (nonlinear_arith)
        requires
            1 <= size <= 8,
            0 <= count <= 2 * 0x1_0000_0000_0000_0000,
    ;
    if start as u128 + count * size as u128 <= n as u128 {
        Some((start, count as usize))
    } else {
        None
    }
}

/// The number at a place of a row of numbers of objects.
pub open spec fn part(bytes: Seq<u8>, t: Trailer, start: int, i: int) -> nat {
    big_endian(bytes, start + i * t.ref_size, t.ref_size as nat)
}

/// A number is among those of a row.
pub open spec fn lists(
    bytes: Seq<u8>,
    t: Trailer,
    start: int,
    count: nat,
    object: nat,
) -> bool {
    exists|i: int| 0 <= i < count && #[trigger] part(bytes, t, start, i) == object
}

/// One object is held by another.
pub open spec fn holds(bytes: Seq<u8>, t: Trailer, outer: nat, inner: nat) -> bool {
    match parts_of(bytes, t, outer) {
        Some((start, count)) => lists(bytes, t, start, count, inner),
        None => false,
    }
}

/// A way from the root into so many collections, one in another.
pub open spec fn way_in(bytes: Seq<u8>, t: Trailer, depth: nat, way: Seq<nat>) -> bool {
    way.len() == depth + 1 && way[0] == t.root && forall|i: int|
        0 <= i < depth ==> #[trigger] holds(bytes, t, way[i], way[i + 1])
}

/// An object lies so many collections deep in the root.
pub open spec fn lies_in(bytes: Seq<u8>, t: Trailer, depth: nat, object: nat) -> bool {
    exists|way: Seq<nat>| #[trigger] way_in(bytes, t, depth, way) && way.last() == object
}

/// One collection too many lies in another.
pub open spec fn deep_binary(bytes: Seq<u8>) -> bool {
    match trailer_of(bytes) {
        Some(t) => exists|object: nat| #[trigger]
            lies_in(bytes, t, NESTING as nat, object) && parts_of(bytes, t, object) is Some,
        None => false,
    }
}

fn mark(bytes: &[u8], t: &Trailer, start: usize, count: usize, marks: &mut Vec<bool>)
    requires
        is_width(t.ref_size),
        start + count * t.ref_size <= bytes.len(),
    ensures
        final(marks)@.len() == old(marks)@.len(),
        forall|o: int|
            #![trigger final(marks)@[o]]
            0 <= o < old(marks)@.len() ==> final(marks)@[o] == (old(marks)@[o] || lists(
                bytes@,
                *t,
                start as int,
                count as nat,
                o as nat,
            )),
{
    let width: usize = t.ref_size as usize;
    for i in 0..count
        invariant
            is_width(t.ref_size),
            width == t.ref_size,
            start + count * t.ref_size <= bytes.len(),
            marks@.len() == old(marks)@.len(),
            forall|o: int|
                #![trigger marks@[o]]
                0 <= o < marks@.len() ==> marks@[o] == (old(marks)@[o] || lists(
                    bytes@,
                    *t,
                    start as int,
                    i as nat,
                    o as nat,
                )),
    {
        assert(0 <= i * width && i * width + width <= count * width) by (nonlinear_arith)
            requires
                0 <= i < count,
        ;
        let number: u64 = read_number(bytes, start + i * width, width);
        assert(number == part(bytes@, *t, start as int, i as int));
        if number < marks.len() as u64 {
            marks.set(number as usize, true);
        }
        proof {
            lists_one_more(bytes@, *t, start as int, i as nat);
        }
    }
}

/// A row with one more number lists that too.
proof fn lists_one_more(bytes: Seq<u8>, t: Trailer, start: int, count: nat)
    ensures
        forall|o: nat| #[trigger]
            lists(bytes, t, start, count + 1, o) == (lists(bytes, t, start, count, o) || part(
                bytes,
                t,
                start,
                count as int,
            ) == o),
{
}

fn mark_parts(bytes: &[u8], t: &Trailer, object: u64, marks: &mut Vec<bool>)
    requires
        trailer_of(bytes@) == Some(*t),
    ensures
        final(marks)@.len() == old(marks)@.len(),
        forall|o: int|
            #![trigger final(marks)@[o]]
            0 <= o < old(marks)@.len() ==> final(marks)@[o] == (old(marks)@[o] || holds(
                bytes@,
                *t,
                object as nat,
                o as nat,
            )),
{
    if let Some((start, count)) = read_parts(bytes, t, object) {
        mark(bytes, t, start, count, marks);
    }
}

/// The marks are on the objects that lie so many collections deep in the root.
spec fn marked(bytes: Seq<u8>, t: Trailer, depth: nat, marks: Seq<bool>) -> bool {
    marks.len() == t.objects && forall|o: int|
        0 <= o < marks.len() ==> #[trigger] marks[o] == lies_in(bytes, t, depth, o as nat)
}

/// What lies one collection deeper is held by what lies so deep.
proof fn lies_one_deeper(bytes: Seq<u8>, t: Trailer, depth: nat, object: nat)
    ensures
        lies_in(bytes, t, depth + 1, object) == exists|outer: nat| #[trigger]
            lies_in(bytes, t, depth, outer) && holds(bytes, t, outer, object),
{
    let direct = exists|outer: nat| #[trigger]
        lies_in(bytes, t, depth, outer) && holds(bytes, t, outer, object);
    if lies_in(bytes, t, depth + 1, object) {
        let way = choose|way: Seq<nat>| #[trigger]
            way_in(bytes, t, depth + 1, way) && way.last() == object;
        let shorter = way.drop_last();
        assert(holds(bytes, t, way[depth as int], way[depth as int + 1]));
        assert forall|i: int| 0 <= i < depth implies #[trigger] holds(
            bytes,
            t,
            shorter[i],
            shorter[i + 1],
        ) by {
            assert(holds(bytes, t, way[i], way[i + 1]));
        }
        assert(way_in(bytes, t, depth, shorter));
        assert(lies_in(bytes, t, depth, shorter.last()));
    }
    if direct {
        let outer = choose|outer: nat| #[trigger]
            lies_in(bytes, t, depth, outer) && holds(bytes, t, outer, object);
        let way = choose|way: Seq<nat>| #[trigger]
            way_in(bytes, t, depth, way) && way.last() == outer;
        let longer = way.push(object);
        assert forall|i: int| 0 <= i < depth + 1 implies #[trigger] holds(
            bytes,
            t,
            longer[i],
            longer[i + 1],
        ) by {
            if i < depth {
                assert(holds(bytes, t, way[i], way[i + 1]));
            }
        }
        assert(way_in(bytes, t, depth + 1, longer));
        assert(longer.last() == object);
    }
}

/// Only the root lies in no other object.
proof fn root_lies_on_top(bytes: Seq<u8>, t: Trailer, object: nat)
    ensures
        lies_in(bytes, t, 0, object) == (object == t.root),
{
    let way = seq![t.root as nat];
    assert(way_in(bytes, t, 0, way));
}

/// Where no collection lies so deep, nothing lies deeper.
proof fn nothing_below(bytes: Seq<u8>, t: Trailer, depth: nat, below: nat)
    requires
        depth < below,
        forall|o: nat| o < t.objects ==> !#[trigger] lies_in(bytes, t, depth, o),
    ensures
        forall|o: nat| !#[trigger] lies_in(bytes, t, below, o),
    decreases below - depth,
{
    assert forall|o: nat| !#[trigger] lies_in(bytes, t, depth + 1, o) by {
        lies_one_deeper(bytes, t, depth, o);
    }
    if depth + 1 < below {
        nothing_below(bytes, t, depth + 1, below);
    }
}

fn root_marks(bytes: &[u8], t: &Trailer) -> (r: Vec<bool>)
    requires
        t.objects <= bytes.len(),
    ensures
        marked(bytes@, *t, 0, r@),
{
    let count: usize = t.objects as usize;
    let mut marks: Vec<bool> = Vec::new();
    for o in 0..count
        invariant
            count == t.objects,
            marks@.len() == o,
            forall|i: int| 0 <= i < o ==> #[trigger] marks@[i] == (i == t.root),
    {
        marks.push(o as u64 == t.root);
    }
    assert forall|o: int| 0 <= o < marks@.len() implies #[trigger] marks@[o] == lies_in(
        bytes@,
        *t,
        0,
        o as nat,
    ) by {
        root_lies_on_top(bytes@, *t, o as nat);
    }
    marks
}

/// The marks one collection deeper.
fn next_marks(bytes: &[u8], t: &Trailer, marks: &Vec<bool>, Ghost(depth): Ghost<nat>) -> (r: Vec<
    bool,
>)
    requires
        trailer_of(bytes@) == Some(*t),
        marked(bytes@, *t, depth, marks@),
    ensures
        marked(bytes@, *t, depth + 1, r@),
{
    let count: usize = marks.len();
    let mut next: Vec<bool> = Vec::new();
    for o in 0..count
        invariant
            next@.len() == o,
            forall|i: int| 0 <= i < o ==> !#[trigger] next@[i],
    {
        next.push(false);
    }
    for p in 0..count
        invariant
            count == marks@.len(),
            next@.len() == count,
            trailer_of(bytes@) == Some(*t),
            marked(bytes@, *t, depth, marks@),
            forall|o: int|
                #![trigger next@[o]]
                0 <= o < count ==> next@[o] == exists|q: nat|
                    q < p && #[trigger] lies_in(bytes@, *t, depth, q) && holds(
                        bytes@,
                        *t,
                        q,
                        o as nat,
                    ),
    {
        let ghost before = next@;
        if marks[p] {
            mark_parts(bytes, t, p as u64, &mut next);
        }
        assert(marks@[p as int] == lies_in(bytes@, *t, depth, p as nat));
        assert forall|o: int| #![trigger next@[o]] 0 <= o < count implies next@[o] == exists|q: nat|
            q < p + 1 && #[trigger] lies_in(bytes@, *t, depth, q) && holds(
                bytes@,
                *t,
                q,
                o as nat,
            ) by {
            let earlier = exists|q: nat|
                q < p && #[trigger] lies_in(bytes@, *t, depth, q) && holds(
                    bytes@,
                    *t,
                    q,
                    o as nat,
                );
            assert(before[o] == earlier);
            let here = lies_in(bytes@, *t, depth, p as nat) && holds(
                bytes@,
                *t,
                p as nat,
                o as nat,
            );
            assert(next@[o] == (earlier || here));
            if here {
                assert(lies_in(bytes@, *t, depth, p as nat));
            }
        }
    }
    assert forall|o: int| 0 <= o < next@.len() implies #[trigger] next@[o] == lies_in(
        bytes@,
        *t,
        depth + 1,
        o as nat,
    ) by {
        lies_one_deeper(bytes@, *t, depth, o as nat);
    }
    next
}

fn is_deep_binary(bytes: &[u8]) -> (r: bool)
    ensures
        r == deep_binary(bytes@),
{
    let t = match read_trailer(bytes) {
        Some(t) => t,
        None => {
            return false;
        },
    };
    assert(t.objects <= t.objects * t.offset_size) by (nonlinear_arith)
        requires
            t.objects >= 0,
            t.offset_size >= 1,
    ;
    let mut marks = root_marks(bytes, &t);
    for k in 0..NESTING
        invariant
            trailer_of(bytes@) == Some(t),
            marked(bytes@, t, k as nat, marks@),
    {
        if !any(&marks) {
            proof {
                assert forall|o: nat| o < t.objects implies !#[trigger] lies_in(
                    bytes@,
                    t,
                    k as nat,
                    o,
                ) by {
                    assert(!marks@[o as int]);
                }
                nothing_below(bytes@, t, k as nat, NESTING as nat);
            }
            return false;
        }
        marks = next_marks(bytes, &t, &marks, Ghost(k as nat));
    }
    for o in 0..marks.len()
        invariant
            trailer_of(bytes@) == Some(t),
            marked(bytes@, t, NESTING as nat, marks@),
            forall|i: nat|
                i < o && #[trigger] lies_in(bytes@, t, NESTING as nat, i) ==> parts_of(
                    bytes@,
                    t,
                    i,
                ) is None,
    {
        assert(marks@[o as int] == lies_in(bytes@, t, NESTING as nat, o as nat));
        if marks[o] && read_parts(bytes, &t, o as u64).is_some() {
            return true;
        }
    }
    false
}

fn any(marks: &Vec<bool>) -> (r: bool)
    ensures
        r == exists|i: int| 0 <= i < marks@.len() && #[trigger] marks@[i],
{
    for i in 0..marks.len()
        invariant
            forall|j: int| 0 <= j < i ==> !#[trigger] marks@[j],
    {
        if marks[i] {
            assert(marks@[i as int]);
            return true;
        }
    }
    false
}

// ---------------------------------------------------------------------------
// Any of them

/// The bytes are those of a binary property list.
pub open spec fn binary(bytes: Seq<u8>) -> bool {
    spelled(bytes, 0, "bplist00"@)
}

/// To read a property list from some bytes is fatal. What is not binary is read
/// as XML, and as text where nothing in it is XML.
pub open spec fn harmful(bytes: Seq<u8>) -> bool {
    if binary(bytes) {
        deep_binary(bytes)
    } else {
        fatal_markup(markup(bytes), 0, 0) || (!is_xml(markup(bytes), 0) && deep_text(bytes, 0, 0))
    }
}

/// To read a property list from some bytes is fatal.
pub fn is_harmful(bytes: &[u8]) -> (r: bool)
    ensures
        r == harmful(bytes@),
{
    if spells(bytes, 0, "bplist00") {
        is_deep_binary(bytes)
    } else {
        let events = read_markup(bytes);
        is_fatal_markup(&events) || (!taken_for_xml(&events) && is_deep_text(bytes))
    }
}

// ---------------------------------------------------------------------------
// Laws

/// A date of the last day is far where the time it tells, and the time that it
/// is behind Greenwich, make up a day together. A date of any other day is not
/// far, nor is one that is ahead of Greenwich.
pub proof fn far_dates_are_of_the_next_day(
    hour: nat,
    minute: nat,
    rest: Seq<char>,
    hours: nat,
    minutes: nat,
    other: Seq<char>,
)
    requires
        hour < 100 && minute < 100 && hours < 100 && minutes < 100,
        rest.len() >= 3,
    ensures
        far_stamp(
            "9999-12-31T"@ + padded(hour, 2) + seq![':'] + padded(minute, 2) + rest + seq!['-']
                + padded(hours, 2) + seq![':'] + padded(minutes, 2),
        ) <==> (hour + hours) * 60 + minute + minutes >= 24 * 60,
        far_stamp(other) ==> begins(other, "9999-12-31"@) && other[other.len() - 6] == '-',
{
    reveal_strlit("9999-12-31T");
    reveal_strlit("9999-12-31");
    two_digits_are_read(hour);
    two_digits_are_read(minute);
    two_digits_are_read(hours);
    two_digits_are_read(minutes);
    let text = "9999-12-31T"@ + padded(hour, 2) + seq![':'] + padded(minute, 2) + rest + seq!['-']
        + padded(hours, 2) + seq![':'] + padded(minutes, 2);
    let n = text.len() as int;
    assert(n == 11 + 2 + 1 + 2 + rest.len() + 1 + 2 + 1 + 2);
    assert(text.take(10) =~= "9999-12-31"@);
    assert(begins(text, "9999-12-31"@));
    assert(text[11] == padded(hour, 2)[0] && text[12] == padded(hour, 2)[1]);
    assert(text[14] == padded(minute, 2)[0] && text[15] == padded(minute, 2)[1]);
    assert(text[n - 6] == '-');
    assert(text[n - 5] == padded(hours, 2)[0] && text[n - 4] == padded(hours, 2)[1]);
    assert(text[n - 2] == padded(minutes, 2)[0] && text[n - 1] == padded(minutes, 2)[1]);
    assert(two_digits(text, 11) == Some(hour));
    assert(two_digits(text, 14) == Some(minute));
    assert(two_digits(text, n - 5) == Some(hours));
    assert(two_digits(text, n - 2) == Some(minutes));
}

proof fn two_digits_are_read(n: nat)
    requires
        n < 100,
    ensures
        padded(n, 2).len() == 2,
        two_digits(padded(n, 2), 0) == Some(n),
{
    let shown = padded(n, 2);
    if n < 10 {
        assert(decimal(n) =~= seq![digit(n)]);
        assert(shown =~= seq!['0', digit(n)]);
    } else {
        assert(decimal(n / 10) =~= seq![digit(n / 10)]);
        assert(decimal(n) =~= seq![digit(n / 10), digit(n % 10)]);
        assert(shown =~= decimal(n));
    }
}

/// A reference by name stands for the character that is escaped by that name.
pub proof fn references_undo_escaping(name: Seq<char>, c: char)
    ensures
        entity(name) == seq![c] ==> crate::util::entity(c) == seq!['&'] + name + seq![';'],
        entity("lt"@) == seq!['<'] && entity("gt"@) == seq!['>'] && entity("amp"@) == seq!['&'],
        entity("apos"@) == seq!['\''] && entity("quot"@) == seq!['"'],
        entity(name).len() <= 1,
{
    reveal_strlit("lt");
    reveal_strlit("gt");
    reveal_strlit("amp");
    reveal_strlit("apos");
    reveal_strlit("quot");
    assert("lt"@.len() == 2);
    assert("gt"@.len() == 2);
    assert("amp"@.len() == 3);
    assert("apos"@.len() == 4);
    assert("quot"@.len() == 4);
    assert("lt"@[0] != "gt"@[0]);
    assert("apos"@[0] != "quot"@[0]);
    reveal_strlit("<");
    reveal_strlit(">");
    reveal_strlit("&");
    reveal_strlit("'");
    reveal_strlit("\"");
    reveal_strlit("&lt;");
    reveal_strlit("&gt;");
    reveal_strlit("&amp;");
    reveal_strlit("&apos;");
    reveal_strlit("&quot;");
    assert("<"@ =~= seq!['<'] && ">"@ =~= seq!['>'] && "&"@ =~= seq!['&']);
    assert("'"@ =~= seq!['\''] && "\""@ =~= seq!['"']);
    if entity(name) == seq![c] {
        assert(seq![c][0] == c);
        if name == "lt"@ {
            assert(seq!['<'][0] == c);
            assert("&lt;"@ =~= seq!['&'] + name + seq![';']);
        } else if name == "gt"@ {
            assert(seq!['>'][0] == c);
            assert("&gt;"@ =~= seq!['&'] + name + seq![';']);
        } else if name == "amp"@ {
            assert(seq!['&'][0] == c);
            assert("&amp;"@ =~= seq!['&'] + name + seq![';']);
        } else if name == "apos"@ {
            assert(seq!['\''][0] == c);
            assert("&apos;"@ =~= seq!['&'] + name + seq![';']);
        } else if name == "quot"@ {
            assert(seq!['"'][0] == c);
            assert("&quot;"@ =~= seq!['&'] + name + seq![';']);
        } else {
            assert(entity(name).len() == 0 && seq![c].len() == 1);
        }
    }
}

/// An element is known by its name, whatever stands before a colon in it.
pub proof fn elements_are_known_by_name(prefix: Seq<char>, name: Seq<char>)
    requires
        !prefix.contains(':'),
        !name.contains(':'),
    ensures
        element_named(prefix + seq![':'] + name) == element_named(name),
        element_named(name) is List <==> name == "plist"@,
        element_named(name) is Collection <==> name == "array"@ || name == "dict"@,
        element_named(name) is Boolean <==> name == "true"@ || name == "false"@,
        element_named(name) is Text <==> name == "key"@ || name == "string"@,
        element_named(name) is Date <==> name == "date"@,
        element_named(name) is Value <==> name == "data"@ || name == "integer"@ || name
            == "real"@,
{
    reveal_strlit("plist");
    reveal_strlit("array");
    reveal_strlit("dict");
    reveal_strlit("true");
    reveal_strlit("false");
    reveal_strlit("key");
    reveal_strlit("string");
    reveal_strlit("date");
    reveal_strlit("data");
    reveal_strlit("integer");
    reveal_strlit("real");
    assert("plist"@.len() == 5);
    assert("array"@.len() == 5);
    assert("dict"@.len() == 4);
    assert("true"@.len() == 4);
    assert("false"@.len() == 5);
    assert("key"@.len() == 3);
    assert("string"@.len() == 6);
    assert("date"@.len() == 4);
    assert("data"@.len() == 4);
    assert("integer"@.len() == 7);
    assert("real"@.len() == 4);
    assert("plist"@[0] != "array"@[0]);
    assert("plist"@[0] != "false"@[0]);
    assert("array"@[0] != "false"@[0]);
    assert("dict"@[0] != "true"@[0]);
    assert("dict"@[1] != "date"@[1]);
    assert("dict"@[1] != "data"@[1]);
    assert("dict"@[0] != "real"@[0]);
    assert("true"@[0] != "date"@[0]);
    assert("true"@[0] != "data"@[0]);
    assert("true"@[0] != "real"@[0]);
    assert("date"@[3] != "data"@[3]);
    assert("date"@[0] != "real"@[0]);
    assert("data"@[0] != "real"@[0]);
    reveal_strlit(":");
    assert(":"@ =~= seq![':']);
    crate::text::cut_is_at_the_first(prefix, ':', name);
    crate::text::cut_is_at_the_first(name, ':', name);
}

/// The text of an element ends with the element, goes on with what was read
/// before, and holds no other element.
pub proof fn content_ends_with_its_element(events: Seq<XmlView>, at: int, text: Seq<char>)
    ensures
        content_from(events, at, text) matches Some((all, next)) ==> {
            &&& 0 <= at < next <= events.len()
            &&& events[next - 1] is End
            &&& all.len() >= text.len() && all.take(text.len() as int) == text
            &&& forall|i: int| at <= i < next ==> !(#[trigger] events[i] is Start)
            &&& forall|i: int| at <= i < next - 1 ==> !(#[trigger] events[i] is End)
        },
    decreases events.len() - at,
{
    if 0 <= at < events.len() {
        match events[at] {
            XmlView::Text(more) => {
                content_ends_with_its_element(events, at + 1, text + more);
                if let Some((all, next)) = content_from(events, at, text) {
                    assert(all.take(text.len() as int) =~= (text + more).take(text.len() as int));
                    assert((text + more).take(text.len() as int) =~= text);
                }
            },
            XmlView::Reference(name) => match char_ref(name) {
                Some(Some(c)) => {
                    content_ends_with_its_element(events, at + 1, text.push(c));
                    if let Some((all, next)) = content_from(events, at, text) {
                        assert(all.take(text.len() as int) =~= text.push(c).take(
                            text.len() as int,
                        ));
                        assert(text.push(c).take(text.len() as int) =~= text);
                    }
                },
                Some(None) => {
                    let longer = text + entity(name);
                    content_ends_with_its_element(events, at + 1, longer);
                    if let Some((all, next)) = content_from(events, at, text) {
                        assert(all.take(text.len() as int) =~= longer.take(text.len() as int));
                        assert(longer.take(text.len() as int) =~= text);
                    }
                },
                None => {},
            },
            XmlView::End(_) => {
                assert(text.take(text.len() as int) =~= text);
            },
            XmlView::Start(_) => {},
            _ => {
                content_ends_with_its_element(events, at + 1, text);
            },
        }
    }
}

/// Text that stands in an element alone is its content.
pub proof fn plain_content_is_read(events: Seq<XmlView>, at: int, text: Seq<char>)
    requires
        0 <= at && at + 1 < events.len(),
        events[at] == XmlView::Text(text),
        events[at + 1] is End,
    ensures
        content_from(events, at, Seq::empty()) == Some((text, at + 2)),
{
    assert(Seq::<char>::empty() + text =~= text);
    reveal_with_fuel(content_from, 3);
}

/// A far date is fatal wherever reading comes to it.
pub proof fn far_date_is_fatal(events: Seq<XmlView>, at: int, depth: nat, name: Seq<char>, text: Seq<char>)
    requires
        0 <= at && at + 2 < events.len(),
        events[at] == XmlView::Start(name) && element_named(name) is Date,
        events[at + 1] == XmlView::Text(text) && far_stamp(text),
        events[at + 2] is End,
    ensures
        fatal_markup(events, at, depth),
{
    plain_content_is_read(events, at + 1, text);
}

/// Collections that lie in one another are fatal from one more than may lie so
/// on.
pub proof fn deep_markup_is_fatal(events: Seq<XmlView>, at: int, depth: nat)
    requires
        0 <= at,
        depth <= 2000,
        events.len() - at > 2000 - depth,
        forall|i: int|
            at <= i < events.len() ==> (#[trigger] events[i] matches XmlView::Start(name)
                && element_named(name) is Collection),
    ensures
        fatal_markup(events, at, depth),
    decreases events.len() - at,
{
    assert(events[at] matches XmlView::Start(name) && element_named(name) is Collection);
    if depth < 2000 {
        deep_markup_is_fatal(events, at + 1, depth + 1);
    }
}

/// A document without dates in which too few elements begin for one collection
/// too many is not fatal.
pub proof fn shallow_markup_is_harmless(events: Seq<XmlView>, at: int, depth: nat)
    requires
        0 <= at,
        events.len() - at + depth <= 2000,
        forall|i: int|
            0 <= i < events.len() ==> (#[trigger] events[i] matches XmlView::Start(name) ==> !(
            element_named(name) is Date)),
    ensures
        !fatal_markup(events, at, depth),
    decreases events.len() - at,
{
    if at < events.len() {
        match events[at] {
            XmlView::Start(name) => match element_named(name) {
                Element::Collection => shallow_markup_is_harmless(events, at + 1, depth + 1),
                Element::List | Element::Boolean => shallow_markup_is_harmless(
                    events,
                    at + 1,
                    depth,
                ),
                Element::Unknown => {},
                _ => {
                    content_ends_with_its_element(events, at + 1, Seq::empty());
                    if let Some((text, next)) = content_from(events, at + 1, Seq::empty()) {
                        shallow_markup_is_harmless(events, next, depth);
                    }
                },
            },
            XmlView::End(name) => {
                shallow_markup_is_harmless(events, at + 1, depth);
                if depth > 0 {
                    shallow_markup_is_harmless(events, at + 1, (depth - 1) as nat);
                }
            },
            _ => shallow_markup_is_harmless(events, at + 1, depth),
        }
    }
}

/// A declaration makes a document XML, and so does a collection; where there is
/// nothing, or text comes first, it is none.
pub proof fn xml_is_told_by_its_beginning(events: Seq<XmlView>, text: Seq<char>)
    ensures
        !is_xml(Seq::empty(), 0),
        events.len() > 0 && events[0] is Prolog ==> is_xml(events, 0),
        events.len() > 0 && (events[0] matches XmlView::Start(name) && (element_named(name)
            is Collection || element_named(name) is Boolean)) ==> is_xml(events, 0),
        events.len() > 0 && events[0] == XmlView::Text(text) && text.len() > 0 && !is_space(
            text[0],
        ) ==> !is_xml(events, 0) && !fatal_markup(events, 0, 0),
        events.len() > 0 && (events[0] matches XmlView::Start(name) && element_named(name)
            is Unknown) ==> !is_xml(events, 0) && !fatal_markup(events, 0, 0),
{
}

/// A quoted text ends with the first quotation mark of its kind that no
/// backslash stands before.
pub proof fn quotes_end_with_their_mark(bytes: Seq<u8>, at: int, end: int, quote: u8)
    requires
        0 <= at <= end < bytes.len(),
        bytes[end] == quote,
        quote as char != '\\',
        forall|i: int| at <= i < end ==> #[trigger] bytes[i] != quote && bytes[i] as char != '\\',
    ensures
        quote_end(bytes, at, quote) == Some(end + 1),
        at >= 2 && bytes[at - 2] as char == '\\' ==> quote_end(bytes, at - 2, quote) == Some(
            end + 1,
        ),
    decreases end - at,
{
    if at < end {
        assert(bytes[at] != quote);
        quotes_end_with_their_mark(bytes, at + 1, end, quote);
    }
    if at >= 2 && bytes[at - 2] as char == '\\' {
        assert(bytes[at - 2] != quote);
    }
}

/// A line goes on up to the next line feed or the end.
pub proof fn lines_end_with_a_feed(bytes: Seq<u8>, at: int)
    requires
        0 <= at <= bytes.len(),
    ensures
        at <= line_end(bytes, at) <= bytes.len(),
        line_end(bytes, at) < bytes.len() ==> bytes[line_end(bytes, at)] as char == '\n',
        forall|i: int| at <= i < line_end(bytes, at) ==> #[trigger] bytes[i] as char != '\n',
    decreases bytes.len() - at,
{
    if at < bytes.len() && bytes[at] as char != '\n' {
        lines_end_with_a_feed(bytes, at + 1);
    }
}

/// A text without quotes goes on up to the next white space in its line, comma,
/// semicolon or closing round bracket, or the end.
pub proof fn words_end_where_they_should(bytes: Seq<u8>, at: int)
    requires
        0 <= at <= bytes.len(),
    ensures
        at <= word_end(bytes, at) <= bytes.len(),
        word_end(bytes, at) < bytes.len() ==> ({
            let c = bytes[word_end(bytes, at)] as char;
            c == ' ' || c == '\t' || c == '\r' || c == ',' || c == ';' || c == ')'
        }),
        forall|i: int|
            at <= i < word_end(bytes, at) ==> ({
                let c = #[trigger] bytes[i] as char;
                !(c == ' ' || c == '\t' || c == '\r' || c == ',' || c == ';' || c == ')')
            }),
    decreases bytes.len() - at,
{
    if at < bytes.len() && !ends_word(bytes[at] as char) {
        words_end_where_they_should(bytes, at + 1);
    }
}

/// A comment ends with the first star that a slash follows.
pub proof fn comments_end_with_a_slash(bytes: Seq<u8>, at: int, end: int)
    requires
        0 <= at <= end,
        end + 1 < bytes.len(),
        bytes[end] as char == '*' && bytes[end + 1] as char == '/',
        forall|i: int| at <= i < end ==> #[trigger] bytes[i] as char != '*',
    ensures
        comment_end(bytes, at) == Some(end + 2),
    decreases end - at,
{
    if at < end {
        assert(bytes[at] as char != '*');
        comments_end_with_a_slash(bytes, at + 1, end);
    }
}

/// What begins with a quotation mark is quoted by it, two slashes or a slash
/// and a star begin a comment, and what separates stands for itself.
pub proof fn tokens_are_told_by_their_beginning(bytes: Seq<u8>, at: int)
    requires
        0 <= at < bytes.len(),
    ensures
        bytes[at] as char == '"' || bytes[at] as char == '\'' ==> token_end(bytes, at) == quote_end(
            bytes,
            at + 1,
            bytes[at],
        ),
        spelled(bytes, at, "//"@) ==> token_end(bytes, at) == Some(line_end(bytes, at + 1)),
        spelled(bytes, at, "/*"@) ==> token_end(bytes, at) == comment_end(bytes, at + 1),
        bytes[at] as char == ',' || bytes[at] as char == ';' || bytes[at] as char == '='
            || bytes[at] as char == ' ' || bytes[at] as char == '\n' || bytes[at] as char == '\t'
            || bytes[at] as char == '\r' ==> token_end(bytes, at) == Some(at + 1),
{
    reveal_strlit("//");
    reveal_strlit("/*");
    if spelled(bytes, at, "//"@) {
        assert(bytes[at + 0] as char == "//"@[0] && bytes[at + 1] as char == "//"@[1]);
    }
    if spelled(bytes, at, "/*"@) {
        assert(bytes[at + 0] as char == "/*"@[0] && bytes[at + 1] as char == "/*"@[1]);
    }
}

/// Brackets that open in one another are one too many from one more than may
/// lie so on, and a text that is too short for that is not deep.
pub proof fn deep_text_is_of_open_brackets(bytes: Seq<u8>, at: int, depth: nat)
    requires
        0 <= at,
        depth <= 2000,
    ensures
        bytes.len() - at > 2000 - depth && (forall|i: int|
            at <= i < bytes.len() ==> #[trigger] bytes[i] as char == '(' || bytes[i] as char == '{')
            ==> deep_text(bytes, at, depth),
        bytes.len() - at + depth <= 2000 ==> !deep_text(bytes, at, depth),
    decreases bytes.len() - at,
{
    if at < bytes.len() {
        let c = bytes[at] as char;
        if c == '(' || c == '{' {
            if depth < 2000 {
                deep_text_is_of_open_brackets(bytes, at + 1, depth + 1);
            }
        } else if c == ')' || c == '}' {
            deep_text_is_of_open_brackets(bytes, at + 1, depth);
            if depth > 0 {
                deep_text_is_of_open_brackets(bytes, at + 1, (depth - 1) as nat);
            }
        } else if let Some(next) = token_end(bytes, at) {
            if at < next <= bytes.len() {
                deep_text_is_of_open_brackets(bytes, next, depth);
            }
        }
    }
}

/// A closing bracket takes back what an opening one before it counted.
pub proof fn brackets_are_closed(bytes: Seq<u8>, at: int, depth: nat)
    requires
        0 <= at && at + 1 < bytes.len(),
        depth < 2000,
        bytes[at] as char == '(' || bytes[at] as char == '{',
        bytes[at + 1] as char == ')' || bytes[at + 1] as char == '}',
    ensures
        deep_text(bytes, at, depth) == deep_text(bytes, at + 2, depth),
{
    reveal_with_fuel(deep_text, 3);
}

/// Of the bytes of a number the first counts most: one more byte behind it
/// makes it 256 times as large, and one byte is a number by itself.
pub proof fn first_byte_counts_most(bytes: Seq<u8>, at: int, count: nat)
    ensures
        big_endian(bytes, at, 1) == bytes[at],
        big_endian(bytes, at, 2) == bytes[at] * 256 + bytes[at + 1],
        big_endian(bytes, at, count + 1) == big_endian(bytes, at, count) * 256 + bytes[at + count],
{
    reveal_with_fuel(big_endian, 4);
}

/// The last thirty-two bytes say where the objects are: six of no use, then the
/// widths of the places and of the numbers of objects, then how many objects
/// there are, which is the root, and where their places stand.
pub proof fn trailer_is_the_end(
    body: Seq<u8>,
    unused: Seq<u8>,
    offset_size: u8,
    ref_size: u8,
    objects: Seq<u8>,
    root: Seq<u8>,
    table: Seq<u8>,
)
    requires
        unused.len() == 6 && objects.len() == 8 && root.len() == 8 && table.len() == 8,
        offset_size == 1 || offset_size == 2 || offset_size == 3 || offset_size == 4 || offset_size
            == 8,
        ref_size == 1 || ref_size == 2 || ref_size == 3 || ref_size == 4 || ref_size == 8,
        big_endian(table, 0, 8) + big_endian(objects, 0, 8) * offset_size <= body.len(),
        big_endian(objects, 0, 8) <= u64::MAX && big_endian(root, 0, 8) <= u64::MAX,
        big_endian(table, 0, 8) <= u64::MAX,
    ensures
        ({
            let bytes = body + unused + seq![offset_size, ref_size] + objects + root + table;
            trailer_of(bytes) matches Some(t) && t.offset_size == offset_size && t.ref_size
                == ref_size && t.objects == big_endian(objects, 0, 8) && t.root == big_endian(
                root,
                0,
                8,
            ) && t.table == big_endian(table, 0, 8)
        }),
{
    let bytes = body + unused + seq![offset_size, ref_size] + objects + root + table;
    let n = bytes.len() as int;
    same_bytes_same_number(bytes, n - 24, objects, 0, 8);
    same_bytes_same_number(bytes, n - 16, root, 0, 8);
    same_bytes_same_number(bytes, n - 8, table, 0, 8);
    assert(bytes[n - 26] == offset_size && bytes[n - 25] == ref_size);
}

proof fn same_bytes_same_number(a: Seq<u8>, at: int, b: Seq<u8>, from: int, count: nat)
    requires
        forall|i: int| 0 <= i < count ==> a[at + i] == #[trigger] b[from + i],
    ensures
        big_endian(a, at, count) == big_endian(b, from, count),
    decreases count,
{
    if count > 0 {
        same_bytes_same_number(a, at, b, from, (count - 1) as nat);
        assert(b[from + (count - 1)] == a[at + (count - 1)]);
    }
}

/// An array holds as many objects as it is long, and a dictionary twice as
/// many: its keys and what they stand for. Nothing else holds any. Fewer than
/// fifteen are counted in the object's first byte.
pub proof fn collections_hold_their_parts(bytes: Seq<u8>, t: Trailer, object: nat, at: int)
    requires
        object < t.objects,
        big_endian(bytes, t.table + object * t.offset_size, t.offset_size as nat) == at,
        at < bytes.len() - 32,
        bytes[at] % 16 < 15,
        at + 1 + 2 * (bytes[at] % 16) * t.ref_size <= bytes.len(),
    ensures
        bytes[at] / 16 == 10 ==> parts_of(bytes, t, object) == Some(
            (at + 1, (bytes[at] % 16) as nat),
        ),
        bytes[at] / 16 == 13 ==> parts_of(bytes, t, object) == Some(
            (at + 1, 2 * (bytes[at] % 16) as nat),
        ),
        bytes[at] / 16 != 10 && bytes[at] / 16 != 13 ==> parts_of(bytes, t, object) is None,
{
    let short = (bytes[at] % 16) as int;
    let size = t.ref_size as int;
    assert(short * size <= 2 * short * size) by (nonlinear_arith)
        requires
            short >= 0,
            size >= 0,
    ;
}

/// A list is binary by its first eight bytes, and is then harmful only for what
/// lies in it too deep. One that is not, and is neither fatal to read as XML
/// nor deep as text, does no harm.
pub proof fn harm_is_of_depth_or_dates(bytes: Seq<u8>)
    ensures
        spelled(bytes, 0, "bplist00"@) ==> harmful(bytes) == deep_binary(bytes),
        !spelled(bytes, 0, "bplist00"@) && fatal_markup(markup(bytes), 0, 0) ==> harmful(bytes),
        !spelled(bytes, 0, "bplist00"@) && !is_xml(markup(bytes), 0) && deep_text(bytes, 0, 0)
            ==> harmful(bytes),
        harmful(bytes) ==> deep_binary(bytes) || fatal_markup(markup(bytes), 0, 0) || deep_text(
            bytes,
            0,
            0,
        ),
        is_xml(markup(bytes), 0) && !fatal_markup(markup(bytes), 0, 0) && !spelled(
            bytes,
            0,
            "bplist00"@,
        ) ==> !harmful(bytes),
{
}

} // verus!
