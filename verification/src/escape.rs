//! How characters are written in XML text and attribute values: what has
//! no place in a document is replaced, what is reserved is escaped, and what
//! is written can be read back.

use vstd::prelude::*;
use vstd::std_specs::iter::IteratorSpec;
use vstd::string::StrSliceExecFns;

verus! {

/// `String::push` appends one character.
pub assume_specification[ String::push ](text: &mut String, ch: char)
    ensures
        final(text)@ == old(text)@.push(ch),
;

/// Whether a document may hold `c`: the tab, the line feed, the carriage
/// return, and every character from the space on, but for U+FFFE and
/// U+FFFF.
pub open spec fn is_xml_char(c: char) -> bool {
    let code = c as u32;
    ||| code == 0x09
    ||| code == 0x0a
    ||| code == 0x0d
    ||| 0x20 <= code <= 0xd7ff
    ||| 0xe000 <= code <= 0xfffd
    ||| 0x1_0000 <= code <= 0x10_ffff
}

/// Whether a document may hold every character of `text`.
pub open spec fn all_xml_chars(text: Seq<char>) -> bool {
    forall|i: int| 0 <= i < text.len() ==> is_xml_char(#[trigger] text[i])
}

/// What is written for `c`: the character itself where a document may hold
/// it, U+FFFD in its place where not.
pub open spec fn safe_char(c: char) -> char {
    if is_xml_char(c) {
        c
    } else {
        '\u{fffd}'
    }
}

/// `text` with every character that a document may not hold replaced by
/// U+FFFD.
pub open spec fn safe_text(text: Seq<char>) -> Seq<char> {
    Seq::new(text.len(), |i: int| safe_char(text[i]))
}

/// Tells whether a document may hold `c`.
pub fn xml_char(c: char) -> (allowed: bool)
    ensures
        allowed == is_xml_char(c),
{
    let code: u32 = c as u32;
    code == 0x09 || code == 0x0a || code == 0x0d || (0x20 <= code && code <= 0xd7ff) || (0xe000
        <= code && code <= 0xfffd) || (0x1_0000 <= code && code <= 0x10_ffff)
}

/// Makes a text fit for a document: every character that a document may
/// not hold is replaced by U+FFFD, all others are kept.
pub fn xml_safe(text: &str) -> (safe: String)
    ensures
        safe@ == safe_text(text@),
        all_xml_chars(safe@),
{
    let mut safe = String::new();
    let n: usize = text.unicode_len();
    let mut chars = text.chars();
    let mut i: usize = 0;
    while i < n
        invariant
            i <= n,
            n == text@.len(),
            chars.remaining() == text@.skip(i as int),
            safe@ == safe_text(text@.take(i as int)),
        decreases n - i,
    {
        broadcast use vstd::string::next_postcondition;

        let next = chars.next();
        assert(text@.skip(i as int)[0] == text@[i as int]);
        assert(text@.skip(i as int).drop_first() =~= text@.skip(i + 1));
        match next {
            Some(c) => {
                if xml_char(c) {
                    safe.push(c);
                } else {
                    safe.push('\u{fffd}');
                }
            },
            None => {},
        }
        assert(safe@ =~= safe_text(text@.take(i + 1)));
        i += 1;
    }
    assert(text@.take(n as int) =~= text@);
    safe
}

/// A text that a document may hold is kept as it is.
pub proof fn lemma_safe_text_keeps_xml_text(text: Seq<char>)
    requires
        all_xml_chars(text),
    ensures
        safe_text(text) == text,
{
    assert(safe_text(text) =~= text);
}

/// How one character of a text node is written: the five reserved
/// characters and the carriage return become references, any other
/// character stands for itself.
pub open spec fn escaped_char(c: char) -> Seq<char> {
    if c == '<' {
        seq!['&', 'l', 't', ';']
    } else if c == '>' {
        seq!['&', 'g', 't', ';']
    } else if c == '&' {
        seq!['&', 'a', 'm', 'p', ';']
    } else if c == '\'' {
        seq!['&', 'a', 'p', 'o', 's', ';']
    } else if c == '"' {
        seq!['&', 'q', 'u', 'o', 't', ';']
    } else if c == '\r' {
        seq!['&', '#', '1', '3', ';']
    } else {
        seq![c]
    }
}

/// How one character of an attribute value is written: as in a text node,
/// and the line feed and the tab become references too.
pub open spec fn escaped_attribute_char(c: char) -> Seq<char> {
    if c == '\n' {
        seq!['&', '#', '1', '0', ';']
    } else if c == '\t' {
        seq!['&', '#', '9', ';']
    } else {
        escaped_char(c)
    }
}

/// How a text node with the content `text` is written.
pub open spec fn escaped_text(text: Seq<char>) -> Seq<char>
    decreases text.len(),
{
    if text.len() == 0 {
        Seq::empty()
    } else {
        escaped_char(text[0]) + escaped_text(text.drop_first())
    }
}

/// How an attribute value `value` is written between its quotes.
pub open spec fn escaped_attribute(value: Seq<char>) -> Seq<char>
    decreases value.len(),
{
    if value.len() == 0 {
        Seq::empty()
    } else {
        escaped_attribute_char(value[0]) + escaped_attribute(value.drop_first())
    }
}

/// What a reader makes of written text: each of the references that
/// escaping produces becomes its character again, anything else is taken
/// as it stands.
pub open spec fn unescaped(written: Seq<char>) -> Seq<char>
    decreases written.len(),
{
    let s = written;
    if s.len() == 0 {
        s
    } else if s.len() >= 4 && s[0] == '&' && s[1] == 'l' && s[2] == 't' && s[3] == ';' {
        seq!['<'] + unescaped(s.skip(4))
    } else if s.len() >= 4 && s[0] == '&' && s[1] == 'g' && s[2] == 't' && s[3] == ';' {
        seq!['>'] + unescaped(s.skip(4))
    } else if s.len() >= 5 && s[0] == '&' && s[1] == 'a' && s[2] == 'm' && s[3] == 'p' && s[4]
        == ';' {
        seq!['&'] + unescaped(s.skip(5))
    } else if s.len() >= 6 && s[0] == '&' && s[1] == 'a' && s[2] == 'p' && s[3] == 'o' && s[4]
        == 's' && s[5] == ';' {
        seq!['\''] + unescaped(s.skip(6))
    } else if s.len() >= 6 && s[0] == '&' && s[1] == 'q' && s[2] == 'u' && s[3] == 'o' && s[4]
        == 't' && s[5] == ';' {
        seq!['"'] + unescaped(s.skip(6))
    } else if s.len() >= 5 && s[0] == '&' && s[1] == '#' && s[2] == '1' && s[3] == '3' && s[4]
        == ';' {
        seq!['\r'] + unescaped(s.skip(5))
    } else if s.len() >= 5 && s[0] == '&' && s[1] == '#' && s[2] == '1' && s[3] == '0' && s[4]
        == ';' {
        seq!['\n'] + unescaped(s.skip(5))
    } else if s.len() >= 4 && s[0] == '&' && s[1] == '#' && s[2] == '9' && s[3] == ';' {
        seq!['\t'] + unescaped(s.skip(4))
    } else {
        seq![s[0]] + unescaped(s.skip(1))
    }
}

/// Reading back one written character, whatever follows it, gives the
/// character and then the reading of what follows.
pub proof fn lemma_unescape_one(c: char, rest: Seq<char>)
    ensures
        unescaped(escaped_attribute_char(c) + rest) == seq![c] + unescaped(rest),
        unescaped(escaped_char(c) + rest) == seq![c] + unescaped(rest),
{
    let a = escaped_attribute_char(c) + rest;
    assert(a.skip(escaped_attribute_char(c).len() as int) =~= rest);
    let t = escaped_char(c) + rest;
    assert(t.skip(escaped_char(c).len() as int) =~= rest);
}

/// Reading back an escaped text node gives the text exactly.
pub proof fn lemma_text_round_trip(text: Seq<char>)
    ensures
        unescaped(escaped_text(text)) == text,
    decreases text.len(),
{
    if text.len() > 0 {
        lemma_text_round_trip(text.drop_first());
        lemma_unescape_one(text[0], escaped_text(text.drop_first()));
        assert(seq![text[0]] + text.drop_first() =~= text);
    }
}

/// Reading back an escaped attribute value gives the value exactly.
pub proof fn lemma_attribute_round_trip(value: Seq<char>)
    ensures
        unescaped(escaped_attribute(value)) == value,
    decreases value.len(),
{
    if value.len() > 0 {
        lemma_attribute_round_trip(value.drop_first());
        lemma_unescape_one(value[0], escaped_attribute(value.drop_first()));
        assert(seq![value[0]] + value.drop_first() =~= value);
    }
}

/// An escaped text node holds no `<`: nothing in a file's content can open
/// a tag.
pub proof fn lemma_text_opens_no_tag(text: Seq<char>)
    ensures
        !escaped_text(text).contains('<'),
    decreases text.len(),
{
    if text.len() > 0 {
        lemma_text_opens_no_tag(text.drop_first());
        let head = escaped_char(text[0]);
        let tail = escaped_text(text.drop_first());
        assert forall|i: int| 0 <= i < (head + tail).len() implies (head + tail)[i] != '<' by {
            if i >= head.len() {
                assert(tail.contains(tail[i - head.len()]));
            }
        }
    }
}

/// An escaped attribute value holds neither `<` nor `"`: nothing in a path
/// can end the attribute or open a tag.
pub proof fn lemma_attribute_stays_quoted(value: Seq<char>)
    ensures
        !escaped_attribute(value).contains('<'),
        !escaped_attribute(value).contains('"'),
    decreases value.len(),
{
    if value.len() > 0 {
        lemma_attribute_stays_quoted(value.drop_first());
        let head = escaped_attribute_char(value[0]);
        let tail = escaped_attribute(value.drop_first());
        assert forall|i: int| 0 <= i < (head + tail).len() implies (head + tail)[i] != '<' && (
        head + tail)[i] != '"' by {
            if i >= head.len() {
                assert(tail.contains(tail[i - head.len()]));
            }
        }
    }
}

/// Two texts that a document may hold may follow one another.
pub proof fn lemma_concat_is_xml(first: Seq<char>, second: Seq<char>)
    requires
        all_xml_chars(first),
        all_xml_chars(second),
    ensures
        all_xml_chars(first + second),
{
}

/// Escaping brings in nothing that a document may not hold.
pub proof fn lemma_escaped_text_is_xml(text: Seq<char>)
    requires
        all_xml_chars(text),
    ensures
        all_xml_chars(escaped_text(text)),
    decreases text.len(),
{
    if text.len() > 0 {
        assert(is_xml_char(text[0]));
        assert forall|i: int| 0 <= i < text.drop_first().len() implies is_xml_char(
            #[trigger] text.drop_first()[i],
        ) by {
            assert(text.drop_first()[i] == text[i + 1]);
        }
        lemma_escaped_text_is_xml(text.drop_first());
        assert(all_xml_chars(escaped_char(text[0])));
        lemma_concat_is_xml(escaped_char(text[0]), escaped_text(text.drop_first()));
    }
}

/// Escaping an attribute value brings in nothing that a document may not
/// hold.
pub proof fn lemma_escaped_attribute_is_xml(value: Seq<char>)
    requires
        all_xml_chars(value),
    ensures
        all_xml_chars(escaped_attribute(value)),
    decreases value.len(),
{
    if value.len() > 0 {
        assert(is_xml_char(value[0]));
        assert forall|i: int| 0 <= i < value.drop_first().len() implies is_xml_char(
            #[trigger] value.drop_first()[i],
        ) by {
            assert(value.drop_first()[i] == value[i + 1]);
        }
        lemma_escaped_attribute_is_xml(value.drop_first());
        assert(all_xml_chars(escaped_attribute_char(value[0])));
        lemma_concat_is_xml(
            escaped_attribute_char(value[0]),
            escaped_attribute(value.drop_first()),
        );
    }
}

/// A text that a document may hold is read back exactly as it was given:
/// nothing of it is replaced, and what is escaped is resolved again.
pub proof fn lemma_xml_text_round_trip(text: Seq<char>)
    requires
        all_xml_chars(text),
    ensures
        unescaped(escaped_text(safe_text(text))) == text,
        unescaped(escaped_attribute(safe_text(text))) == text,
{
    lemma_safe_text_keeps_xml_text(text);
    lemma_text_round_trip(text);
    lemma_attribute_round_trip(text);
}

} // verus!
