//! JSON texts.

use vstd::prelude::*;
use vstd::string::*;

use crate::text;

verus! {

/// A JSON value of any shape, which passes through unread.
#[verifier::external_type_specification]
#[verifier::external_body]
pub struct ExValue(serde_json::Value);

/// An error of serde_json, which passes through unread.
#[verifier::external_type_specification]
#[verifier::external_body]
pub struct ExError(serde_json::Error);

/// A hexadecimal digit.
pub open spec fn hex_digit(d: nat) -> char {
    if d < 10 {
        ('0' as nat + d) as char
    } else {
        ('a' as nat + d - 10) as char
    }
}

/// A character within a JSON string. Quotes, backslashes and control characters
/// are escaped.
pub open spec fn escaped_char(c: char) -> Seq<char> {
    if c == '"' || c == '\\' {
        seq!['\\', c]
    } else if c == '\u{8}' {
        seq!['\\', 'b']
    } else if c == '\t' {
        seq!['\\', 't']
    } else if c == '\n' {
        seq!['\\', 'n']
    } else if c == '\u{c}' {
        seq!['\\', 'f']
    } else if c == '\r' {
        seq!['\\', 'r']
    } else if ' ' > c {
        seq!['\\', 'u', '0', '0', hex_digit(c as nat / 16), hex_digit(c as nat % 16)]
    } else {
        seq![c]
    }
}

/// The characters of a text within a JSON string.
pub open spec fn escaped(s: Seq<char>) -> Seq<char>
    decreases s.len(),
{
    if s.len() == 0 {
        Seq::empty()
    } else {
        escaped(s.drop_last()) + escaped_char(s.last())
    }
}

/// A text as a JSON string.
pub open spec fn json_string(s: Seq<char>) -> Seq<char> {
    seq!['"'] + escaped(s) + seq!['"']
}

/// What a JSON value holds: its text without white space between the tokens.
pub uninterp spec fn value_text(value: serde_json::Value) -> Seq<char>;

/// What `serde_json::to_string_pretty` gives for the value with this text.
pub uninterp spec fn pretty_text(value_text: Seq<char>) -> Seq<char>;

/// The text is one line.
pub open spec fn has_no_line_feed(s: Seq<char>) -> bool {
    forall|i: int| 0 <= i < s.len() ==> s[i] != '\n'
}

/// A JSON string is one line.
pub proof fn lemma_json_string_is_one_line(s: Seq<char>)
    ensures
        has_no_line_feed(json_string(s)),
{
    lemma_escaped_is_one_line(s);
}

/// A character within a JSON string is no line feed.
proof fn lemma_escaped_char(c: char)
    ensures
        has_no_line_feed(escaped_char(c)),
{
    if ' ' > c {
        let high = c as nat / 16;
        let low = c as nat % 16;
        assert(high < 2 && low < 16);
        assert(hex_digit(high) != '\n');
        assert(hex_digit(low) != '\n');
    }
}

proof fn lemma_escaped_is_one_line(s: Seq<char>)
    ensures
        has_no_line_feed(escaped(s)),
    decreases s.len(),
{
    if s.len() > 0 {
        lemma_escaped_is_one_line(s.drop_last());
        lemma_escaped_char(s.last());
    }
}

/// `serde_json::to_string` on a text. It succeeds, since a text has a JSON
/// form and memory takes all writes, and gives the text between quotes, with
/// quotes, backslashes and control characters escaped.
#[verifier::external_body]
pub(crate) fn string_to_json(s: &str) -> (r: Result<String, serde_json::Error>)
    ensures
        r is Ok,
        r->Ok_0@ == json_string(s@),
{
    serde_json::to_string(s)
}

/// A member of a JSON object, whose value is a text.
pub open spec fn member(name: Seq<char>, value: Seq<char>) -> Seq<char> {
    json_string(name) + ":"@ + json_string(value)
}

/// `a` comes before `b` in the order of texts: they differ first at `k`, where
/// `a` has the lesser character.
pub open spec fn comes_before_at(a: Seq<char>, b: Seq<char>, k: int) -> bool {
    &&& 0 <= k < a.len()
    &&& k < b.len()
    &&& a.take(k) == b.take(k)
    &&& a[k] < b[k]
}

/// `a` comes before `b` in the order of texts, and is not the start of it.
pub open spec fn comes_before(a: Seq<char>, b: Seq<char>) -> bool {
    exists|k: int| comes_before_at(a, b, k)
}

/// `serde_json::to_vec` on a `BTreeMap` of four names and their texts. It
/// succeeds, since a map of texts has a JSON form and memory takes all writes,
/// and gives an object with a member for each name, in the order of the names,
/// without white space between the tokens.
#[verifier::external_body]
pub(crate) fn texts_to_json(
    first: (&str, &str),
    second: (&str, &str),
    third: (&str, &str),
    fourth: (&str, &str),
) -> (r: Result<Vec<u8>, serde_json::Error>)
    requires
        comes_before(first.0@, second.0@),
        comes_before(second.0@, third.0@),
        comes_before(third.0@, fourth.0@),
    ensures
        r is Ok,
        r->Ok_0@ == vstd::utf8::encode_utf8(
            "{"@ + member(first.0@, first.1@) + ","@ + member(second.0@, second.1@) + ","@ + member(
                third.0@,
                third.1@,
            ) + ","@ + member(fourth.0@, fourth.1@) + "}"@,
        ),
{
    serde_json::to_vec(&std::collections::BTreeMap::from([first, second, third, fourth]))
}

/// `serde_json::to_string` on a value. It succeeds, since a value has a JSON
/// form and memory takes all writes. It writes no white space between tokens
/// and escapes a line feed within strings, so the result has none.
#[verifier::external_body]
pub(crate) fn value_to_json(value: &serde_json::Value) -> (r: Result<String, serde_json::Error>)
    ensures
        r is Ok,
        r->Ok_0@ == value_text(*value),
        has_no_line_feed(r->Ok_0@),
{
    serde_json::to_string(value)
}

/// `serde_json::to_string_pretty` on a value. It succeeds, since a value has a
/// JSON form and memory takes all writes.
#[verifier::external_body]
pub(crate) fn value_to_pretty_json(value: &serde_json::Value) -> (r: Result<
    String,
    serde_json::Error,
>)
    ensures
        r is Ok,
        r->Ok_0@ == pretty_text(value_text(*value)),
{
    serde_json::to_string_pretty(value)
}

/// The text with `margin` behind each line feed.
pub open spec fn indented(s: Seq<char>, margin: Seq<char>) -> Seq<char> {
    text::joined(text::split_on(s, '\n'), seq!['\n'] + margin)
}

/// The text with `margin` behind each line feed.
pub fn indent(s: &str, margin: &str) -> (r: String)
    ensures
        r@ == indented(s@, margin@),
{
    let pieces = text::split(s, '\n');
    let mut sep = String::new();
    sep.push('\n');
    sep.append(margin);
    assert(sep@ =~= seq!['\n'] + margin@);
    text::join(&pieces, sep.as_str())
}

/// A JSON string is a quote, the characters one by one, and a quote.
pub proof fn law_json_string(s: Seq<char>, c: char)
    ensures
        json_string(Seq::empty()) == seq!['"', '"'],
        json_string(s.push(c)) == json_string(s).drop_last() + escaped_char(c) + seq!['"'],
{
    assert(json_string(Seq::empty()) =~= seq!['"', '"']);
    assert(s.push(c).drop_last() =~= s);
    assert(json_string(s).drop_last() =~= seq!['"'] + escaped(s));
    assert(json_string(s.push(c)) =~= json_string(s).drop_last() + escaped_char(c) + seq!['"']);
}

/// In a JSON string a character stands for itself, unless it is a quote, a backslash or
/// a control character, which have their escapes.
pub proof fn law_escapes(c: char)
    ensures
        escaped_char('"') == seq!['\\', '"'],
        escaped_char('\\') == seq!['\\', '\\'],
        escaped_char('\n') == seq!['\\', 'n'],
        escaped_char('\r') == seq!['\\', 'r'],
        escaped_char('\t') == seq!['\\', 't'],
        escaped_char('\u{8}') == seq!['\\', 'b'],
        escaped_char('\u{c}') == seq!['\\', 'f'],
        c >= ' ' && c != '"' && c != '\\' ==> escaped_char(c) == seq![c],
        ' ' > c && c != '\n' && c != '\r' && c != '\t' && c != '\u{8}' && c != '\u{c}' ==> {
            let low = c as int % 16;
            &&& escaped_char(c).len() == 6
            &&& escaped_char(c).take(4) == seq!['\\', 'u', '0', '0']
            &&& escaped_char(c)[4] == if c as int >= 16 {
                '1'
            } else {
                '0'
            }
            &&& low < 10 ==> escaped_char(c)[5] as int == '0' as int + low
            &&& low >= 10 ==> escaped_char(c)[5] as int == 'a' as int + low - 10
        },
{
    if ' ' > c && c != '\n' && c != '\r' && c != '\t' && c != '\u{8}' && c != '\u{c}' {
        assert(escaped_char(c).take(4) =~= seq!['\\', 'u', '0', '0']);
        assert(c as int / 16 == 0 || c as int / 16 == 1);
    }
}

/// Behind each line feed of a text stands the margin; the text is as it was otherwise.
pub proof fn law_margin_behind_line_feeds(s: Seq<char>, line: Seq<char>, margin: Seq<char>)
    requires
        forall|i: int| 0 <= i < line.len() ==> line[i] != '\n',
    ensures
        indented(line, margin) == line,
        indented(s + seq!['\n'] + line, margin) == indented(s, margin) + (seq!['\n'] + margin)
            + line,
{
    text::law_split_at_each(s, line, '\n');
    text::law_pieces_make_up_the_text(s, '\n');
    let sep = seq!['\n'] + margin;
    text::law_joined_part_by_part(text::split_on(s, '\n'), line, sep);
}

} // verus!
