//! JSON text.

use vstd::prelude::*;
use vstd::string::StringExecFns;

use crate::number;
use crate::text;
use crate::text::join;

verus! {

/// How a character stands in a JSON string.
pub open spec fn escaped(c: char) -> Seq<char> {
    if c == '"' {
        seq!['\\', '"']
    } else if c == '\\' {
        seq!['\\', '\\']
    } else if c == '\u{8}' {
        seq!['\\', 'b']
    } else if c == '\t' {
        seq!['\\', 't']
    } else if c == '\n' {
        seq!['\\', 'n']
    } else if c == '\u{c}' {
        seq!['\\', 'f']
    } else if c == '\r' {
        seq!['\\', 'r']
    } else if ' ' > c {
        seq![
            '\\',
            'u',
            '0',
            '0',
            number::hex_digit(c as int / 16),
            number::hex_digit(c as int % 16),
        ]
    } else {
        seq![c]
    }
}

/// The characters of a JSON string.
pub open spec fn escaped_all(s: Seq<char>) -> Seq<char>
    decreases s.len(),
{
    if s.len() == 0 {
        Seq::empty()
    } else {
        escaped_all(s.drop_last()) + escaped(s.last())
    }
}

/// A text as a JSON string.
pub open spec fn quoted(s: Seq<char>) -> Seq<char> {
    seq!['"'] + escaped_all(s) + seq!['"']
}

/// `serde_json::to_string` of a string: it cannot fail, and gives the string
/// between double quotes, with quotes, backslashes and control characters escaped.
#[verifier::external_body]
fn string_to_json(s: &str) -> (res: Result<String, serde_json::Error>)
    ensures
        res is Ok,
        res->Ok_0@ == quoted(s@),
{
    serde_json::to_string(s)
}

/// The error of `serde_json`, which is only carried.
#[verifier::external_type_specification]
#[verifier::external_body]
pub struct ExJsonError(serde_json::Error);

/// A text as a JSON string.
pub fn json_string(s: &str) -> (res: String)
    ensures
        res@ == quoted(s@),
{
    match string_to_json(s) {
        Ok(t) => t,
        Err(_) => String::new(),
    }
}

/// A name and a value in a JSON object.
pub open spec fn member(key: Seq<char>, value: Seq<char>) -> Seq<char> {
    quoted(key) + ":"@ + value
}

/// A JSON object.
pub open spec fn object(members: Seq<Seq<char>>) -> Seq<char> {
    "{"@ + text::joined(members, ","@) + "}"@
}

/// A JSON array.
pub open spec fn array(items: Seq<Seq<char>>) -> Seq<char> {
    "["@ + text::joined(items, ","@) + "]"@
}

/// A JSON array of strings.
pub open spec fn string_array(items: Seq<Seq<char>>) -> Seq<char> {
    array(items.map_values(|s: Seq<char>| quoted(s)))
}

/// A name and a value in a JSON object.
pub fn json_member(key: &str, value: &str) -> (res: String)
    ensures
        res@ == member(key@, value@),
{
    let mut out = json_string(key);
    out.append(":");
    out.append(value);
    out
}

/// A JSON object.
pub fn json_object(members: &Vec<String>) -> (res: String)
    ensures
        res@ == object(text::texts(members@)),
{
    let mut out = "{".to_owned();
    out.append(join(members, ",").as_str());
    out.append("}");
    out
}

/// A JSON array of strings.
pub fn json_string_array(items: &Vec<String>) -> (res: String)
    ensures
        res@ == string_array(text::texts(items@)),
{
    let ghost all = text::texts(items@).map_values(|s: Seq<char>| quoted(s));
    let mut parts: Vec<String> = Vec::new();
    let mut i: usize = 0;
    while i < items.len()
        invariant
            i <= items@.len(),
            all == text::texts(items@).map_values(|s: Seq<char>| quoted(s)),
            text::texts(parts@) == all.take(i as int),
        decreases items@.len() - i,
    {
        let ghost had = text::texts(parts@);
        let next = json_string(items[i].as_str());
        parts.push(next);
        assert(text::texts(parts@) == had.push(next@));
        assert(all.take(i + 1) == had.push(next@));
        i = i + 1;
    }
    assert(all.take(all.len() as int) == all);
    let mut out = "[".to_owned();
    out.append(join(&parts, ",").as_str());
    out.append("]");
    out
}

/// Whether a text has no control character; so it is one line.
pub open spec fn plain(s: Seq<char>) -> bool {
    forall|i: int| 0 <= i < s.len() ==> ' ' <= #[trigger] s[i]
}

/// Whether texts are all such.
pub open spec fn all_plain(parts: Seq<Seq<char>>) -> bool {
    forall|i: int| 0 <= i < parts.len() ==> plain(#[trigger] parts[i])
}

/// A JSON string has no control character, whatever text it stands for.
pub proof fn law_quoted_is_plain(s: Seq<char>)
    ensures
        plain(quoted(s)),
{
    lemma_escaped_plain(s);
}

proof fn lemma_escaped_plain(s: Seq<char>)
    ensures
        plain(escaped_all(s)),
    decreases s.len(),
{
    if s.len() > 0 {
        lemma_escaped_plain(s.drop_last());
        lemma_escaped_char_plain(s.last());
    }
}

proof fn lemma_escaped_char_plain(c: char)
    ensures
        plain(escaped(c)),
{
    if ' ' > c {
        assert(0 <= c as int && (c as int) < 32);
        assert(' ' <= number::hex_digit(c as int / 16) && ' ' <= number::hex_digit(c as int % 16));
    }
}

/// Texts without control characters have none when they are joined by such a text.
pub proof fn lemma_joined_plain(parts: Seq<Seq<char>>, sep: Seq<char>)
    requires
        all_plain(parts),
        plain(sep),
    ensures
        plain(text::joined(parts, sep)),
    decreases parts.len(),
{
    if parts.len() == 1 {
        assert(plain(parts[0]));
    } else if parts.len() > 1 {
        let front = parts.drop_last();
        assert forall|i: int| 0 <= i < front.len() implies plain(#[trigger] front[i]) by {
            assert(front[i] == parts[i]);
        }
        lemma_joined_plain(front, sep);
        assert(plain(parts[parts.len() - 1]));
    }
}

/// A member of an object has no control character where its value has none.
pub proof fn lemma_member_plain(key: Seq<char>, value: Seq<char>)
    requires
        plain(value),
    ensures
        plain(member(key, value)),
{
    reveal_strlit(":");
    law_quoted_is_plain(key);
}

/// An object has no control character where its members have none.
pub proof fn lemma_object_plain(members: Seq<Seq<char>>)
    requires
        all_plain(members),
    ensures
        plain(object(members)),
{
    reveal_strlit("{");
    reveal_strlit("}");
    reveal_strlit(",");
    lemma_joined_plain(members, ","@);
}

/// An array of strings has no control character.
pub proof fn lemma_string_array_plain(items: Seq<Seq<char>>)
    ensures
        plain(string_array(items)),
{
    reveal_strlit("[");
    reveal_strlit("]");
    reveal_strlit(",");
    let parts = items.map_values(|s: Seq<char>| quoted(s));
    assert forall|i: int| 0 <= i < parts.len() implies plain(#[trigger] parts[i]) by {
        law_quoted_is_plain(items[i]);
    }
    lemma_joined_plain(parts, ","@);
}

} // verus!
