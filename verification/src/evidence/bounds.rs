//! What keeps evidence small and clean: texts are cut to a length, and texts that
//! may hold secrets are replaced.

use vstd::prelude::*;
use vstd::slice::slice_subrange;
use vstd::string::StringExecFns;

use crate::text;
use crate::text::{chars_of, contains_text, lowered, text_of};

verus! {

/// How many characters a text keeps.
pub const MAX_FIELD_CHARS: usize = 4096;

/// A text, cut where it is too long, and then marked as cut.
pub open spec fn bound(s: Seq<char>) -> Seq<char> {
    if s.len() <= MAX_FIELD_CHARS {
        s
    } else {
        s.take(MAX_FIELD_CHARS as int) + "...[truncated]"@
    }
}

/// Whether a text speaks of a secret, in capitals or not.
pub open spec fn sensitive(s: Seq<char>) -> bool {
    let small = text::ascii_lower(s);
    text::has_text(small, "secret"@) || text::has_text(small, "password"@) || text::has_text(
        small,
        "token"@,
    )
}

/// A text, replaced where it speaks of a secret, cut where it is too long.
pub open spec fn redact(s: Seq<char>) -> Seq<char> {
    if sensitive(s) {
        "[redacted]"@
    } else {
        bound(s)
    }
}

/// Texts, each cut where it is too long.
pub open spec fn bound_all(list: Seq<Seq<char>>) -> Seq<Seq<char>> {
    list.map_values(|s: Seq<char>| bound(s))
}

/// A text, cut where it is too long.
pub fn bound_string(value: &str) -> (res: String)
    ensures
        res@ == bound(value@),
{
    let chars = chars_of(value);
    if chars.len() <= MAX_FIELD_CHARS {
        return value.to_owned();
    }
    let mut truncated = text_of(slice_subrange(chars.as_slice(), 0, MAX_FIELD_CHARS));
    truncated.append("...[truncated]");
    truncated
}

/// Texts, each cut where it is too long.
pub fn bound_strings(values: &Vec<String>) -> (res: Vec<String>)
    ensures
        text::texts(res@) == bound_all(text::texts(values@)),
{
    let mut out: Vec<String> = Vec::new();
    let mut i: usize = 0;
    while i < values.len()
        invariant
            i <= values@.len(),
            text::texts(out@) == bound_all(text::texts(values@)).take(i as int),
        decreases values@.len() - i,
    {
        let ghost had = text::texts(out@);
        let next = bound_string(values[i].as_str());
        out.push(next);
        assert(text::texts(out@) == had.push(next@));
        assert(bound_all(text::texts(values@)).take(i + 1) == had.push(next@));
        i = i + 1;
    }
    assert(bound_all(text::texts(values@)).take(values@.len() as int) == bound_all(
        text::texts(values@),
    ));
    out
}

/// A text, replaced where it speaks of a secret, cut where it is too long.
pub fn redact_and_bound(value: &str) -> (res: String)
    ensures
        res@ == redact(value@),
{
    let chars = chars_of(value);
    let small = lowered(chars.as_slice());
    if contains_text(small.as_slice(), chars_of("secret").as_slice()) || contains_text(
        small.as_slice(),
        chars_of("password").as_slice(),
    ) || contains_text(small.as_slice(), chars_of("token").as_slice()) {
        return "[redacted]".to_owned();
    }
    bound_string(value)
}

/// No text is longer than the limit and the mark, a text within the limit stays
/// as it is, and a longer one keeps its front.
pub proof fn law_bound_is_bounded(s: Seq<char>)
    ensures
        bound(s).len() <= MAX_FIELD_CHARS + 14,
        s.len() <= MAX_FIELD_CHARS ==> bound(s) == s,
        s.len() > MAX_FIELD_CHARS ==> bound(s).take(MAX_FIELD_CHARS as int) == s.take(
            MAX_FIELD_CHARS as int,
        ),
{
    reveal_strlit("...[truncated]");
}

/// What redaction lets through speaks of no secret, and is bounded.
pub proof fn law_redacted_is_clean(s: Seq<char>)
    ensures
        !sensitive(redact(s)),
        redact(s).len() <= MAX_FIELD_CHARS + 14,
{
    law_bound_is_bounded(s);
    reveal_strlit("[redacted]");
    if sensitive(s) {
        reveal_strlit("secret");
        reveal_strlit("password");
        reveal_strlit("token");
        let small = text::ascii_lower("[redacted]"@);
        assert(small[0] == '[' && small[1] == 'r' && small[2] == 'e' && small[3] == 'd' && small[4]
            == 'a' && small[5] == 'c' && small[6] == 't' && small[7] == 'e' && small[8] == 'd'
            && small[9] == ']');
        assert("secret"@[0] == 's' && "password"@[2] == 's' && "token"@[1] == 'o');
        lemma_lacks(small, "secret"@, 's');
        lemma_lacks(small, "password"@, 's');
        lemma_lacks(small, "token"@, 'o');
    } else {
        lemma_cut_is_clean(s, "secret"@);
        lemma_cut_is_clean(s, "password"@);
        lemma_cut_is_clean(s, "token"@);
    }
}

/// A text that lacks a letter of a word lacks the word.
pub proof fn lemma_lacks(s: Seq<char>, word: Seq<char>, letter: char)
    requires
        word.contains(letter),
        forall|i: int| 0 <= i < s.len() ==> #[trigger] s[i] != letter,
    ensures
        !text::has_text(s, word),
{
    if text::has_text(s, word) {
        let at = choose|i: int|
            0 <= i <= s.len() - word.len() && #[trigger] s.subrange(i, i + word.len()) == word;
        let k = choose|k: int| 0 <= k < word.len() && word[k] == letter;
        assert(s.subrange(at, at + word.len())[k] == s[at + k]);
    }
}

/// Cutting a text that lacks a word brings the word in no more than the text did.
proof fn lemma_cut_is_clean(s: Seq<char>, word: Seq<char>)
    requires
        !text::has_text(text::ascii_lower(s), word),
        word == "secret"@ || word == "password"@ || word == "token"@,
    ensures
        !text::has_text(text::ascii_lower(bound(s)), word),
{
    reveal_strlit("...[truncated]");
    reveal_strlit("secret");
    reveal_strlit("password");
    reveal_strlit("token");
    let small = text::ascii_lower(s);
    let cut = text::ascii_lower(bound(s));
    if s.len() > MAX_FIELD_CHARS && text::has_text(cut, word) {
        let mark = text::ascii_lower("...[truncated]"@);
        assert(mark[0] == '.' && mark[1] == '.' && mark[2] == '.' && mark[3] == '[' && mark[4]
            == 't' && mark[5] == 'r' && mark[6] == 'u' && mark[7] == 'n' && mark[8] == 'c'
            && mark[9] == 'a' && mark[10] == 't' && mark[11] == 'e' && mark[12] == 'd' && mark[13]
            == ']');
        let at = choose|i: int|
            0 <= i <= cut.len() - word.len() && #[trigger] cut.subrange(i, i + word.len()) == word;
        let n = MAX_FIELD_CHARS as int;
        assert(cut == small.take(n) + mark);
        assert forall|k: int| 0 <= k < word.len() implies word[k] == #[trigger] cut[at + k] by {
            assert(cut.subrange(at, at + word.len())[k] == cut[at + k]);
        }
        if at + word.len() <= n {
            assert(small.subrange(at, at + word.len()) == word);
        } else if at <= n {
            assert(cut[at + (n - at)] == '.');
            assert(word[n - at] == '.');
        } else {
            assert(word[0] == mark[at - n]);
            assert(word[1] == cut[at + 1] && word[1] == mark[at + 1 - n]);
            assert(word[2] == cut[at + 2] && word[2] == mark[at + 2 - n]);
        }
    }
}

/// A text keeps its first 4096 characters, and one that loses any is marked as cut; a text speaks
/// of a secret where one of three words stands in it, in capitals or not, and nothing of such a
/// text is let through.
pub proof fn law_limits_are_these(s: Seq<char>)
    ensures
        s.len() <= 4096 ==> bound(s) == s,
        s.len() > 4096 ==> bound(s) == s.take(4096) + "...[truncated]"@,
        sensitive(s) <==> text::has_text(text::ascii_lower(s), "secret"@) || text::has_text(
            text::ascii_lower(s),
            "password"@,
        ) || text::has_text(text::ascii_lower(s), "token"@),
        sensitive(s) ==> redact(s) == "[redacted]"@,
        !sensitive(s) ==> redact(s) == bound(s),
{
}

} // verus!
