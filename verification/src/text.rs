//! Text as sequences of characters: the scanning, trimming and comparing that
//! the parsers and renderers of the other modules are built from.

use vstd::prelude::*;
use vstd::slice::{slice_subrange, slice_to_vec};
use vstd::string::StringExecFns;

verus! {

/// `String::push`: the string grows by the one character given, at its end.
pub assume_specification[ std::string::String::push ](s: &mut std::string::String, c: char)
    ensures
        final(s)@ == old(s)@.push(c),
;

/// The characters with Unicode's `White_Space` property.
pub open spec fn white(c: char) -> bool {
    ||| '\u{9}' <= c <= '\u{d}'
    ||| c == ' '
    ||| c == '\u{85}'
    ||| c == '\u{a0}'
    ||| c == '\u{1680}'
    ||| '\u{2000}' <= c <= '\u{200a}'
    ||| c == '\u{2028}'
    ||| c == '\u{2029}'
    ||| c == '\u{202f}'
    ||| c == '\u{205f}'
    ||| c == '\u{3000}'
}

/// Whether a character is white space.
pub fn is_white(c: char) -> (res: bool)
    ensures
        res == white(c),
{
    ('\u{9}' <= c && c <= '\u{d}') || c == ' ' || c == '\u{85}' || c == '\u{a0}' || c == '\u{1680}'
        || ('\u{2000}' <= c && c <= '\u{200a}') || c == '\u{2028}' || c == '\u{2029}' || c
        == '\u{202f}' || c == '\u{205f}' || c == '\u{3000}'
}

/// How many characters at the front of `s` satisfy `p`, up to the first that does not.
pub open spec fn run(s: Seq<char>, p: spec_fn(char) -> bool) -> nat
    decreases s.len(),
{
    if s.len() == 0 || !p(s[0]) {
        0
    } else {
        1 + run(s.skip(1), p)
    }
}

/// How many characters at the back of `s` satisfy `p`, up to the first that does not.
pub open spec fn run_back(s: Seq<char>, p: spec_fn(char) -> bool) -> nat
    decreases s.len(),
{
    if s.len() == 0 || !p(s.last()) {
        0
    } else {
        1 + run_back(s.drop_last(), p)
    }
}

/// `run` is the one length up to which every character satisfies `p`, and which
/// the next character, if there is one, does not extend.
pub proof fn lemma_run(s: Seq<char>, p: spec_fn(char) -> bool, n: nat)
    requires
        n <= s.len(),
        forall|i: int| 0 <= i < n ==> p(#[trigger] s[i]),
        n < s.len() ==> !p(s[n as int]),
    ensures
        run(s, p) == n,
    decreases s.len(),
{
    if n > 0 {
        assert(p(s[0]));
        let rest = s.skip(1);
        assert forall|i: int| 0 <= i < n - 1 implies p(#[trigger] rest[i]) by {
            assert(rest[i] == s[i + 1]);
        }
        lemma_run(rest, p, (n - 1) as nat);
    }
}

/// What `run` counts.
pub proof fn lemma_run_facts(s: Seq<char>, p: spec_fn(char) -> bool)
    ensures
        run(s, p) <= s.len(),
        forall|i: int| 0 <= i < run(s, p) ==> p(#[trigger] s[i]),
        run(s, p) < s.len() ==> !p(s[run(s, p) as int]),
    decreases s.len(),
{
    if s.len() > 0 && p(s[0]) {
        let rest = s.skip(1);
        lemma_run_facts(rest, p);
        assert forall|i: int| 0 <= i < run(s, p) implies p(#[trigger] s[i]) by {
            if i > 0 {
                assert(p(rest[i - 1]));
            }
        }
    }
}

/// As `lemma_run`, counted from the back.
pub proof fn lemma_run_back(s: Seq<char>, p: spec_fn(char) -> bool, n: nat)
    requires
        n <= s.len(),
        forall|i: int| s.len() - n <= i < s.len() ==> p(#[trigger] s[i]),
        n < s.len() ==> !p(s[s.len() - n - 1]),
    ensures
        run_back(s, p) == n,
    decreases s.len(),
{
    if n > 0 {
        assert(p(s[s.len() - 1]));
        let rest = s.drop_last();
        assert forall|i: int| rest.len() - (n - 1) <= i < rest.len() implies p(
            #[trigger] rest[i],
        ) by {
            assert(rest[i] == s[i]);
        }
        lemma_run_back(rest, p, (n - 1) as nat);
    }
}

/// What `run_back` counts.
pub proof fn lemma_run_back_facts(s: Seq<char>, p: spec_fn(char) -> bool)
    ensures
        run_back(s, p) <= s.len(),
        forall|i: int| s.len() - run_back(s, p) <= i < s.len() ==> p(#[trigger] s[i]),
        run_back(s, p) < s.len() ==> !p(s[s.len() - run_back(s, p) - 1]),
    decreases s.len(),
{
    if s.len() > 0 && p(s.last()) {
        let rest = s.drop_last();
        lemma_run_back_facts(rest, p);
        assert forall|i: int| s.len() - run_back(s, p) <= i < s.len() implies p(
            #[trigger] s[i],
        ) by {
            if i < s.len() - 1 {
                assert(p(rest[i]));
            }
        }
    }
}

/// The white characters.
pub open spec fn whites() -> spec_fn(char) -> bool {
    |c: char| white(c)
}

/// The characters that words are made of: those that are not white.
pub open spec fn inks() -> spec_fn(char) -> bool {
    |c: char| !white(c)
}

/// The characters other than `stop`.
pub open spec fn other_than(stop: char) -> spec_fn(char) -> bool {
    |c: char| c != stop
}

/// The one character `c`.
pub open spec fn just(lead: char) -> spec_fn(char) -> bool {
    |c: char| c == lead
}

/// `s` without the white space at its front.
pub open spec fn trim_start(s: Seq<char>) -> Seq<char> {
    s.skip(run(s, whites()) as int)
}

/// `s` without the white space at its back.
pub open spec fn trim_end(s: Seq<char>) -> Seq<char> {
    s.take(s.len() - run_back(s, whites()))
}

/// `s` without the white space at either side.
pub open spec fn trim(s: Seq<char>) -> Seq<char> {
    trim_end(trim_start(s))
}

/// What stands before the first `stop` in `s`; all of `s` where there is none.
pub open spec fn before(s: Seq<char>, stop: char) -> Seq<char> {
    s.take(run(s, other_than(stop)) as int)
}

/// What stands behind the first `stop` in `s`; nothing where there is none.
pub open spec fn behind(s: Seq<char>, stop: char) -> Seq<char> {
    if s.contains(stop) {
        s.skip(run(s, other_than(stop)) as int + 1)
    } else {
        Seq::empty()
    }
}

/// The first word of `s`, between white space; empty where `s` holds no word.
pub open spec fn first_word(s: Seq<char>) -> Seq<char> {
    let rest = trim_start(s);
    rest.take(run(rest, inks()) as int)
}

/// The last word of `s`, between white space; empty where `s` holds no word.
pub open spec fn last_word(s: Seq<char>) -> Seq<char> {
    let rest = trim_end(s);
    rest.skip(rest.len() - run_back(rest, inks()))
}

/// `s` without the copies of `lead` at its front.
pub open spec fn strip_lead(s: Seq<char>, lead: char) -> Seq<char> {
    s.skip(run(s, just(lead)) as int)
}

/// Where `a` and `b` first stand side by side in `s`.
pub open spec fn find_pair(s: Seq<char>, a: char, b: char) -> Option<int>
    decreases s.len(),
{
    if s.len() < 2 {
        None
    } else if s[0] == a && s[1] == b {
        Some(0)
    } else {
        match find_pair(s.skip(1), a, b) {
            Some(i) => Some(i + 1),
            None => None,
        }
    }
}

/// Where `a` and `b` last stand side by side in `s`.
pub open spec fn rfind_pair(s: Seq<char>, a: char, b: char) -> Option<int>
    decreases s.len(),
{
    if s.len() < 2 {
        None
    } else if s[s.len() - 2] == a && s[s.len() - 1] == b {
        Some(s.len() - 2)
    } else {
        rfind_pair(s.drop_last(), a, b)
    }
}

/// A line without the carriage return that its line feed may have had before it.
pub open spec fn chomp(s: Seq<char>) -> Seq<char> {
    if s.len() > 0 && s.last() == '\r' {
        s.drop_last()
    } else {
        s
    }
}

/// The lines of a text: each ends at a line feed, or at a carriage return and a
/// line feed, which are not part of it; the last line may lack them.
pub open spec fn lines(s: Seq<char>) -> Seq<Seq<char>>
    decreases s.len(),
{
    if s.len() == 0 {
        Seq::empty()
    } else {
        let n = run(s, other_than('\n'));
        if n < s.len() {
            seq![chomp(s.take(n as int))] + lines(s.skip(n as int + 1))
        } else {
            seq![s]
        }
    }
}

/// Whether `word` stands somewhere in `s`.
pub open spec fn has_text(s: Seq<char>, word: Seq<char>) -> bool {
    exists|i: int|
        0 <= i <= s.len() - word.len() && #[trigger] s.subrange(i, i + word.len()) == word
}

/// `c` with an ASCII capital made small.
pub open spec fn small(c: char) -> char {
    if 'A' <= c <= 'Z' {
        (c as u32 + 32) as char
    } else {
        c
    }
}

/// `s` with its ASCII capitals made small.
pub open spec fn ascii_lower(s: Seq<char>) -> Seq<char> {
    s.map_values(|c: char| small(c))
}

/// `s` with every `from` replaced by `to`.
pub open spec fn swap_char(s: Seq<char>, from: char, to: char) -> Seq<char> {
    s.map_values(|c: char| if c == from { to } else { c })
}

/// The texts in order, with `sep` between each two.
pub open spec fn joined(parts: Seq<Seq<char>>, sep: Seq<char>) -> Seq<char>
    decreases parts.len(),
{
    if parts.len() == 0 {
        Seq::empty()
    } else if parts.len() == 1 {
        parts[0]
    } else {
        joined(parts.drop_last(), sep) + sep + parts.last()
    }
}

/// `n` spaces.
pub open spec fn spaces(n: nat) -> Seq<char> {
    Seq::new(n, |i: int| ' ')
}

/// `s` and the spaces that bring it to `width` characters.
pub open spec fn pad_right(s: Seq<char>, width: nat) -> Seq<char> {
    if s.len() < width {
        s + spaces((width - s.len()) as nat)
    } else {
        s
    }
}

/// The spaces that bring `s` to `width` characters, and `s`.
pub open spec fn pad_left(s: Seq<char>, width: nat) -> Seq<char> {
    if s.len() < width {
        spaces((width - s.len()) as nat) + s
    } else {
        s
    }
}

/// Whether `a` comes before `b` in the order of their characters' code points,
/// a prefix before what it is a prefix of.
pub open spec fn precedes(a: Seq<char>, b: Seq<char>) -> bool
    decreases a.len(),
{
    if b.len() == 0 {
        false
    } else if a.len() == 0 {
        true
    } else if a[0] == b[0] {
        precedes(a.skip(1), b.skip(1))
    } else {
        a[0] < b[0]
    }
}

/// The text of a string that may be there.
pub open spec fn text_in(o: Option<String>) -> Option<Seq<char>> {
    match o {
        Some(s) => Some(s@),
        None => None,
    }
}

/// The texts that a list of strings holds.
pub open spec fn texts(v: Seq<String>) -> Seq<Seq<char>> {
    v.map_values(|s: String| s@)
}

/// Text is its own trimming where it is empty or has ink at either end.
pub proof fn lemma_trim_keeps(s: Seq<char>)
    ensures
        trim(s) == s <==> s.len() == 0 || (!white(s[0]) && !white(s.last())),
{
    lemma_run_facts(s, whites());
    let front = trim_start(s);
    lemma_run_back_facts(front, whites());
    if s.len() == 0 {
        assert(trim(s) == s);
    } else if !white(s[0]) && !white(s.last()) {
        lemma_run(s, whites(), 0);
        assert(front == s);
        lemma_run_back(s, whites(), 0);
        assert(trim(s) == s);
    } else if trim(s) == s {
        assert(front.len() <= s.len());
        assert(trim(s).len() <= front.len());
        assert(run(s, whites()) == 0);
        assert(!whites()(s[0]));
        assert(front == s);
        assert(run_back(s, whites()) == 0);
        assert(!whites()(s[s.len() - 1]));
    }
}

/// The first line of a text that starts with a line and its line feed is that line.
pub proof fn lemma_lines_front(line: Seq<char>, rest: Seq<char>)
    requires
        !line.contains('\n'),
    ensures
        lines(line.push('\n') + rest) == seq![chomp(line)] + lines(rest),
{
    let s = line.push('\n') + rest;
    assert forall|i: int| 0 <= i < line.len() implies other_than('\n')(#[trigger] s[i]) by {
        assert(line.contains(line[i]));
    }
    lemma_run(s, other_than('\n'), line.len());
    assert(s.take(line.len() as int) == line);
    assert(s.skip(line.len() as int + 1) == rest);
}

/// A text that is split at the one `stop` behind `front` falls into `front` and `rest`.
pub proof fn lemma_split_at(front: Seq<char>, stop: char, rest: Seq<char>)
    requires
        !front.contains(stop),
    ensures
        (front.push(stop) + rest).contains(stop),
        before(front.push(stop) + rest, stop) == front,
        behind(front.push(stop) + rest, stop) == rest,
{
    let s = front.push(stop) + rest;
    assert forall|i: int| 0 <= i < front.len() implies other_than(stop)(#[trigger] s[i]) by {
        assert(front.contains(front[i]));
    }
    assert(s[front.len() as int] == stop);
    lemma_run(s, other_than(stop), front.len());
    assert(s.take(front.len() as int) == front);
    assert(s.skip(front.len() as int + 1) == rest);
}

/// The characters of a string.
pub fn chars_of(s: &str) -> (res: Vec<char>)
    ensures
        res@ == s@,
{
    let mut out: Vec<char> = Vec::new();
    for c in it: s.chars()
        invariant
            out@ == it.seq().take(it.index() as int),
            it.seq() == s@,
    {
        out.push(c);
    }
    assert(s@.take(s@.len() as int) == s@);
    out
}

/// The string that holds the characters given.
pub fn text_of(chars: &[char]) -> (res: String)
    ensures
        res@ == chars@,
{
    let mut out = String::new();
    let mut i: usize = 0;
    while i < chars.len()
        invariant
            i <= chars@.len(),
            out@ == chars@.take(i as int),
        decreases chars@.len() - i,
    {
        out.push(chars[i]);
        i = i + 1;
    }
    assert(chars@.take(chars@.len() as int) == chars@);
    out
}

/// Whether two character sequences are the same.
pub fn same_chars(a: &[char], b: &[char]) -> (res: bool)
    ensures
        res == (a@ == b@),
{
    if a.len() != b.len() {
        return false;
    }
    let mut i: usize = 0;
    while i < a.len()
        invariant
            a@.len() == b@.len(),
            i <= a@.len(),
            forall|j: int| 0 <= j < i ==> a@[j] == b@[j],
        decreases a@.len() - i,
    {
        if a[i] != b[i] {
            return false;
        }
        i = i + 1;
    }
    assert(a@ =~= b@);
    true
}

/// Whether two strings are the same.
pub fn same(a: &str, b: &str) -> (res: bool)
    ensures
        res == (a@ == b@),
{
    let left = chars_of(a);
    let right = chars_of(b);
    same_chars(left.as_slice(), right.as_slice())
}

/// `run` of white space.
fn white_run(s: &[char]) -> (n: usize)
    ensures
        n == run(s@, whites()),
        n <= s@.len(),
{
    let mut i: usize = 0;
    while i < s.len() && is_white(s[i])
        invariant
            i <= s@.len(),
            forall|j: int| 0 <= j < i ==> white(#[trigger] s@[j]),
        decreases s@.len() - i,
    {
        i = i + 1;
    }
    proof {
        lemma_run(s@, whites(), i as nat);
    }
    i
}

/// `run` of word characters.
fn ink_run(s: &[char]) -> (n: usize)
    ensures
        n == run(s@, inks()),
        n <= s@.len(),
{
    let mut i: usize = 0;
    while i < s.len() && !is_white(s[i])
        invariant
            i <= s@.len(),
            forall|j: int| 0 <= j < i ==> !white(#[trigger] s@[j]),
        decreases s@.len() - i,
    {
        i = i + 1;
    }
    proof {
        lemma_run(s@, inks(), i as nat);
    }
    i
}

/// `s` without the white space at its front.
pub fn trimmed_start(s: &[char]) -> (res: &[char])
    ensures
        res@ == trim_start(s@),
{
    let n: usize = white_run(s);
    slice_subrange(s, n, s.len())
}

/// `s` without the white space at its back.
pub fn trimmed_end(s: &[char]) -> (res: &[char])
    ensures
        res@ == trim_end(s@),
{
    let mut n: usize = s.len();
    while n > 0 && is_white(s[n - 1])
        invariant
            n <= s@.len(),
            forall|j: int| n <= j < s@.len() ==> white(#[trigger] s@[j]),
        decreases n,
    {
        n = n - 1;
    }
    proof {
        lemma_run_back(s@, whites(), (s@.len() - n) as nat);
    }
    slice_subrange(s, 0, n)
}

/// `s` without the white space at either side.
pub fn trimmed(s: &[char]) -> (res: &[char])
    ensures
        res@ == trim(s@),
{
    trimmed_end(trimmed_start(s))
}

/// Where `stop` first stands in `s`; the length of `s` where it does not.
pub fn position_of(s: &[char], stop: char) -> (n: usize)
    ensures
        n == run(s@, other_than(stop)),
        n <= s@.len(),
        n < s@.len() ==> s@[n as int] == stop,
        n < s@.len() <==> s@.contains(stop),
{
    let mut i: usize = 0;
    while i < s.len() && s[i] != stop
        invariant
            i <= s@.len(),
            forall|j: int| 0 <= j < i ==> #[trigger] s@[j] != stop,
        decreases s@.len() - i,
    {
        i = i + 1;
    }
    proof {
        lemma_run(s@, other_than(stop), i as nat);
    }
    i
}

/// What stands before the first `stop` in `s`; all of `s` where there is none.
pub fn text_before(s: &[char], stop: char) -> (res: &[char])
    ensures
        res@ == before(s@, stop),
{
    let n: usize = position_of(s, stop);
    slice_subrange(s, 0, n)
}

/// The first word of `s`; empty where `s` holds no word.
pub fn leading_word(s: &[char]) -> (res: &[char])
    ensures
        res@ == first_word(s@),
{
    let rest = trimmed_start(s);
    let n: usize = ink_run(rest);
    slice_subrange(rest, 0, n)
}

/// The last word of `s`; empty where `s` holds no word.
pub fn trailing_word(s: &[char]) -> (res: &[char])
    ensures
        res@ == last_word(s@),
{
    let rest = trimmed_end(s);
    let mut n: usize = rest.len();
    while n > 0 && !is_white(rest[n - 1])
        invariant
            n <= rest@.len(),
            forall|j: int| n <= j < rest@.len() ==> !white(#[trigger] rest@[j]),
        decreases n,
    {
        n = n - 1;
    }
    proof {
        lemma_run_back(rest@, inks(), (rest@.len() - n) as nat);
    }
    slice_subrange(rest, n, rest.len())
}

/// `s` without the copies of `lead` at its front.
pub fn stripped_lead(s: &[char], lead: char) -> (res: &[char])
    ensures
        res@ == strip_lead(s@, lead),
{
    let mut i: usize = 0;
    while i < s.len() && s[i] == lead
        invariant
            i <= s@.len(),
            forall|j: int| 0 <= j < i ==> #[trigger] s@[j] == lead,
        decreases s@.len() - i,
    {
        i = i + 1;
    }
    proof {
        lemma_run(s@, just(lead), i as nat);
    }
    slice_subrange(s, i, s.len())
}

/// Where `a` and `b` first stand side by side in `s`.
pub fn first_pair(s: &[char], a: char, b: char) -> (res: Option<usize>)
    ensures
        match res {
            Some(i) => find_pair(s@, a, b) == Some(i as int) && i + 2 <= s@.len(),
            None => find_pair(s@, a, b) is None,
        },
{
    let mut i: usize = 0;
    assert(s@.skip(0) == s@);
    while i < s.len() && s.len() - i >= 2
        invariant
            i <= s@.len(),
            find_pair(s@, a, b) == (match find_pair(s@.skip(i as int), a, b) {
                Some(k) => Some(k + i),
                None => None,
            }),
        decreases s@.len() - i,
    {
        if s[i] == a && s[i + 1] == b {
            return Some(i);
        }
        assert(s@.skip(i as int).skip(1) == s@.skip(i + 1));
        i = i + 1;
    }
    None
}

/// Where `a` and `b` last stand side by side in `s`.
pub fn last_pair(s: &[char], a: char, b: char) -> (res: Option<usize>)
    ensures
        match res {
            Some(i) => rfind_pair(s@, a, b) == Some(i as int) && i + 2 <= s@.len(),
            None => rfind_pair(s@, a, b) is None,
        },
{
    let mut n: usize = s.len();
    assert(s@.take(n as int) == s@);
    while n >= 2
        invariant
            n <= s@.len(),
            rfind_pair(s@, a, b) == rfind_pair(s@.take(n as int), a, b),
        decreases n,
    {
        if s[n - 2] == a && s[n - 1] == b {
            return Some(n - 2);
        }
        assert(s@.take(n as int).drop_last() == s@.take(n - 1));
        n = n - 1;
    }
    None
}

/// The lines of a text.
pub fn lines_of(s: &[char]) -> (res: Vec<Vec<char>>)
    ensures
        res@.map_values(|l: Vec<char>| l@) == lines(s@),
{
    let mut out: Vec<Vec<char>> = Vec::new();
    let mut pos: usize = 0;
    assert(s@.skip(0) == s@);
    while pos < s.len()
        invariant
            pos <= s@.len(),
            out@.map_values(|l: Vec<char>| l@) + lines(s@.skip(pos as int)) == lines(s@),
        decreases s@.len() - pos,
    {
        let rest = slice_subrange(s, pos, s.len());
        assert(rest@ == s@.skip(pos as int));
        let n: usize = position_of(rest, '\n');
        let ghost done = out@.map_values(|l: Vec<char>| l@);
        if n < rest.len() {
            let mut m: usize = n;
            if m > 0 && rest[m - 1] == '\r' {
                m = m - 1;
            }
            let line = slice_to_vec(slice_subrange(rest, 0, m));
            assert(line@ == chomp(rest@.take(n as int)));
            out.push(line);
            assert(rest@.skip(n + 1) == s@.skip(pos + n + 1));
            assert(out@.map_values(|l: Vec<char>| l@) == done.push(line@));
            pos = pos + n + 1;
        } else {
            let line = slice_to_vec(rest);
            out.push(line);
            assert(out@.map_values(|l: Vec<char>| l@) == done.push(line@));
            assert(s@.skip(s@.len() as int) == Seq::<char>::empty());
            pos = s.len();
        }
    }
    assert(s@.skip(pos as int) == Seq::<char>::empty());
    out
}

/// Whether `word` stands somewhere in `s`.
pub fn contains_text(s: &[char], word: &[char]) -> (res: bool)
    ensures
        res == has_text(s@, word@),
{
    if word.len() > s.len() {
        return false;
    }
    let total: usize = s.len();
    let last: usize = total - word.len();
    let mut i: usize = 0;
    while i < last
        invariant
            i <= last,
            total == s@.len(),
            last == total - word@.len(),
            forall|j: int|
                0 <= j < i ==> #[trigger] s@.subrange(j, j + word@.len()) != word@,
        decreases last - i,
    {
        if same_chars(slice_subrange(s, i, i + word.len()), word) {
            return true;
        }
        i = i + 1;
    }
    let tail = slice_subrange(s, last, total);
    assert(tail@ == s@.subrange(last as int, last + word@.len()));
    same_chars(tail, word)
}

/// `s` with its ASCII capitals made small.
pub fn lowered(s: &[char]) -> (res: Vec<char>)
    ensures
        res@ == ascii_lower(s@),
{
    let mut out: Vec<char> = Vec::new();
    let mut i: usize = 0;
    while i < s.len()
        invariant
            i <= s@.len(),
            out@ == ascii_lower(s@).take(i as int),
        decreases s@.len() - i,
    {
        let c = s[i];
        if 'A' <= c && c <= 'Z' {
            out.push((c as u8 + 32) as char);
        } else {
            out.push(c);
        }
        i = i + 1;
    }
    out
}

/// `s` with every `from` replaced by `to`.
pub fn swapped(s: &str, from: char, to: char) -> (res: String)
    ensures
        res@ == swap_char(s@, from, to),
{
    let chars = chars_of(s);
    let mut out = String::new();
    let mut i: usize = 0;
    while i < chars.len()
        invariant
            i <= chars@.len(),
            chars@ == s@,
            out@ == swap_char(s@, from, to).take(i as int),
        decreases chars@.len() - i,
    {
        let c = chars[i];
        if c == from {
            out.push(to);
        } else {
            out.push(c);
        }
        i = i + 1;
    }
    out
}

/// The strings in order, with `sep` between each two.
pub fn join(parts: &Vec<String>, sep: &str) -> (res: String)
    ensures
        res@ == joined(texts(parts@), sep@),
{
    let mut out = String::new();
    let mut i: usize = 0;
    while i < parts.len()
        invariant
            i <= parts@.len(),
            out@ == joined(texts(parts@).take(i as int), sep@),
        decreases parts@.len() - i,
    {
        if i > 0 {
            out.append(sep);
        }
        out.append(parts[i].as_str());
        assert(texts(parts@).take(i + 1).drop_last() == texts(parts@).take(i as int));
        i = i + 1;
    }
    assert(texts(parts@).take(parts@.len() as int) == texts(parts@));
    out
}

/// `n` spaces, appended.
fn append_spaces(out: &mut String, n: usize)
    ensures
        final(out)@ == old(out)@ + spaces(n as nat),
{
    let mut i: usize = 0;
    let ghost start = out@;
    while i < n
        invariant
            i <= n,
            out@ == start + spaces(i as nat),
        decreases n - i,
    {
        out.push(' ');
        assert(spaces((i + 1) as nat) == spaces(i as nat).push(' '));
        i = i + 1;
    }
}

/// `s` and the spaces that bring it to `width` characters.
pub fn padded_right(s: &str, width: usize) -> (res: String)
    ensures
        res@ == pad_right(s@, width as nat),
{
    let n: usize = chars_of(s).len();
    let mut out = s.to_owned();
    if n < width {
        append_spaces(&mut out, width - n);
    }
    out
}

/// The spaces that bring `s` to `width` characters, and `s`.
pub fn padded_left(s: &str, width: usize) -> (res: String)
    ensures
        res@ == pad_left(s@, width as nat),
{
    let n: usize = chars_of(s).len();
    let mut out = String::new();
    if n < width {
        append_spaces(&mut out, width - n);
    }
    out.append(s);
    out
}

/// Whether `a` comes before `b` in the order of their characters.
pub fn comes_before(a: &[char], b: &[char]) -> (res: bool)
    ensures
        res == precedes(a@, b@),
{
    let mut i: usize = 0;
    assert(a@.skip(0) == a@ && b@.skip(0) == b@);
    while i < a.len() && i < b.len() && a[i] == b[i]
        invariant
            i <= a@.len(),
            i <= b@.len(),
            precedes(a@, b@) == precedes(a@.skip(i as int), b@.skip(i as int)),
        decreases a@.len() - i,
    {
        assert(a@.skip(i as int).skip(1) == a@.skip(i + 1));
        assert(b@.skip(i as int).skip(1) == b@.skip(i + 1));
        i = i + 1;
    }
    if i == b.len() {
        false
    } else if i == a.len() {
        true
    } else {
        a[i] < b[i]
    }
}

/// No text comes before itself.
pub proof fn lemma_precedes_irreflexive(a: Seq<char>)
    ensures
        !precedes(a, a),
    decreases a.len(),
{
    if a.len() > 0 {
        lemma_precedes_irreflexive(a.skip(1));
    }
}

/// The order of texts is transitive.
pub proof fn lemma_precedes_transitive(a: Seq<char>, b: Seq<char>, c: Seq<char>)
    requires
        precedes(a, b),
        precedes(b, c),
    ensures
        precedes(a, c),
    decreases a.len(),
{
    if a.len() > 0 && b.len() > 0 && c.len() > 0 && a[0] == b[0] && b[0] == c[0] {
        lemma_precedes_transitive(a.skip(1), b.skip(1), c.skip(1));
    }
}

/// Of two different texts one comes before the other.
pub proof fn lemma_precedes_total(a: Seq<char>, b: Seq<char>)
    ensures
        a == b || precedes(a, b) || precedes(b, a),
    decreases a.len(),
{
    if a.len() == 0 {
        if b.len() == 0 {
            assert(a =~= b);
        }
    } else if b.len() > 0 && a[0] == b[0] {
        lemma_precedes_total(a.skip(1), b.skip(1));
        if a.skip(1) == b.skip(1) {
            assert(a =~= seq![a[0]] + a.skip(1));
            assert(b =~= seq![b[0]] + b.skip(1));
        }
    }
}

/// A text that is trimmed keeps all but the white space at its sides: what is taken off at either
/// side is white, and what is left neither starts nor ends with white space.
pub proof fn law_trim_takes_off_white_space(s: Seq<char>) -> (at: int)
    ensures
        0 <= at,
        at + trim(s).len() <= s.len(),
        trim(s) == s.subrange(at, at + trim(s).len()),
        forall|i: int| 0 <= i < at ==> white(#[trigger] s[i]),
        forall|i: int| at + trim(s).len() <= i < s.len() ==> white(#[trigger] s[i]),
        trim(s).len() > 0 ==> !white(trim(s)[0]) && !white(trim(s).last()),
{
    let n = run(s, whites());
    lemma_run_facts(s, whites());
    let rest = trim_start(s);
    lemma_run_back_facts(rest, whites());
    let m = run_back(rest, whites());
    assert forall|i: int| 0 <= i < n implies white(#[trigger] s[i]) by {
        assert(whites()(s[i]));
    }
    assert forall|i: int| n + trim(s).len() <= i < s.len() implies white(#[trigger] s[i]) by {
        assert(rest[i - n] == s[i]);
        assert(whites()(rest[i - n]));
    }
    if trim(s).len() > 0 {
        assert(trim(s)[0] == s[n as int]);
        assert(trim(s).last() == rest[rest.len() - m - 1]);
    }
    n as int
}

/// Where two characters are first found side by side they stand so, and nowhere before; where
/// they are not found they stand so nowhere.
pub proof fn law_first_pair_is_found(s: Seq<char>, a: char, b: char)
    ensures
        find_pair(s, a, b) matches Some(k) ==> 0 <= k < s.len() - 1 && s[k] == a && s[k + 1] == b,
        forall|j: int|
            0 <= j < s.len() - 1 && #[trigger] s[j] == a && s[j + 1] == b ==> (find_pair(s, a, b)
                matches Some(k) && k <= j),
    decreases s.len(),
{
    if s.len() >= 2 && !(s[0] == a && s[1] == b) {
        let rest = s.skip(1);
        law_first_pair_is_found(rest, a, b);
        if let Some(k) = find_pair(rest, a, b) {
            assert(rest[k] == s[k + 1] && rest[k + 1] == s[k + 2]);
        }
        assert forall|j: int| 0 <= j < s.len() - 1 && #[trigger] s[j] == a && s[j + 1] == b implies (
        find_pair(s, a, b) matches Some(k) && k <= j) by {
            assert(j > 0);
            assert(rest[j - 1] == a && rest[j] == b);
            assert(rest[(j - 1) + 1] == b);
        }
    }
}

/// Where two characters are last found side by side they stand so, and nowhere behind; where
/// they are not found they stand so nowhere.
pub proof fn law_last_pair_is_found(s: Seq<char>, a: char, b: char)
    ensures
        rfind_pair(s, a, b) matches Some(k) ==> 0 <= k < s.len() - 1 && s[k] == a && s[k + 1] == b,
        forall|j: int|
            0 <= j < s.len() - 1 && #[trigger] s[j] == a && s[j + 1] == b ==> (rfind_pair(s, a, b)
                matches Some(k) && j <= k),
    decreases s.len(),
{
    if s.len() >= 2 && !(s[s.len() - 2] == a && s[s.len() - 1] == b) {
        let front = s.drop_last();
        law_last_pair_is_found(front, a, b);
        assert forall|j: int| 0 <= j < s.len() - 1 && #[trigger] s[j] == a && s[j + 1] == b implies (
        rfind_pair(s, a, b) matches Some(k) && j <= k) by {
            assert(j < s.len() - 2);
            assert(front[j] == a && front[j + 1] == b);
        }
    }
}

/// The first word has no white space in it, is preceded by nothing else, and ends where white
/// space or the text's end follows.
pub proof fn law_first_word_stands_first(s: Seq<char>) -> (at: int)
    ensures
        0 <= at,
        at + first_word(s).len() <= s.len(),
        first_word(s) == s.subrange(at, at + first_word(s).len()),
        forall|i: int| 0 <= i < at ==> white(#[trigger] s[i]),
        forall|i: int| 0 <= i < first_word(s).len() ==> !white(#[trigger] first_word(s)[i]),
        at + first_word(s).len() < s.len() ==> white(s[at + first_word(s).len()]),
{
    let n = run(s, whites());
    lemma_run_facts(s, whites());
    let rest = trim_start(s);
    lemma_run_facts(rest, inks());
    assert forall|i: int| 0 <= i < n implies white(#[trigger] s[i]) by {
        assert(whites()(s[i]));
    }
    assert forall|i: int| 0 <= i < first_word(s).len() implies !white(
        #[trigger] first_word(s)[i],
    ) by {
        assert(inks()(rest[i]));
    }
    n as int
}

/// The last word has no white space in it, is followed by nothing else, and starts behind white
/// space or at the text's start.
pub proof fn law_last_word_stands_last(s: Seq<char>) -> (at: int)
    ensures
        0 <= at,
        at + last_word(s).len() <= s.len(),
        last_word(s) == s.subrange(at, at + last_word(s).len()),
        forall|i: int| at + last_word(s).len() <= i < s.len() ==> white(#[trigger] s[i]),
        forall|i: int| 0 <= i < last_word(s).len() ==> !white(#[trigger] last_word(s)[i]),
        at > 0 && last_word(s).len() > 0 ==> white(s[at - 1]),
{
    let m = run_back(s, whites());
    lemma_run_back_facts(s, whites());
    let rest = trim_end(s);
    lemma_run_back_facts(rest, inks());
    let k = run_back(rest, inks());
    assert forall|i: int| s.len() - m <= i < s.len() implies white(#[trigger] s[i]) by {
        assert(whites()(s[i]));
    }
    assert forall|i: int| 0 <= i < last_word(s).len() implies !white(
        #[trigger] last_word(s)[i],
    ) by {
        assert(inks()(rest[rest.len() - k + i]));
    }
    rest.len() - k
}

/// Making a text small changes its ASCII capitals alone, each to the letter 32 places on.
pub proof fn law_only_capitals_are_made_small(c: char)
    ensures
        'A' <= c <= 'Z' ==> small(c) as int == c as int + 32,
        !('A' <= c <= 'Z') ==> small(c) == c,
{
}

/// Padding adds spaces alone, on one side, up to the width and never beyond.
pub proof fn law_padding_is_spaces(s: Seq<char>, width: nat)
    ensures
        s.len() >= width ==> pad_right(s, width) == s && pad_left(s, width) == s,
        s.len() < width ==> {
            &&& pad_right(s, width).len() == width
            &&& pad_right(s, width).take(s.len() as int) == s
            &&& forall|i: int| s.len() <= i < width ==> #[trigger] pad_right(s, width)[i] == ' '
            &&& pad_left(s, width).len() == width
            &&& pad_left(s, width).skip(width - s.len()) == s
            &&& forall|i: int| 0 <= i < width - s.len() ==> #[trigger] pad_left(s, width)[i] == ' '
        },
{
}

/// One text comes before another exactly where it is a part at the other's front, or where it has
/// the lower character at the first place at which the two differ.
pub proof fn law_order_is_by_the_first_difference(a: Seq<char>, b: Seq<char>, k: int)
    requires
        0 <= k <= a.len(),
        k <= b.len(),
        forall|i: int| 0 <= i < k ==> #[trigger] a[i] == b[i],
    ensures
        k < a.len() && k < b.len() && a[k] != b[k] ==> (precedes(a, b) <==> a[k] < b[k]),
        k == a.len() && k < b.len() ==> precedes(a, b),
        k == b.len() ==> !precedes(a, b),
    decreases k,
{
    if k > 0 {
        assert(a[0] == b[0]);
        assert forall|i: int| 0 <= i < k - 1 implies #[trigger] a.skip(1)[i] == b.skip(1)[i] by {
            assert(a[i + 1] == b[i + 1]);
        }
        law_order_is_by_the_first_difference(a.skip(1), b.skip(1), k - 1);
    }
}

/// What stands at the front of a text is a copy of the character that is stripped, and what is
/// left does not start with it.
pub proof fn law_strip_takes_off_the_lead(s: Seq<char>, lead: char) -> (at: int)
    ensures
        0 <= at <= s.len(),
        strip_lead(s, lead) == s.skip(at),
        forall|i: int| 0 <= i < at ==> #[trigger] s[i] == lead,
        at < s.len() ==> s[at] != lead,
{
    let n = run(s, just(lead));
    lemma_run_facts(s, just(lead));
    assert forall|i: int| 0 <= i < n implies #[trigger] s[i] == lead by {
        assert(just(lead)(s[i]));
    }
    n as int
}

} // verus!
