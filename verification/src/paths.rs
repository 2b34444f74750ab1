//! File paths as text, with a slash between their components.

use vstd::prelude::*;
use vstd::slice::slice_subrange;

use crate::text;
use crate::text::{chars_of, text_of};

verus! {

/// A path without the slashes and the dots between slashes at its end, which
/// name nothing. A path's first character stays.
pub open spec fn settle(p: Seq<char>) -> Seq<char>
    decreases p.len(),
{
    if p.len() > 1 && p.last() == '/' {
        settle(p.drop_last())
    } else if p.len() > 1 && p.last() == '.' && p[p.len() - 2] == '/' {
        settle(p.drop_last())
    } else {
        p
    }
}

/// Where the last component of a path starts.
pub open spec fn last_start(p: Seq<char>) -> int {
    p.len() - text::run_back(p, text::other_than('/'))
}

/// The last component of a path, where it is a name. The root, the dot that a
/// path may start with, and the two dots that lead upwards are no names.
pub open spec fn file_name(p: Seq<char>) -> Option<Seq<char>> {
    let s = settle(p);
    let name = s.skip(last_start(s));
    if name.len() == 0 || name == seq!['.'] || name == seq!['.', '.'] {
        None
    } else {
        Some(name)
    }
}

/// What stands before the last component of a path.
pub open spec fn parent(p: Seq<char>) -> Seq<char> {
    let s = settle(p);
    settle(s.take(last_start(s)))
}

/// Whether a path has a parent: it is neither empty nor the root.
pub open spec fn has_parent(p: Seq<char>) -> bool {
    settle(p).len() > 0 && settle(p) != seq!['/']
}

/// The path of `name` below `base`.
pub open spec fn join(base: Seq<char>, name: Seq<char>) -> Seq<char> {
    if name.len() > 0 && name[0] == '/' {
        name
    } else if base.len() > 0 && base.last() != '/' {
        base.push('/') + name
    } else {
        base + name
    }
}

/// The path with `name` in place of its file name, or below it where it has none.
pub open spec fn with_file_name(p: Seq<char>, name: Seq<char>) -> Seq<char> {
    if file_name(p) is Some {
        join(parent(p), name)
    } else {
        join(p, name)
    }
}

/// `settle`, as a length.
fn settled_len(p: &[char]) -> (n: usize)
    ensures
        n <= p@.len(),
        p@.take(n as int) == settle(p@),
{
    let mut n: usize = p.len();
    assert(p@.take(n as int) == p@);
    while n > 1 && (p[n - 1] == '/' || (p[n - 1] == '.' && p[n - 2] == '/'))
        invariant
            n <= p@.len(),
            settle(p@.take(n as int)) == settle(p@),
        decreases n,
    {
        assert(p@.take(n as int).drop_last() == p@.take(n - 1));
        n = n - 1;
    }
    n
}

/// Where the last component of a path starts.
fn name_start(p: &[char]) -> (n: usize)
    ensures
        n <= p@.len(),
        n == last_start(p@),
{
    let mut n: usize = p.len();
    while n > 0 && p[n - 1] != '/'
        invariant
            n <= p@.len(),
            forall|j: int| n <= j < p@.len() ==> #[trigger] p@[j] != '/',
        decreases n,
    {
        n = n - 1;
    }
    proof {
        text::lemma_run_back(p@, text::other_than('/'), (p@.len() - n) as nat);
    }
    n
}

/// The last component of a path, where it is a name.
pub fn file_name_of(p: &str) -> (res: Option<String>)
    ensures
        text::text_in(res) == file_name(p@),
{
    let chars = chars_of(p);
    let end: usize = settled_len(chars.as_slice());
    let s = slice_subrange(chars.as_slice(), 0, end);
    let start: usize = name_start(s);
    let name = slice_subrange(s, start, s.len());
    assert(s@ == settle(p@));
    assert(name@ == s@.skip(last_start(s@)));
    if name.len() == 0 {
        return None;
    }
    if name.len() == 1 && name[0] == '.' {
        assert(name@ == seq!['.']);
        return None;
    }
    if name.len() == 2 && name[0] == '.' && name[1] == '.' {
        assert(name@ == seq!['.', '.']);
        return None;
    }
    Some(text_of(name))
}

/// What stands before the last component of a path.
pub fn parent_of(p: &str) -> (res: String)
    ensures
        res@ == parent(p@),
{
    let chars = chars_of(p);
    let end: usize = settled_len(chars.as_slice());
    let s = slice_subrange(chars.as_slice(), 0, end);
    let start: usize = name_start(s);
    let front = slice_subrange(s, 0, start);
    let n: usize = settled_len(front);
    assert(s@ == settle(p@));
    assert(front@ == s@.take(last_start(s@)));
    text_of(slice_subrange(front, 0, n))
}

/// Whether a path has a parent: it is neither empty nor the root.
pub fn parent_exists(p: &str) -> (res: bool)
    ensures
        res == has_parent(p@),
{
    let chars = chars_of(p);
    let end: usize = settled_len(chars.as_slice());
    let s = slice_subrange(chars.as_slice(), 0, end);
    assert(s@ == settle(p@));
    if s.len() == 0 {
        return false;
    }
    if s.len() == 1 && s[0] == '/' {
        assert(s@ == seq!['/']);
        return false;
    }
    true
}

/// The path of `name` below `base`.
pub fn join_path(base: &str, name: &str) -> (res: String)
    ensures
        res@ == join(base@, name@),
{
    let below = chars_of(name);
    if below.len() > 0 && below[0] == '/' {
        return name.to_owned();
    }
    let chars = chars_of(base);
    let mut out = base.to_owned();
    if chars.len() > 0 && chars[chars.len() - 1] != '/' {
        out.push('/');
    }
    let mut i: usize = 0;
    let ghost start = out@;
    while i < below.len()
        invariant
            i <= below@.len(),
            out@ == start + below@.take(i as int),
        decreases below@.len() - i,
    {
        out.push(below[i]);
        i = i + 1;
    }
    assert(below@.take(below@.len() as int) == below@);
    out
}

/// The path with `name` in place of its file name, or below it where it has none.
pub fn path_with_file_name(p: &str, name: &str) -> (res: String)
    ensures
        res@ == with_file_name(p@, name@),
{
    match file_name_of(p) {
        Some(_) => {
            let above = parent_of(p);
            join_path(above.as_str(), name)
        },
        None => join_path(p, name),
    }
}

/// A path with another file name has that file name, whatever its own was.
pub proof fn law_file_name_is_replaced(p: Seq<char>, name: Seq<char>)
    requires
        name.len() > 0,
        !name.contains('/'),
        name != seq!['.'],
        name != seq!['.', '.'],
    ensures
        file_name(with_file_name(p, name)) == Some(name),
{
    let base = if file_name(p) is Some {
        parent(p)
    } else {
        p
    };
    let whole = join(base, name);
    let front = if base.len() > 0 && base.last() != '/' {
        base.push('/')
    } else {
        base
    };
    assert(name.contains(name[0]) && name.contains(name[name.len() - 1]));
    assert(whole == front + name);
    assert(whole.last() == name.last());
    if name.len() == 1 {
        assert(name == seq![name[0]]);
    } else {
        assert(name.contains(name[name.len() - 2]));
        assert(whole[whole.len() - 2] == name[name.len() - 2]);
    }
    assert(settle(whole) == whole);
    assert forall|i: int| front.len() <= i < whole.len() implies text::other_than('/')(
        #[trigger] whole[i],
    ) by {
        assert(name.contains(name[i - front.len()]));
    }
    text::lemma_run_back(whole, text::other_than('/'), name.len());
    assert(whole.skip(last_start(whole)) == name);
}

/// A path below another starts with that one and ends in the name, with one slash between them
/// where the first has none at its end; a name that starts at the root stands for itself.
pub proof fn law_join_keeps_both(base: Seq<char>, name: Seq<char>)
    ensures
        name.len() > 0 && name[0] == '/' ==> join(base, name) == name,
        name.len() == 0 || name[0] != '/' ==> {
            &&& join(base, name).take(base.len() as int) == base
            &&& join(base, name).skip(join(base, name).len() - name.len()) == name
            &&& join(base, name).len() == base.len() + name.len() + (if base.len() > 0
                && base.last() != '/' {
                1int
            } else {
                0
            })
            &&& base.len() > 0 && base.last() != '/' ==> join(base, name)[base.len() as int] == '/'
        },
{
}

} // verus!
