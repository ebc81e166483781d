//! Paths as text. Components are separated by `/`.

use crate::text::chars_of;
use vstd::prelude::*;
use vstd::string::StrSliceExecFns;

verus! {

/// `path` up to the end of its last component: without trailing separators
/// and without trailing `.` components.
pub open spec fn trimmed(path: Seq<char>) -> Seq<char>
    decreases path.len(),
{
    if path.len() == 0 {
        path
    } else if path.last() == '/' {
        trimmed(path.drop_last())
    } else if path.len() >= 2 && path.last() == '.' && path[path.len() - 2] == '/' {
        trimmed(path.drop_last())
    } else {
        path
    }
}

/// Where the component that ends `path` starts.
pub open spec fn last_start(path: Seq<char>) -> int
    decreases path.len(),
{
    if path.len() == 0 || path.last() == '/' {
        path.len() as int
    } else {
        last_start(path.drop_last())
    }
}

/// The last component of `path`, unless there is none or it is `.` or `..`.
pub open spec fn file_name_of(path: Seq<char>) -> Option<Seq<char>> {
    let t = trimmed(path);
    let piece = t.skip(last_start(t));
    if piece.len() == 0 || piece == seq!['.'] || piece == seq!['.', '.'] {
        None
    } else {
        Some(piece)
    }
}

/// The last component of `path`: the name under which its parent lists it.
pub fn file_name(path: &str) -> (name: Option<&str>)
    ensures
        match name {
            Some(n) => file_name_of(path@) == Some(n@),
            None => file_name_of(path@) is None,
        },
{
    let chars = chars_of(path);
    let mut end: usize = chars.len();
    proof {
        assert(chars@.take(end as int) =~= chars@);
    }
    while end > 0 && (chars[end - 1] == '/' || (end >= 2 && chars[end - 1] == '.' && chars[end
        - 2] == '/'))
        invariant
            end <= chars.len(),
            trimmed(chars@) == trimmed(chars@.take(end as int)),
        decreases end,
    {
        proof {
            assert(chars@.take(end as int).drop_last() =~= chars@.take(end as int - 1));
        }
        end -= 1;
    }
    let ghost t = chars@.take(end as int);
    let mut start: usize = end;
    proof {
        assert(t.take(start as int) =~= t);
    }
    while start > 0 && chars[start - 1] != '/'
        invariant
            start <= end <= chars.len(),
            t == chars@.take(end as int),
            last_start(t) == last_start(t.take(start as int)),
        decreases start,
    {
        proof {
            assert(t.take(start as int).drop_last() =~= t.take(start as int - 1));
        }
        start -= 1;
    }
    proof {
        assert(t.skip(start as int) =~= chars@.subrange(start as int, end as int));
    }
    let ghost piece = chars@.subrange(start as int, end as int);
    let len = end - start;
    if len == 0 {
        None
    } else if len == 1 && chars[start] == '.' {
        assert(piece =~= seq!['.']);
        None
    } else if len == 2 && chars[start] == '.' && chars[start + 1] == '.' {
        assert(piece =~= seq!['.', '.']);
        None
    } else {
        proof {
            assert(piece[0] == chars@[start as int]);
        }
        Some(path.substring_char(start, end))
    }
}

/// The place of a character in the order of paths: the separator comes
/// before every other character, so that what a directory holds follows
/// the directory at once.
pub open spec fn rank(c: char) -> int {
    if c == '/' {
        0
    } else {
        c as int + 1
    }
}

/// Whether `a` comes strictly before `b`: at the first place where they
/// differ `a` has the character of lower rank, or `a` ends there.
pub open spec fn precedes(a: Seq<char>, b: Seq<char>) -> bool
    decreases a.len(),
{
    if b.len() == 0 {
        false
    } else if a.len() == 0 {
        true
    } else if rank(a[0]) != rank(b[0]) {
        rank(a[0]) < rank(b[0])
    } else {
        precedes(a.drop_first(), b.drop_first())
    }
}

/// Different characters have different ranks.
pub proof fn lemma_rank_injective(c: char, d: char)
    requires
        rank(c) == rank(d),
    ensures
        c == d,
{
}

/// No path comes before itself.
pub proof fn lemma_precedes_irreflexive(a: Seq<char>)
    ensures
        !precedes(a, a),
    decreases a.len(),
{
    if a.len() > 0 {
        lemma_precedes_irreflexive(a.drop_first());
    }
}

/// The order of paths is transitive.
pub proof fn lemma_precedes_transitive(a: Seq<char>, b: Seq<char>, c: Seq<char>)
    requires
        precedes(a, b),
        precedes(b, c),
    ensures
        precedes(a, c),
    decreases a.len(),
{
    if a.len() > 0 && rank(a[0]) == rank(b[0]) && rank(b[0]) == rank(c[0]) {
        lemma_precedes_transitive(a.drop_first(), b.drop_first(), c.drop_first());
    }
}

/// Of two different paths one comes before the other.
pub proof fn lemma_precedes_total(a: Seq<char>, b: Seq<char>)
    ensures
        precedes(a, b) || a == b || precedes(b, a),
    decreases a.len(),
{
    if a.len() > 0 && b.len() > 0 {
        if rank(a[0]) == rank(b[0]) {
            lemma_rank_injective(a[0], b[0]);
            lemma_precedes_total(a.drop_first(), b.drop_first());
            if a.drop_first() == b.drop_first() {
                assert(a =~= seq![a[0]] + a.drop_first());
            }
        }
    }
}

fn rank_of(c: char) -> (r: u32)
    ensures
        r == rank(c),
{
    if c == '/' {
        0
    } else {
        c as u32 + 1
    }
}

/// Whether `a` comes strictly before `b` in the order of paths.
pub fn path_precedes(a: &str, b: &str) -> (r: bool)
    ensures
        r == precedes(a@, b@),
{
    let x = chars_of(a);
    let y = chars_of(b);
    let mut i: usize = 0;
    proof {
        assert(x@.skip(0) =~= x@);
        assert(y@.skip(0) =~= y@);
    }
    while i < x.len() && i < y.len() && x[i] == y[i]
        invariant
            i <= x.len(),
            i <= y.len(),
            precedes(x@, y@) == precedes(x@.skip(i as int), y@.skip(i as int)),
        decreases x.len() - i,
    {
        proof {
            assert(x@.skip(i as int).drop_first() =~= x@.skip(i as int + 1));
            assert(y@.skip(i as int).drop_first() =~= y@.skip(i as int + 1));
        }
        i += 1;
    }
    if i >= y.len() {
        false
    } else if i >= x.len() {
        true
    } else {
        proof {
            if rank(x@[i as int]) == rank(y@[i as int]) {
                lemma_rank_injective(x@[i as int], y@[i as int]);
            }
        }
        rank_of(x[i]) < rank_of(y[i])
    }
}

} // verus!
