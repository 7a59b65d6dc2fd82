use vstd::prelude::*;
use vstd::string::StrSliceExecFns;
use crate::strutil::str_eq;

verus! {

/// Index of the first `/` in `n`, or `n.len()` when it has none.
pub open spec fn first_slash(n: Seq<char>) -> int
    decreases n.len(),
{
    if n.len() == 0 {
        0
    } else if n[0] == '/' {
        0
    } else {
        1 + first_slash(n.drop_first())
    }
}

proof fn lemma_first_slash_at(n: Seq<char>, i: int)
    requires
        0 <= i < n.len(),
        n[i] == '/',
        forall|j: int| 0 <= j < i ==> n[j] != '/',
    ensures
        first_slash(n) == i,
    decreases n.len(),
{
    if n[0] != '/' {
        assert forall|j: int| 0 <= j < i - 1 implies n.drop_first()[j] != '/' by {
            assert(n.drop_first()[j] == n[j + 1]);
        }
        assert(n.drop_first()[i - 1] == n[i]);
        lemma_first_slash_at(n.drop_first(), i - 1);
    }
}

proof fn lemma_first_slash_absent(n: Seq<char>)
    requires
        forall|j: int| 0 <= j < n.len() ==> n[j] != '/',
    ensures
        first_slash(n) == n.len(),
    decreases n.len(),
{
    if n.len() > 0 {
        assert forall|j: int| 0 <= j < n.drop_first().len() implies n.drop_first()[j] != '/' by {
            assert(n.drop_first()[j] == n[j + 1]);
        }
        lemma_first_slash_absent(n.drop_first());
    }
}

proof fn lemma_first_slash_bounds(n: Seq<char>)
    ensures
        0 <= first_slash(n) <= n.len(),
    decreases n.len(),
{
    if n.len() > 0 && n[0] != '/' {
        lemma_first_slash_bounds(n.drop_first());
    }
}

fn find_first_slash(n: &str) -> (i: usize)
    ensures
        i as int == first_slash(n@),
        i <= n@.len(),
{
    let len = n.unicode_len();
    let mut i: usize = 0;
    while i < len
        invariant
            i <= len,
            len == n@.len(),
            forall|j: int| 0 <= j < i ==> n@[j] != '/',
        decreases len - i,
    {
        if n.get_char(i) == '/' {
            proof {
                lemma_first_slash_at(n@, i as int);
            }
            return i;
        }
        i = i + 1;
    }
    proof {
        lemma_first_slash_absent(n@);
    }
    i
}

/// How one path component moves the depth below the root: `..` steps up,
/// `.` and an empty component stay, anything else steps down.
pub open spec fn seg_delta(c: Seq<char>) -> int {
    if c == ".."@ {
        -1
    } else if c == "."@ || c.len() == 0 {
        0
    } else {
        1
    }
}

/// Lexically resolving the remaining relative name `n` from `depth` levels
/// below the root at some point climbs above the root.
pub open spec fn escapes_from(n: Seq<char>, depth: int) -> bool
    decreases n.len(),
    via escapes_from_decreases
{
    let i = first_slash(n);
    let d = depth + seg_delta(n.subrange(0, i));
    if d < 0 {
        true
    } else if i == n.len() {
        false
    } else {
        escapes_from(n.subrange(i + 1, n.len() as int), d)
    }
}

#[via_fn]
proof fn escapes_from_decreases(n: Seq<char>, depth: int) {
    lemma_first_slash_bounds(n);
}

/// A candidate relative name escapes the sandbox root when it is absolute or
/// when its `..` components climb above the root.
pub open spec fn name_escapes(n: Seq<char>) -> bool {
    if n.len() > 0 && n[0] == '/' {
        true
    } else {
        escapes_from(n, 0)
    }
}

fn escapes_from_exec(n: &str, depth: usize) -> (r: bool)
    requires
        depth + n@.len() <= usize::MAX,
    ensures
        r == escapes_from(n@, depth as int),
    decreases n@.len(),
{
    let len = n.unicode_len();
    let i = find_first_slash(n);
    let seg = n.substring_char(0, i);
    let up = str_eq(seg, "..");
    let stay = str_eq(seg, ".") || i == 0;
    if up {
        if depth == 0 {
            return true;
        }
        if i == len {
            return false;
        }
        let rest = n.substring_char(i + 1, len);
        return escapes_from_exec(rest, depth - 1);
    }
    let d = if stay {
        depth
    } else {
        depth + 1
    };
    if i == len {
        return false;
    }
    let rest = n.substring_char(i + 1, len);
    escapes_from_exec(rest, d)
}

/// Decide whether resolving `n` against a sandbox root escapes the root.
pub fn check_name_escapes(n: &str) -> (r: bool)
    ensures
        r == name_escapes(n@),
{
    let len = n.unicode_len();
    if len > 0 && n.get_char(0) == '/' {
        return true;
    }
    escapes_from_exec(n, 0)
}

} // verus!
