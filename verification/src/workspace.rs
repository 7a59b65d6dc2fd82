use vstd::prelude::*;
use vstd::string::StrSliceExecFns;
use vstd::string::StringExecFns;
use crate::sandbox::check_name_escapes;
use crate::sandbox::name_escapes;
use crate::strutil::lemma_lex_leq_total;
use crate::strutil::lemma_lex_leq_trans;
use crate::strutil::lex_leq;
use crate::strutil::str_eq;
use crate::strutil::str_lex_leq;

verus! {

/// Failure values of the user-facing, sandboxed file operations.
#[derive(Clone, Copy, PartialEq, Eq, Debug)]
pub enum FileError {
    AccessDenied,
    AlreadyExists,
    NotFound,
}

impl FileError {
    /// The error text surfaced to the caller.
    pub fn message(&self) -> (r: &'static str)
        ensures
            *self == FileError::AccessDenied ==> r@ == "Access denied"@,
            *self == FileError::AlreadyExists ==> r@ == "File already exists"@,
            *self == FileError::NotFound ==> r@ == "File not found"@,
    {
        match self {
            FileError::AccessDenied => "Access denied",
            FileError::AlreadyExists => "File already exists",
            FileError::NotFound => "File not found",
        }
    }
}

/// The mapping a list of named files denotes; a later entry for a name
/// shadows an earlier one, though the workspace keeps names unique.
pub open spec fn files_view(s: Seq<(String, String)>) -> Map<Seq<char>, Seq<char>>
    decreases s.len(),
{
    if s.len() == 0 {
        Map::empty()
    } else {
        files_view(s.drop_last()).insert(s.last().0@, s.last().1@)
    }
}

pub open spec fn unique_names(s: Seq<(String, String)>) -> bool {
    forall|i: int, j: int| 0 <= i < j < s.len() ==> s[i].0@ != s[j].0@
}

proof fn lemma_view_contains(s: Seq<(String, String)>, k: Seq<char>)
    ensures
        files_view(s).contains_key(k) <==> exists|i: int| 0 <= i < s.len() && s[i].0@ == k,
    decreases s.len(),
{
    if s.len() > 0 {
        lemma_view_contains(s.drop_last(), k);
        if s.last().0@ == k {
            assert(s[s.len() - 1].0@ == k);
        } else {
            if files_view(s).contains_key(k) {
                let i = choose|i: int| 0 <= i < s.drop_last().len() && s.drop_last()[i].0@ == k;
                assert(s[i].0@ == k);
            }
            if exists|i: int| 0 <= i < s.len() && s[i].0@ == k {
                let i = choose|i: int| 0 <= i < s.len() && s[i].0@ == k;
                assert(i < s.len() - 1);
                assert(s.drop_last()[i].0@ == k);
            }
        }
    }
}

proof fn lemma_view_index(s: Seq<(String, String)>, i: int)
    requires
        unique_names(s),
        0 <= i < s.len(),
    ensures
        files_view(s).contains_key(s[i].0@),
        files_view(s)[s[i].0@] == s[i].1@,
    decreases s.len(),
{
    if i == s.len() - 1 {
    } else {
        assert(s.drop_last()[i] == s[i]);
        lemma_view_index(s.drop_last(), i);
        assert(s.last().0@ != s[i].0@);
    }
}

proof fn lemma_view_update(s: Seq<(String, String)>, i: int, e: (String, String))
    requires
        unique_names(s),
        0 <= i < s.len(),
        e.0@ == s[i].0@,
    ensures
        files_view(s.update(i, e)) =~= files_view(s).insert(e.0@, e.1@),
        unique_names(s.update(i, e)),
    decreases s.len(),
{
    let s2 = s.update(i, e);
    assert forall|a: int, b: int| 0 <= a < b < s2.len() implies s2[a].0@ != s2[b].0@ by {
        assert(s[a].0@ != s[b].0@);
    }
    if i == s.len() - 1 {
        assert(s2.drop_last() =~= s.drop_last());
        assert(s2.last() == e);
    } else {
        assert(s2.drop_last() =~= s.drop_last().update(i, e));
        assert(s.drop_last()[i] == s[i]);
        lemma_view_update(s.drop_last(), i, e);
        assert(s2.last() == s.last());
        assert(s.last().0@ != e.0@);
    }
}

/// In-memory model of the sandboxed workspace: the user-visible files and
/// their contents, keyed by relative name. The embedder mirrors every
/// accepted mutation onto the real directory.
pub struct Workspace {
    files: Vec<(String, String)>,
}

impl View for Workspace {
    type V = Map<Seq<char>, Seq<char>>;

    closed spec fn view(&self) -> Map<Seq<char>, Seq<char>> {
        files_view(self.files@)
    }
}

impl Workspace {
    pub closed spec fn wf(&self) -> bool {
        unique_names(self.files@)
    }

    /// An empty workspace.
    pub fn new() -> (r: Workspace)
        ensures
            r.wf(),
            r@ == Map::<Seq<char>, Seq<char>>::empty(),
    {
        Workspace { files: Vec::new() }
    }

    fn find_index(&self, name: &str) -> (r: Option<usize>)
        requires
            self.wf(),
        ensures
            match r {
                Some(i) => i < self.files@.len() && self.files@[i as int].0@ == name@
                    && self@.contains_key(name@) && self@[name@] == self.files@[i as int].1@,
                None => !self@.contains_key(name@),
            },
    {
        let n = self.files.len();
        let mut idx: usize = 0;
        while idx < n
            invariant
                idx <= n,
                n == self.files@.len(),
                self.wf(),
                forall|j: int| 0 <= j < idx ==> self.files@[j].0@ != name@,
            decreases n - idx,
        {
            if str_eq(self.files[idx].0.as_str(), name) {
                proof {
                    lemma_view_index(self.files@, idx as int);
                }
                return Some(idx);
            }
            idx = idx + 1;
        }
        proof {
            lemma_view_contains(self.files@, name@);
        }
        None
    }

    /// Whether a user-visible file of this name exists.
    pub fn contains(&self, name: &str) -> (r: bool)
        requires
            self.wf(),
        ensures
            r == self@.contains_key(name@),
    {
        self.find_index(name).is_some()
    }

    /// Create an empty file. A name that resolves outside the workspace root
    /// is denied and nothing changes; an existing file is never overwritten.
    pub fn create_file(&mut self, name: &str) -> (r: Result<(), FileError>)
        requires
            old(self).wf(),
        ensures
            final(self).wf(),
            name_escapes(name@) ==> r == Err::<(), FileError>(FileError::AccessDenied)
                && final(self)@ == old(self)@,
            !name_escapes(name@) && old(self)@.contains_key(name@) ==> r == Err::<(), FileError>(
                FileError::AlreadyExists,
            ) && final(self)@ == old(self)@,
            !name_escapes(name@) && !old(self)@.contains_key(name@) ==> r == Ok::<(), FileError>(())
                && final(self)@ == old(self)@.insert(name@, Seq::<char>::empty()),
    {
        if check_name_escapes(name) {
            return Err(FileError::AccessDenied);
        }
        if self.find_index(name).is_some() {
            return Err(FileError::AlreadyExists);
        }
        proof {
            lemma_view_contains(self.files@, name@);
        }
        let entry = (String::from_str(name), String::new());
        self.files.push(entry);
        proof {
            assert(self.files@.drop_last() =~= old(self).files@);
        }
        Ok(())
    }

    /// Write (or overwrite) a file with the given contents. A name that
    /// resolves outside the workspace root is denied and nothing changes.
    pub fn write_file(&mut self, name: &str, content: &str) -> (r: Result<(), FileError>)
        requires
            old(self).wf(),
        ensures
            final(self).wf(),
            name_escapes(name@) ==> r == Err::<(), FileError>(FileError::AccessDenied)
                && final(self)@ == old(self)@,
            !name_escapes(name@) ==> r == Ok::<(), FileError>(()) && final(self)@ == old(self)@
                .insert(name@, content@),
    {
        if check_name_escapes(name) {
            return Err(FileError::AccessDenied);
        }
        let entry = (String::from_str(name), String::from_str(content));
        match self.find_index(name) {
            Some(i) => {
                proof {
                    lemma_view_update(self.files@, i as int, entry);
                }
                self.files[i] = entry;
            },
            None => {
                proof {
                    lemma_view_contains(self.files@, name@);
                }
                self.files.push(entry);
                proof {
                    assert(self.files@.drop_last() =~= old(self).files@);
                }
            },
        }
        Ok(())
    }

    /// Read a file's contents. A name that resolves outside the workspace
    /// root is denied; a missing file is reported as such.
    pub fn read_file(&self, name: &str) -> (r: Result<String, FileError>)
        requires
            self.wf(),
        ensures
            name_escapes(name@) ==> r == Err::<String, FileError>(FileError::AccessDenied),
            !name_escapes(name@) && self@.contains_key(name@) ==> (r matches Ok(c) && c@
                == self@[name@]),
            !name_escapes(name@) && !self@.contains_key(name@) ==> r == Err::<String, FileError>(
                FileError::NotFound,
            ),
    {
        if check_name_escapes(name) {
            return Err(FileError::AccessDenied);
        }
        match self.find_index(name) {
            Some(i) => Ok(self.files[i].1.clone()),
            None => Err(FileError::NotFound),
        }
    }

    /// Names of the user-visible files, sorted, without duplicates; the
    /// session log and hidden (dot-prefixed) entries are excluded.
    pub fn list_files(&self) -> (r: Vec<String>)
        requires
            self.wf(),
        ensures
            forall|i: int|
                0 <= i < r@.len() ==> self@.contains_key(#[trigger] r@[i]@) && keep_in_listing(
                    r@[i]@,
                ),
            forall|k: Seq<char>|
                self@.contains_key(k) && keep_in_listing(k) ==> has_name(r@, k),
            sorted_distinct(r@),
    {
        let n = self.files.len();
        let mut out: Vec<String> = Vec::new();
        let mut idx: usize = 0;
        while idx < n
            invariant
                idx <= n,
                n == self.files@.len(),
                self.wf(),
                sorted_distinct(out@),
                forall|t: int|
                    0 <= t < out@.len() ==> exists|u: int|
                        0 <= u < idx && self.files@[u].0@ == #[trigger] out@[t]@ && keep_in_listing(
                            out@[t]@,
                        ),
                forall|u: int|
                    0 <= u < idx && keep_in_listing(#[trigger] self.files@[u].0@) ==> has_name(
                        out@,
                        self.files@[u].0@,
                    ),
            decreases n - idx,
        {
            let nm = &self.files[idx].0;
            let hidden = nm.as_str().unicode_len() > 0 && nm.as_str().get_char(0) == '.';
            if !hidden && !str_eq(nm.as_str(), "session_log.txt") {
                proof {
                    assert forall|t: int| 0 <= t < out@.len() implies out@[t]@ != nm@ by {
                        let u = choose|u: int|
                            0 <= u < idx && self.files@[u].0@ == out@[t]@ && keep_in_listing(
                                out@[t]@,
                            );
                        assert(self.files@[u].0@ != self.files@[idx as int].0@);
                    }
                }
                proof {
                    assert(!has_name(out@, nm@));
                }
                let ghost old_out = out@;
                insert_sorted(&mut out, nm.clone());
                proof {
                    assert forall|t: int| 0 <= t < out@.len() implies exists|u: int|
                        0 <= u < idx + 1 && self.files@[u].0@ == #[trigger] out@[t]@
                            && keep_in_listing(out@[t]@) by {
                        assert(has_name(out@, out@[t]@));
                        if out@[t]@ == nm@ {
                            assert(self.files@[idx as int].0@ == out@[t]@ && keep_in_listing(
                                out@[t]@,
                            ));
                        } else {
                            assert(has_name(old_out, out@[t]@));
                            let tt = choose|tt: int|
                                0 <= tt < old_out.len() && old_out[tt]@ == out@[t]@;
                            let u = choose|u: int|
                                0 <= u < idx && self.files@[u].0@ == old_out[tt]@
                                    && keep_in_listing(old_out[tt]@);
                            assert(self.files@[u].0@ == out@[t]@ && keep_in_listing(out@[t]@));
                        }
                    }
                    assert forall|u: int|
                        0 <= u < idx + 1 && keep_in_listing(
                            #[trigger] self.files@[u].0@,
                        ) implies has_name(out@, self.files@[u].0@) by {
                        if u < idx {
                            assert(has_name(old_out, self.files@[u].0@));
                        } else {
                            assert(self.files@[u].0@ == nm@);
                        }
                    }
                }
            }
            idx = idx + 1;
        }
        proof {
            assert forall|t: int|
                0 <= t < out@.len() implies self@.contains_key(#[trigger] out@[t]@)
                && keep_in_listing(out@[t]@) by {
                let u = choose|u: int|
                    0 <= u < n && self.files@[u].0@ == out@[t]@ && keep_in_listing(out@[t]@);
                lemma_view_index(self.files@, u);
            }
            assert forall|k: Seq<char>|
                self@.contains_key(k) && keep_in_listing(k) implies has_name(out@, k) by {
                lemma_view_contains(self.files@, k);
                let u = choose|u: int| 0 <= u < self.files@.len() && self.files@[u].0@ == k;
            }
        }
        out
    }
}

/// A name the listing shows: not the session log, not hidden.
pub open spec fn keep_in_listing(k: Seq<char>) -> bool {
    k != "session_log.txt"@ && !(k.len() > 0 && k[0] == '.')
}

/// `k` occurs among the names in `s`.
pub open spec fn has_name(s: Seq<String>, k: Seq<char>) -> bool {
    exists|i: int| 0 <= i < s.len() && s[i]@ == k
}

/// Strictly ascending in lexicographic order: sorted with no duplicates.
pub open spec fn sorted_distinct(s: Seq<String>) -> bool {
    forall|i: int, j: int|
        0 <= i < j < s.len() ==> lex_leq(#[trigger] s[i]@, #[trigger] s[j]@) && s[i]@ != s[j]@
}

fn names_contain(v: &Vec<String>, x: &str) -> (r: bool)
    ensures
        r == has_name(v@, x@),
{
    let n = v.len();
    let mut idx: usize = 0;
    while idx < n
        invariant
            idx <= n,
            n == v@.len(),
            forall|j: int| 0 <= j < idx ==> v@[j]@ != x@,
        decreases n - idx,
    {
        if str_eq(v[idx].as_str(), x) {
            assert(has_name(v@, x@));
            return true;
        }
        idx = idx + 1;
    }
    false
}

/// The listing rule applied to raw directory entries: the session log and
/// hidden (dot-prefixed) names are dropped, the rest are sorted, without
/// duplicates.
pub fn filter_listing(names: &Vec<String>) -> (r: Vec<String>)
    ensures
        forall|i: int|
            0 <= i < r@.len() ==> has_name(names@, #[trigger] r@[i]@) && keep_in_listing(r@[i]@),
        forall|k: Seq<char>| has_name(names@, k) && keep_in_listing(k) ==> has_name(r@, k),
        sorted_distinct(r@),
{
    let n = names.len();
    let mut out: Vec<String> = Vec::new();
    let mut idx: usize = 0;
    while idx < n
        invariant
            idx <= n,
            n == names@.len(),
            sorted_distinct(out@),
            forall|t: int|
                0 <= t < out@.len() ==> has_name(names@, #[trigger] out@[t]@) && keep_in_listing(
                    out@[t]@,
                ),
            forall|u: int|
                0 <= u < idx && keep_in_listing(#[trigger] names@[u]@) ==> has_name(
                    out@,
                    names@[u]@,
                ),
        decreases n - idx,
    {
        let nm = &names[idx];
        let hidden = nm.as_str().unicode_len() > 0 && nm.as_str().get_char(0) == '.';
        if !hidden && !str_eq(nm.as_str(), "session_log.txt") && !names_contain(&out, nm.as_str()) {
            let ghost old_out = out@;
            insert_sorted(&mut out, nm.clone());
            proof {
                assert forall|t: int|
                    0 <= t < out@.len() implies has_name(names@, #[trigger] out@[t]@)
                    && keep_in_listing(out@[t]@) by {
                    assert(has_name(out@, out@[t]@));
                    if out@[t]@ == nm@ {
                        assert(names@[idx as int]@ == out@[t]@);
                        assert(has_name(names@, out@[t]@));
                    } else {
                        assert(has_name(old_out, out@[t]@));
                        let tt = choose|tt: int| 0 <= tt < old_out.len() && old_out[tt]@ == out@[t]@;
                    }
                }
                assert forall|u: int|
                    0 <= u < idx + 1 && keep_in_listing(#[trigger] names@[u]@) implies has_name(
                        out@,
                        names@[u]@,
                    ) by {
                    if u < idx {
                        assert(has_name(old_out, names@[u]@));
                    } else {
                        assert(names@[u]@ == nm@);
                        assert(has_name(out@, nm@));
                    }
                }
            }
        }
        idx = idx + 1;
    }
    out
}

fn lower_bound(v: &Vec<String>, x: &str) -> (p: usize)
    requires
        sorted_distinct(v@),
        !has_name(v@, x@),
    ensures
        p <= v@.len(),
        forall|j: int| 0 <= j < p ==> lex_leq(#[trigger] v@[j]@, x@) && v@[j]@ != x@,
        p < v@.len() ==> lex_leq(x@, v@[p as int]@),
{
    let n = v.len();
    let mut p: usize = 0;
    while p < n
        invariant
            p <= n,
            n == v@.len(),
            sorted_distinct(v@),
            !has_name(v@, x@),
            forall|j: int| 0 <= j < p ==> lex_leq(#[trigger] v@[j]@, x@) && v@[j]@ != x@,
        decreases n - p,
    {
        if str_lex_leq(x, v[p].as_str()) {
            return p;
        }
        proof {
            lemma_lex_leq_total(x@, v@[p as int]@);
            assert(v@[p as int]@ != x@);
        }
        p = p + 1;
    }
    p
}

fn insert_sorted(v: &mut Vec<String>, x: String)
    requires
        sorted_distinct(old(v)@),
        !has_name(old(v)@, x@),
    ensures
        sorted_distinct(final(v)@),
        final(v)@.len() == old(v)@.len() + 1,
        forall|k: Seq<char>| has_name(final(v)@, k) <==> has_name(old(v)@, k) || k == x@,
{
    let p = lower_bound(v, x.as_str());
    let ghost old_v = v@;
    v.insert(p, x);
    proof {
        assert(v@ == old_v.insert(p as int, x));
        old_v.insert_ensures(p as int, x);
        assert forall|i: int, j: int| 0 <= i < j < v@.len() implies lex_leq(
            #[trigger] v@[i]@,
            #[trigger] v@[j]@,
        ) && v@[i]@ != v@[j]@ by {
            if i < p && j == p {
                assert(v@[i]@ == old_v[i]@);
                assert(v@[j]@ == x@);
            } else if i == p && j > p {
                assert(v@[i]@ == x@);
                assert(v@[j]@ == old_v[j - 1]@);
                if p < old_v.len() {
                    assert(lex_leq(x@, old_v[p as int]@));
                    if j - 1 > p {
                        lemma_lex_leq_trans(x@, old_v[p as int]@, old_v[j - 1]@);
                    }
                }
            } else if i < p && j > p {
                assert(v@[i]@ == old_v[i]@);
                assert(v@[j]@ == old_v[j - 1]@);
                assert(i < j - 1 < old_v.len());
            } else if j < p {
                assert(v@[i]@ == old_v[i]@);
                assert(v@[j]@ == old_v[j]@);
            } else {
                assert(p < i < j);
                assert(v@[i]@ == old_v[i - 1]@);
                assert(v@[j]@ == old_v[j - 1]@);
            }
        }
        assert forall|k: Seq<char>| has_name(v@, k) <==> (has_name(old_v, k) || k == x@) by {
            if has_name(v@, k) {
                let t = choose|t: int| 0 <= t < v@.len() && v@[t]@ == k;
                if t < p {
                    assert(old_v[t]@ == k);
                } else if t > p {
                    assert(old_v[t - 1]@ == k);
                }
            }
            if has_name(old_v, k) {
                let t = choose|t: int| 0 <= t < old_v.len() && old_v[t]@ == k;
                if t < p {
                    assert(v@[t]@ == k);
                } else {
                    assert(v@[t + 1]@ == k);
                }
            }
            if k == x@ {
                assert(v@[p as int]@ == k);
            }
        }
    }
}

} // verus!
