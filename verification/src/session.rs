use vstd::prelude::*;
use crate::strutil::str_eq;

verus! {

/// One live pseudo-terminal session. The child process and its background
/// reader and reaper tasks live with the embedder; the registry keeps the
/// handle that identifies the terminal's exclusively locked input endpoint.
#[derive(Clone, Copy, PartialEq, Eq, Structural, Debug)]
pub struct PtyInstance {
    pub writer: usize,
}

/// The mapping a list of registered terminals denotes; a later entry for an
/// identifier shadows an earlier one, though the registry keeps them unique.
pub open spec fn ptys_view(s: Seq<(String, PtyInstance)>) -> Map<Seq<char>, PtyInstance>
    decreases s.len(),
{
    if s.len() == 0 {
        Map::empty()
    } else {
        ptys_view(s.drop_last()).insert(s.last().0@, s.last().1)
    }
}

pub open spec fn unique_ids(s: Seq<(String, PtyInstance)>) -> bool {
    forall|i: int, j: int| 0 <= i < j < s.len() ==> s[i].0@ != s[j].0@
}

proof fn lemma_ptys_contains(s: Seq<(String, PtyInstance)>, k: Seq<char>)
    ensures
        ptys_view(s).contains_key(k) <==> exists|i: int| 0 <= i < s.len() && s[i].0@ == k,
    decreases s.len(),
{
    if s.len() > 0 {
        lemma_ptys_contains(s.drop_last(), k);
        if s.last().0@ == k {
            assert(s[s.len() - 1].0@ == k);
        } else {
            if ptys_view(s).contains_key(k) {
                let i = choose|i: int| 0 <= i < s.drop_last().len() && s.drop_last()[i].0@ == k;
                assert(s[i].0@ == k);
            }
            if exists|i: int| 0 <= i < s.len() && s[i].0@ == k {
                let i = choose|i: int| 0 <= i < s.len() && s[i].0@ == k;
                assert(i < s.len() - 1);
                assert(s.drop_last()[i].0@ == k);
            }
        }
    }
}

proof fn lemma_ptys_index(s: Seq<(String, PtyInstance)>, i: int)
    requires
        unique_ids(s),
        0 <= i < s.len(),
    ensures
        ptys_view(s).contains_key(s[i].0@),
        ptys_view(s)[s[i].0@] == s[i].1,
    decreases s.len(),
{
    if i == s.len() - 1 {
    } else {
        assert(s.drop_last()[i] == s[i]);
        lemma_ptys_index(s.drop_last(), i);
        assert(s.last().0@ != s[i].0@);
    }
}

proof fn lemma_ptys_update(s: Seq<(String, PtyInstance)>, i: int, e: (String, PtyInstance))
    requires
        unique_ids(s),
        0 <= i < s.len(),
        e.0@ == s[i].0@,
    ensures
        ptys_view(s.update(i, e)) =~= ptys_view(s).insert(e.0@, e.1),
        unique_ids(s.update(i, e)),
    decreases s.len(),
{
    let s2 = s.update(i, e);
    assert forall|a: int, b: int| 0 <= a < b < s2.len() implies s2[a].0@ != s2[b].0@ by {
        assert(s[a].0@ != s[b].0@);
    }
    if i == s.len() - 1 {
        assert(s2.drop_last() =~= s.drop_last());
        assert(s2.last() == e);
    } else {
        assert(s2.drop_last() =~= s.drop_last().update(i, e));
        assert(s.drop_last()[i] == s[i]);
        lemma_ptys_update(s.drop_last(), i, e);
        assert(s2.last() == s.last());
        assert(s.last().0@ != e.0@);
    }
}

/// The registry of active named terminals plus the session-active flag: the
/// one shared mutable resource of the system.
pub struct AppState {
    pub ptys: Vec<(String, PtyInstance)>,
    pub is_session_active: bool,
}

impl View for AppState {
    type V = Map<Seq<char>, PtyInstance>;

    closed spec fn view(&self) -> Map<Seq<char>, PtyInstance> {
        ptys_view(self.ptys@)
    }
}

impl AppState {
    pub closed spec fn wf(&self) -> bool {
        unique_ids(self.ptys@)
    }

    /// A fresh registry with no terminals and an active session.
    pub fn new() -> (r: AppState)
        ensures
            r.wf(),
            r@ == Map::<Seq<char>, PtyInstance>::empty(),
            r.is_session_active == true,
    {
        AppState { ptys: Vec::new(), is_session_active: true }
    }

    fn find_index(&self, pty_id: &str) -> (r: Option<usize>)
        requires
            self.wf(),
        ensures
            match r {
                Some(i) => i < self.ptys@.len() && self.ptys@[i as int].0@ == pty_id@
                    && self@.contains_key(pty_id@) && self@[pty_id@] == self.ptys@[i as int].1,
                None => !self@.contains_key(pty_id@),
            },
    {
        let n = self.ptys.len();
        let mut idx: usize = 0;
        while idx < n
            invariant
                idx <= n,
                n == self.ptys@.len(),
                self.wf(),
                forall|j: int| 0 <= j < idx ==> self.ptys@[j].0@ != pty_id@,
            decreases n - idx,
        {
            if str_eq(self.ptys[idx].0.as_str(), pty_id) {
                proof {
                    lemma_ptys_index(self.ptys@, idx as int);
                }
                return Some(idx);
            }
            idx = idx + 1;
        }
        proof {
            lemma_ptys_contains(self.ptys@, pty_id@);
        }
        None
    }

    /// Register a terminal under its identifier. An existing entry for the
    /// identifier is replaced, so at most one live terminal exists per
    /// identifier at any time.
    pub fn insert_pty(&mut self, pty_id: String, pty: PtyInstance)
        requires
            old(self).wf(),
        ensures
            final(self).wf(),
            final(self)@ == old(self)@.insert(pty_id@, pty),
            final(self).is_session_active == old(self).is_session_active,
    {
        let entry = (pty_id, pty);
        match self.find_index(entry.0.as_str()) {
            Some(i) => {
                proof {
                    lemma_ptys_update(self.ptys@, i as int, entry);
                }
                self.ptys[i] = entry;
            },
            None => {
                proof {
                    lemma_ptys_contains(self.ptys@, entry.0@);
                }
                self.ptys.push(entry);
                proof {
                    assert(self.ptys@.drop_last() =~= old(self).ptys@);
                }
            },
        }
    }

    /// Route input bytes to the named terminal: the identified writer handle
    /// is to receive exactly the submitted bytes, in order. A write to an
    /// unknown (or already dead) identifier is silently dropped.
    pub fn write_to_pty(&self, pty_id: &str, data: Vec<u8>) -> (r: Option<(usize, Vec<u8>)>)
        requires
            self.wf(),
        ensures
            self@.contains_key(pty_id@) ==> r == Some((self@[pty_id@].writer, data)),
            !self@.contains_key(pty_id@) ==> r is None,
    {
        match self.find_index(pty_id) {
            Some(i) => Some((self.ptys[i].1.writer, data)),
            None => None,
        }
    }

    /// The admin-unlock gate: exactly the configured secret clears the
    /// session-active flag; any other key leaves the state untouched.
    pub fn verify_admin_key(&mut self, admin_key: &str) -> (r: bool)
        requires
            old(self).wf(),
        ensures
            final(self).wf(),
            r == (admin_key@ == "1915"@),
            r ==> final(self)@ == old(self)@ && final(self).is_session_active == false,
            !r ==> *final(self) == *old(self),
    {
        if str_eq(admin_key, "1915") {
            self.is_session_active = false;
            return true;
        }
        false
    }
}

} // verus!
