use vstd::prelude::*;
use vstd::string::StrSliceExecFns;
use vstd::string::StringExecFns;
use crate::strutil::base_name;
use crate::strutil::base_name_of;
use crate::strutil::ends_with;
use crate::strutil::is_under;
use crate::strutil::path_is_under;
use crate::strutil::str_ends_with;
use crate::strutil::str_eq;

verus! {

/// Shape of a raw filesystem notification, as the notification backend
/// reports it; anything that is not a create, content change or removal is
/// `Other` (metadata-only changes, renames-in-progress, and so on).
#[derive(Clone, Copy, PartialEq, Eq, Debug)]
pub enum RawEventKind {
    Create,
    Modify,
    Remove,
    Other,
}

/// Semantic kind of a workspace file change.
#[derive(Clone, Copy, PartialEq, Eq, Debug)]
pub enum ChangeKind {
    Created,
    Modified,
    Deleted,
}

/// A semantic event derived from raw filesystem notifications: either a
/// command executed in the supervised shell (carrying the last history line)
/// or a change to a user-visible workspace file.
#[derive(Clone, PartialEq, Eq, Debug)]
pub enum ClassifiedEvent {
    Command(String),
    FileChange(ChangeKind, String),
}

/// The two watched directory roots: the user-visible workspace and the
/// hidden internal directory that holds the history file.
pub struct WatchRoots {
    pub workspace: String,
    pub internal: String,
}

/// What to do with one raw notification: drop it, read the history file and
/// feed its size and last line to the cursor, or emit a classified event.
#[derive(Clone, PartialEq, Eq, Debug)]
pub enum WatchAction {
    Ignore,
    InspectHistory,
    Emit(ClassifiedEvent),
}

/// Editor noise and the externally managed session log never produce events.
pub open spec fn is_noise(base: Seq<char>) -> bool {
    ends_with(base, ".swp"@) || ends_with(base, "~"@) || base == "session_log.txt"@
}

pub fn noise_name(base: &str) -> (r: bool)
    ensures
        r == is_noise(base@),
{
    str_ends_with(base, ".swp") || str_ends_with(base, "~") || str_eq(base, "session_log.txt")
}

/// The raw notification concerns the distinguished history file.
pub open spec fn is_history_notification(internal: Seq<char>, path: Seq<char>) -> bool {
    is_under(path, internal) && base_name_of(path) == ".cmd_history"@
}

impl WatchRoots {
    /// Classify one raw filesystem notification. Noise names are discarded
    /// under any root; a notification for the history file asks the caller to
    /// inspect it; a create, content change or removal under the workspace
    /// becomes a file-change event; everything else is discarded.
    pub fn triage(&self, path: &str, kind: RawEventKind) -> (r: WatchAction)
        ensures
            is_noise(base_name_of(path@)) ==> r == WatchAction::Ignore,
            !is_noise(base_name_of(path@)) && is_history_notification(self.internal@, path@) ==> r
                == WatchAction::InspectHistory,
            !is_noise(base_name_of(path@)) && !is_history_notification(self.internal@, path@)
                && is_under(path@, self.workspace@) ==> match kind {
                RawEventKind::Create => r matches WatchAction::Emit(
                    ClassifiedEvent::FileChange(k, n),
                ) && k == ChangeKind::Created && n@ == base_name_of(path@),
                RawEventKind::Modify => r matches WatchAction::Emit(
                    ClassifiedEvent::FileChange(k, n),
                ) && k == ChangeKind::Modified && n@ == base_name_of(path@),
                RawEventKind::Remove => r matches WatchAction::Emit(
                    ClassifiedEvent::FileChange(k, n),
                ) && k == ChangeKind::Deleted && n@ == base_name_of(path@),
                RawEventKind::Other => r == WatchAction::Ignore,
            },
            !is_noise(base_name_of(path@)) && !is_history_notification(self.internal@, path@)
                && !is_under(path@, self.workspace@) ==> r == WatchAction::Ignore,
    {
        let base = base_name(path);
        if noise_name(base.as_str()) {
            return WatchAction::Ignore;
        }
        if path_is_under(path, self.internal.as_str()) && str_eq(base.as_str(), ".cmd_history") {
            return WatchAction::InspectHistory;
        }
        if path_is_under(path, self.workspace.as_str()) {
            let change = match kind {
                RawEventKind::Create => ChangeKind::Created,
                RawEventKind::Modify => ChangeKind::Modified,
                RawEventKind::Remove => ChangeKind::Deleted,
                RawEventKind::Other => {
                    return WatchAction::Ignore;
                },
            };
            return WatchAction::Emit(ClassifiedEvent::FileChange(change, base));
        }
        WatchAction::Ignore
    }
}

/// Label used in the message of a file-change event.
pub open spec fn kind_label(k: ChangeKind) -> Seq<char> {
    match k {
        ChangeKind::Created => "Created"@,
        ChangeKind::Modified => "Modified"@,
        ChangeKind::Deleted => "Deleted"@,
    }
}

impl ChangeKind {
    pub fn label(&self) -> (r: &'static str)
        ensures
            r@ == kind_label(*self),
    {
        match self {
            ChangeKind::Created => "Created",
            ChangeKind::Modified => "Modified",
            ChangeKind::Deleted => "Deleted",
        }
    }
}

/// Message text of a file-change event: `<Kind> file '<name>'`.
pub fn change_message(kind: ChangeKind, name: &str) -> (r: String)
    ensures
        r@ == kind_label(kind) + " file '"@ + name@ + "'"@,
{
    let mut s = String::from_str(kind.label());
    s.append(" file '");
    s.append(name);
    s.append("'");
    s
}

impl ClassifiedEvent {
    /// The message pushed to the event sink: the executed command itself, or
    /// `<Kind> file '<name>'` for a workspace change.
    pub fn message(&self) -> (r: String)
        ensures
            *self matches ClassifiedEvent::Command(line) ==> r@ == line@,
            *self matches ClassifiedEvent::FileChange(k, n) ==> r@ == kind_label(k) + " file '"@
                + n@ + "'"@,
    {
        match self {
            ClassifiedEvent::Command(line) => line.clone(),
            ClassifiedEvent::FileChange(k, n) => change_message(*k, n.as_str()),
        }
    }
}

/// A suffix that contains no separator survives taking the base name: when a
/// path ends in it, so does the path's base name.
pub proof fn lemma_suffix_reaches_base_name(path: Seq<char>, suffix: Seq<char>)
    requires
        ends_with(path, suffix),
        forall|j: int| 0 <= j < suffix.len() ==> suffix[j] != '/',
    ensures
        ends_with(base_name_of(path), suffix),
{
    crate::strutil::lemma_last_index_of(path, '/');
    let k = crate::strutil::last_index_of(path, '/');
    let n = path.len() as int;
    let m = suffix.len() as int;
    if k >= n - m {
        if k >= 0 {
            assert(path[k] == path.subrange(n - m, n)[k - (n - m)]);
            assert(false);
        }
    }
    assert(k < n - m);
    let base = base_name_of(path);
    assert(base.len() == n - k - 1);
    assert(base.subrange(base.len() - m, base.len() as int) =~= suffix) by {
        assert forall|i: int| 0 <= i < m implies base.subrange(
            base.len() - m,
            base.len() as int,
        )[i] == suffix[i] by {
            assert(base[base.len() - m + i] == path[n - m + i]);
            assert(path.subrange(n - m, n)[i] == path[n - m + i]);
        }
    }
}

/// Noise filtering: a notification on a path ending in `.swp` or `~`, or
/// whose file name equals the session log, is classified as noise, so
/// `triage` ignores it under any watch root and for any change kind.
pub proof fn lemma_noise_filtered(path: Seq<char>)
    requires
        ends_with(path, ".swp"@) || ends_with(path, "~"@) || base_name_of(path)
            == "session_log.txt"@,
    ensures
        is_noise(base_name_of(path)),
{
    reveal_strlit(".swp");
    reveal_strlit("~");
    if ends_with(path, ".swp"@) {
        assert forall|j: int| 0 <= j < ".swp"@.len() implies ".swp"@[j] != '/' by {
            if j == 0 {
            } else if j == 1 {
            } else if j == 2 {
            } else {
                assert(j == 3);
            }
        }
        lemma_suffix_reaches_base_name(path, ".swp"@);
    } else if ends_with(path, "~"@) {
        assert forall|j: int| 0 <= j < "~"@.len() implies "~"@[j] != '/' by {
            assert(j == 0);
        }
        lemma_suffix_reaches_base_name(path, "~"@);
    }
}

} // verus!
