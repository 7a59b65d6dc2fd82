use vstd::prelude::*;
use vstd::string::StrSliceExecFns;
use vstd::string::StringExecFns;
use crate::strutil::last_index_of;
use crate::strutil::rfind_char;

verus! {

/// The characters after the last newline of `s`; all of `s` when it has none.
pub open spec fn tail_after_newline(s: Seq<char>) -> Seq<char> {
    s.subrange(last_index_of(s, '\n') + 1, s.len() as int)
}

pub open spec fn strip_trailing_cr(s: Seq<char>) -> Seq<char> {
    if s.len() > 0 && s.last() == '\r' {
        s.drop_last()
    } else {
        s
    }
}

/// The last line of `s` as a line-oriented reader sees it: a final newline
/// closes the text instead of opening a new line (and a carriage return
/// paired with it is stripped), and the line is what follows the last
/// remaining newline. Empty text has no line.
pub open spec fn last_line_of(s: Seq<char>) -> Option<Seq<char>> {
    if s.len() == 0 {
        None
    } else if s.last() == '\n' {
        Some(strip_trailing_cr(tail_after_newline(s.drop_last())))
    } else {
        Some(tail_after_newline(s))
    }
}

/// Last line of the given text, as the history reader reports it.
pub fn get_last_line(content: &str) -> (r: Option<String>)
    ensures
        match r {
            Some(line) => last_line_of(content@) == Some(line@),
            None => last_line_of(content@) is None,
        },
{
    let n = content.unicode_len();
    if n == 0 {
        return None;
    }
    let ends_nl = content.get_char(n - 1) == '\n';
    let end = if ends_nl {
        n - 1
    } else {
        n
    };
    let body = content.substring_char(0, end);
    proof {
        if ends_nl {
            assert(body@ =~= content@.drop_last());
        } else {
            assert(body@ =~= content@);
        }
    }
    let start = match rfind_char(body, '\n') {
        Some(i) => i + 1,
        None => 0,
    };
    proof {
        assert(body@.subrange(start as int, end as int) == tail_after_newline(body@));
    }
    if ends_nl && start < end && body.get_char(end - 1) == '\r' {
        let line = body.substring_char(start, end - 1);
        proof {
            let t = tail_after_newline(body@);
            assert(t.len() > 0 && t.last() == '\r');
            assert(line@ =~= strip_trailing_cr(t));
        }
        return Some(String::from_str(line));
    }
    let line = body.substring_char(start, end);
    proof {
        if ends_nl {
            let t = tail_after_newline(body@);
            assert(!(t.len() > 0 && t.last() == '\r'));
            assert(line@ == strip_trailing_cr(t));
        }
    }
    Some(String::from_str(line))
}

/// One step of growth-delta detection as a pure function of the cursor and
/// the observed file size: the candidate line is reported only when the file
/// grew, and the cursor advances exactly then.
pub open spec fn history_step(last_size: u64, current_size: u64, line: Option<Seq<char>>) -> (Option<
    Seq<char>,
>, u64) {
    if current_size <= last_size {
        (None, last_size)
    } else {
        (line, current_size)
    }
}

pub open spec fn opt_view(o: Option<String>) -> Option<Seq<char>> {
    match o {
        Some(s) => Some(s@),
        None => None,
    }
}

/// Last observed byte length of the history file. Initialized to the size at
/// session start, so pre-existing history is ignored; it never moves backward.
pub struct HistoryCursor {
    pub last_size: u64,
}

impl HistoryCursor {
    pub fn new(initial_size: u64) -> (r: HistoryCursor)
        ensures
            r.last_size == initial_size,
    {
        HistoryCursor { last_size: initial_size }
    }

    /// Apply one raw notification on the history file: `current_size` is the
    /// file's size now, `last_line` its current last line. Growth yields
    /// exactly one command report carrying that line and advances the cursor;
    /// anything else (duplicate notification, truncation, same-size rewrite)
    /// yields nothing and leaves the cursor alone.
    pub fn observe(&mut self, current_size: u64, last_line: Option<String>) -> (r: Option<String>)
        ensures
            opt_view(r) == history_step(old(self).last_size, current_size, opt_view(last_line)).0,
            final(self).last_size == history_step(
                old(self).last_size,
                current_size,
                opt_view(last_line),
            ).1,
            current_size <= old(self).last_size ==> r is None && *final(self) == *old(self),
            current_size > old(self).last_size ==> r == last_line && final(self).last_size
                == current_size,
    {
        if current_size <= self.last_size {
            return None;
        }
        self.last_size = current_size;
        last_line
    }

    /// Growth-delta detection against the history file's current text: when
    /// the file grew past the cursor, exactly one report carrying the text's
    /// last line comes back; a duplicate notification, a truncation or a
    /// same-size rewrite produces none and leaves the cursor alone.
    pub fn observe_text(&mut self, current_size: u64, content: &str) -> (r: Option<String>)
        ensures
            current_size <= old(self).last_size ==> r is None && *final(self) == *old(self),
            current_size > old(self).last_size ==> final(self).last_size == current_size && (
            match r {
                Some(line) => last_line_of(content@) == Some(line@),
                None => last_line_of(content@) is None,
            }),
    {
        let line = get_last_line(content);
        self.observe(current_size, line)
    }
}

/// The cursor is monotone: no observation moves it backward.
pub proof fn lemma_cursor_monotonic(last_size: u64, current_size: u64, line: Option<Seq<char>>)
    ensures
        history_step(last_size, current_size, line).1 >= last_size,
{
}

/// Growth-delta detection reports the new last line exactly when the file
/// grew, and nothing otherwise.
pub proof fn lemma_history_growth(last_size: u64, current_size: u64, line: Option<Seq<char>>)
    ensures
        current_size > last_size ==> history_step(last_size, current_size, line).0 == line,
        current_size <= last_size ==> history_step(last_size, current_size, line).0 is None,
{
}

/// Once a growth to `size` has been observed, a repeated notification for the
/// same size yields no further report: duplicate filesystem notifications for
/// one append produce one command event, not two.
pub proof fn lemma_duplicate_notification_suppressed(
    last_size: u64,
    size: u64,
    line1: Option<Seq<char>>,
    line2: Option<Seq<char>>,
)
    ensures
        history_step(history_step(last_size, size, line1).1, size, line2).0 is None,
{
}

} // verus!
