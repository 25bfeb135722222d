//! One transcript: an ordered sequence of record lines plus the metadata
//! derived from them.
//!
//! A record file is line-delimited: each non-empty line that decodes as a
//! record becomes one [`SessionMessage`], in file order; a line that does
//! not decode is skipped, so one bad line never loses a whole transcript.
//! A single forward pass derives the metadata: the branch is the last
//! `gitBranch` value seen, and the summary comes from the first user record
//! with text content.  The pass stops at that record, so `gitBranch` values
//! in later records are not picked up — that is the long-standing observed
//! behaviour of the record format's writer, kept here deliberately.

use vstd::prelude::*;
use vstd::string::StringExecFns;
use crate::message::{SessionMessage, clone_opt_string, opt_view};
use crate::shims::{decode_line, decoded_line};
use crate::text::{chars_of, decimal_string, spec_decimal, str_eq, string_from_chars};

verus! {

/// How many characters of the first user message the summary keeps.
pub const SUMMARY_LIMIT: usize = 60;

/// `l` without one trailing carriage return.
pub open spec fn strip_cr(l: Seq<char>) -> Seq<char> {
    if l.len() > 0 && l.last() == '\r' {
        l.drop_last()
    } else {
        l
    }
}

/// The lines of `cur + s`: a line ends at each newline, dropping one
/// carriage return just before it; the text after the last newline is a
/// final line when non-empty.
pub open spec fn lines_rec(s: Seq<char>, cur: Seq<char>) -> Seq<Seq<char>>
    decreases s.len(),
{
    if s.len() == 0 {
        if cur.len() == 0 {
            Seq::empty()
        } else {
            seq![cur]
        }
    } else if s[0] == '\n' {
        seq![strip_cr(cur)] + lines_rec(s.drop_first(), Seq::empty())
    } else {
        lines_rec(s.drop_first(), cur.push(s[0]))
    }
}

/// The lines of `s`, split as str::lines splits them.
pub open spec fn spec_lines(s: Seq<char>) -> Seq<Seq<char>> {
    lines_rec(s, Seq::empty())
}

/// `cur` without one trailing carriage return, as a string.
fn strip_cr_line(cur: Vec<char>) -> (r: String)
    ensures
        r@ == strip_cr(cur@),
{
    let mut cur = cur;
    if cur.len() > 0 && cur[cur.len() - 1] == '\r' {
        cur.pop();
    }
    string_from_chars(&cur)
}

/// Splits `s` into lines, as str::lines does.
pub fn split_lines(s: &str) -> (r: Vec<String>)
    ensures
        r.deep_view() == spec_lines(s@),
{
    let cs = chars_of(s);
    let n = cs.len();
    let mut out: Vec<String> = Vec::new();
    let mut cur: Vec<char> = Vec::new();
    let mut i: usize = 0;
    proof {
        assert(s@.skip(0) =~= s@);
        assert(out.deep_view() + lines_rec(s@, Seq::empty()) =~~= lines_rec(s@, Seq::empty()));
    }
    while i < n
        invariant
            i <= n,
            n == cs@.len(),
            cs@ == s@,
            spec_lines(s@) == out.deep_view() + lines_rec(s@.skip(i as int), cur@),
        decreases n - i,
    {
        let c = cs[i];
        proof {
            assert(s@.skip(i as int)[0] == s@[i as int]);
            assert(s@.skip(i as int).drop_first() =~= s@.skip(i + 1 as int));
        }
        if c == '\n' {
            let line = strip_cr_line(cur);
            cur = Vec::new();
            let ghost old_out = out.deep_view();
            out.push(line);
            proof {
                assert(out.deep_view() =~~= old_out.push(line@));
                assert(out.deep_view() + lines_rec(s@.skip(i + 1 as int), cur@) =~~= old_out + (seq![
                    line@,
                ] + lines_rec(s@.skip(i + 1 as int), Seq::empty())));
            }
        } else {
            cur.push(c);
        }
        i = i + 1;
    }
    proof {
        assert(s@.skip(n as int) =~= Seq::<char>::empty());
    }
    if cur.len() > 0 {
        let last = string_from_chars(&cur);
        let ghost old_out = out.deep_view();
        out.push(last);
        proof {
            assert(out.deep_view() =~~= old_out.push(cur@));
            assert(out.deep_view() =~~= spec_lines(s@));
        }
    } else {
        proof {
            assert(out.deep_view() =~~= spec_lines(s@));
        }
    }
    out
}

/// The lines that decode as records, in order.
pub open spec fn kept_lines(ls: Seq<Seq<char>>) -> Seq<Seq<char>>
    decreases ls.len(),
{
    if ls.len() == 0 {
        Seq::empty()
    } else {
        let rest = kept_lines(ls.drop_first());
        if decoded_line(ls[0]) is Some {
            seq![ls[0]] + rest
        } else {
            rest
        }
    }
}

proof fn lemma_kept_lines_push(ls: Seq<Seq<char>>, x: Seq<char>)
    ensures
        kept_lines(ls.push(x)) == kept_lines(ls) + (if decoded_line(x) is Some {
            seq![x]
        } else {
            Seq::<Seq<char>>::empty()
        }),
    decreases ls.len(),
{
    if ls.len() == 0 {
        assert(ls.push(x).drop_first() =~~= ls);
        assert(kept_lines(ls.push(x)) =~~= kept_lines(ls) + (if decoded_line(x) is Some {
            seq![x]
        } else {
            Seq::<Seq<char>>::empty()
        }));
    } else {
        lemma_kept_lines_push(ls.drop_first(), x);
        assert(ls.push(x).drop_first() =~~= ls.drop_first().push(x));
        assert(ls.push(x)[0] == ls[0]);
        assert(kept_lines(ls.push(x)) =~~= kept_lines(ls) + (if decoded_line(x) is Some {
            seq![x]
        } else {
            Seq::<Seq<char>>::empty()
        }));
    }
}

/// One pass over the messages, front to back: the branch is the last
/// `gitBranch` seen so far, and the pass ends at the first user message
/// with text content, whose content is handed back next to the branch.
pub open spec fn scan_meta(msgs: Seq<SessionMessage>, branch: Option<Seq<char>>) -> (Option<
    Seq<char>,
>, Option<Seq<char>>)
    decreases msgs.len(),
{
    if msgs.len() == 0 {
        (branch, None)
    } else {
        let m = msgs[0];
        let b = if m.git_branch is Some {
            Some(m.git_branch->0@)
        } else {
            branch
        };
        if m.msg_type@ == "user"@ && m.content is Some {
            (b, Some(m.content->0@))
        } else {
            scan_meta(msgs.drop_first(), b)
        }
    }
}

/// The summary text for a user message's content: the first
/// [`SUMMARY_LIMIT`] characters, with an ellipsis when the content was
/// longer.
pub open spec fn spec_truncated(c: Seq<char>) -> Seq<char> {
    if c.len() > SUMMARY_LIMIT {
        c.take(SUMMARY_LIMIT as int) + "..."@
    } else {
        c
    }
}

/// The summary of a message sequence: the truncated content of the first
/// user message with text content, or a fixed placeholder.
pub open spec fn spec_summary(msgs: Seq<SessionMessage>) -> Seq<char> {
    match scan_meta(msgs, None).1 {
        Some(c) => spec_truncated(c),
        None => "No messages"@,
    }
}

/// The branch of a message sequence: the last `gitBranch` value seen by the
/// metadata pass.
pub open spec fn spec_branch(msgs: Seq<SessionMessage>) -> Option<Seq<char>> {
    scan_meta(msgs, None).0
}

/// The first [`SUMMARY_LIMIT`] characters of `c`, with an ellipsis when `c`
/// was longer.
pub fn truncated_summary(c: &str) -> (r: String)
    ensures
        r@ == spec_truncated(c@),
{
    let cs = chars_of(c);
    if cs.len() > SUMMARY_LIMIT {
        let mut v: Vec<char> = Vec::new();
        let mut i: usize = 0;
        while i < SUMMARY_LIMIT
            invariant
                i <= SUMMARY_LIMIT,
                SUMMARY_LIMIT <= cs@.len(),
                cs@ == c@,
                v@ == cs@.subrange(0, i as int),
            decreases SUMMARY_LIMIT - i,
        {
            v.push(cs[i]);
            i = i + 1;
        }
        let mut s = string_from_chars(&v);
        s.append("...");
        proof {
            assert(c@.take(SUMMARY_LIMIT as int) =~= v@);
        }
        s
    } else {
        String::from_str(c)
    }
}

/// One transcript, parsed.
pub struct Session {
    /// The record file's base name, without its extension.
    pub id: String,
    /// The filesystem path the session was recorded against.
    pub project_path: String,
    /// The decoded record lines, in file order.
    pub messages: Vec<SessionMessage>,
    /// Seconds since the epoch of the record file's last change.
    pub last_modified: u64,
    /// The first user message's content, truncated.
    pub summary: String,
    /// The last `gitBranch` value the metadata pass saw.
    pub git_branch: Option<String>,
}

impl Session {
    /// Every message's fields agree with its raw line.
    pub open spec fn wf(self) -> bool {
        forall|i: int|
            0 <= i < self.messages@.len() ==> (#[trigger] self.messages@[i]).wf()
    }

    /// The raw record lines of the messages, in order.
    pub open spec fn raw_lines(self) -> Seq<Seq<char>> {
        self.messages@.map_values(|m: SessionMessage| m.raw@)
    }

    /// Parses one transcript.
    ///
    /// `content` is the record file's text; `id`, `project_path` and
    /// `last_modified` come from the file's name, its directory and its
    /// metadata.  Lines that do not decode are skipped; the metadata pass
    /// of [`scan_meta`] fills the summary and the branch.
    pub fn load(content: &str, id: String, project_path: String, last_modified: u64) -> (s: Session)
        ensures
            s.id == id,
            s.project_path == project_path,
            s.last_modified == last_modified,
            s.wf(),
            s.raw_lines() == kept_lines(spec_lines(content@)),
            s.summary@ == spec_summary(s.messages@),
            opt_view(s.git_branch) == spec_branch(s.messages@),
    {
        let lines = split_lines(content);
        let n = lines.len();
        let mut messages: Vec<SessionMessage> = Vec::new();
        let mut i: usize = 0;
        while i < n
            invariant
                i <= n,
                n == lines@.len(),
                lines.deep_view() == spec_lines(content@),
                messages@.map_values(|m: SessionMessage| m.raw@) == kept_lines(
                    lines.deep_view().take(i as int),
                ),
                forall|j: int| 0 <= j < messages@.len() ==> (#[trigger] messages@[j]).wf(),
            decreases n - i,
        {
            let ghost old_raws = messages@.map_values(|m: SessionMessage| m.raw@);
            proof {
                lemma_kept_lines_push(
                    lines.deep_view().take(i as int),
                    lines.deep_view()[i as int],
                );
                assert(lines.deep_view().take(i + 1 as int) =~~= lines.deep_view().take(
                    i as int,
                ).push(lines.deep_view()[i as int]));
                assert(lines.deep_view()[i as int] == lines@[i as int]@);
            }
            match decode_line(lines[i].as_str()) {
                Some(m) => {
                    messages.push(m);
                    proof {
                        assert(messages@.map_values(|m: SessionMessage| m.raw@) =~~= old_raws.push(
                            m.raw@,
                        ));
                    }
                },
                None => {},
            }
            i = i + 1;
        }
        proof {
            assert(lines.deep_view().take(n as int) =~~= lines.deep_view());
        }
        let (git_branch, found) = scan_messages(&messages);
        let summary = match found {
            Some(c) => truncated_summary(c.as_str()),
            None => String::from_str("No messages"),
        };
        Session { id, project_path, messages, last_modified, summary, git_branch }
    }

    /// How many messages the session holds.
    pub fn message_count(&self) -> (r: usize)
        ensures
            r == self.messages@.len(),
    {
        self.messages.len()
    }

    /// A short "how long ago" label for the session's last change, given the
    /// current time in seconds since the epoch.
    pub fn time_ago(&self, now: u64) -> (r: String)
        ensures
            r@ == spec_time_ago(self.last_modified, now),
    {
        let diff = if now >= self.last_modified {
            now - self.last_modified
        } else {
            0
        };
        if diff < 60 {
            let mut s = decimal_string(diff);
            s.append("s ago");
            s
        } else if diff < 3600 {
            let mut s = decimal_string(diff / 60);
            s.append("m ago");
            s
        } else if diff < 86400 {
            let mut s = decimal_string(diff / 3600);
            s.append("h ago");
            s
        } else {
            let mut s = decimal_string(diff / 86400);
            s.append("d ago");
            s
        }
    }
}

/// The "how long ago" label: the elapsed time in seconds, minutes, hours or
/// days, whichever unit fits, with time running backwards counting as no
/// elapsed time.
pub open spec fn spec_time_ago(last_modified: u64, now: u64) -> Seq<char> {
    let diff: int = if now >= last_modified {
        now - last_modified
    } else {
        0
    };
    if diff < 60 {
        spec_decimal(diff as nat) + "s ago"@
    } else if diff < 3600 {
        spec_decimal((diff / 60) as nat) + "m ago"@
    } else if diff < 86400 {
        spec_decimal((diff / 3600) as nat) + "h ago"@
    } else {
        spec_decimal((diff / 86400) as nat) + "d ago"@
    }
}

/// The metadata pass over the parsed messages: hands back the last branch
/// seen and the first user content found, as [`scan_meta`] describes.
fn scan_messages(msgs: &Vec<SessionMessage>) -> (r: (Option<String>, Option<String>))
    ensures
        (opt_view(r.0), opt_view(r.1)) == scan_meta(msgs@, None),
{
    let n = msgs.len();
    let mut branch: Option<String> = None;
    let mut found: Option<String> = None;
    let mut i: usize = 0;
    proof {
        assert(msgs@.skip(0) =~= msgs@);
    }
    while i < n
        invariant_except_break
            i <= n,
            n == msgs@.len(),
            found is None,
            scan_meta(msgs@, None) == scan_meta(msgs@.skip(i as int), opt_view(branch)),
        ensures
            (opt_view(branch), opt_view(found)) == scan_meta(msgs@, None),
        decreases n - i,
    {
        proof {
            assert(msgs@.skip(i as int)[0] == msgs@[i as int]);
            assert(msgs@.skip(i as int).drop_first() =~= msgs@.skip(i + 1 as int));
        }
        if msgs[i].git_branch.is_some() {
            branch = clone_opt_string(&msgs[i].git_branch);
        }
        let is_user = str_eq(msgs[i].msg_type.as_str(), "user");
        if is_user && msgs[i].content.is_some() {
            found = clone_opt_string(&msgs[i].content);
            break;
        }
        i = i + 1;
    }
    (branch, found)
}

} // verus!
