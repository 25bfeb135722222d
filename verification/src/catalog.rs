//! The session catalog: how record files found on disk become an ordered
//! sequence of sessions.
//!
//! A project's on-disk directory name is its absolute path with every path
//! separator replaced by a hyphen; the codec here inverts that, and flags
//! the ambiguous case of a path that itself holds a hyphen instead of
//! resolving it silently.  The caller walks the sessions root and hands in
//! one [`ScanEntry`] per file; everything after that — which files count as
//! transcripts, how each becomes a [`Session`], and the newest-first order —
//! is decided here.

use vstd::prelude::*;
use crate::message::opt_view;
use crate::session::{Session, kept_lines, spec_branch, spec_lines, spec_summary};
use crate::text::{chars_of, string_from_chars};

verus! {

broadcast use vstd::seq_lib::group_to_multiset_ensures;

/// The separator that is substituted in a project directory name.
pub open spec fn spec_encode_char(c: char) -> char {
    if c == '/' {
        '-'
    } else {
        c
    }
}

/// The inverse substitution.
pub open spec fn spec_decode_char(c: char) -> char {
    if c == '-' {
        '/'
    } else {
        c
    }
}

/// A project path as it appears as a directory name: separators become
/// hyphens.
pub open spec fn spec_encode_path(p: Seq<char>) -> Seq<char> {
    p.map_values(|c: char| spec_encode_char(c))
}

/// A directory name read back as a project path: hyphens become separators.
pub open spec fn spec_decode_dir(d: Seq<char>) -> Seq<char> {
    d.map_values(|c: char| spec_decode_char(c))
}

/// Encodes a project path into its directory name.
pub fn encode_project_path(p: &str) -> (r: String)
    ensures
        r@ == spec_encode_path(p@),
{
    let cs = chars_of(p);
    let n = cs.len();
    let mut out: Vec<char> = Vec::new();
    let mut i: usize = 0;
    while i < n
        invariant
            i <= n,
            n == cs@.len(),
            cs@ == p@,
            out@ == p@.subrange(0, i as int).map_values(|c: char| spec_encode_char(c)),
        decreases n - i,
    {
        let c = cs[i];
        if c == '/' {
            out.push('-');
        } else {
            out.push(c);
        }
        proof {
            assert(out@ =~= p@.subrange(0, i + 1 as int).map_values(
                |c: char| spec_encode_char(c),
            ));
        }
        i = i + 1;
    }
    proof {
        assert(p@.subrange(0, n as int) =~= p@);
    }
    string_from_chars(&out)
}

/// Decodes a directory name back into a project path.
pub fn decode_project_dir(d: &str) -> (r: String)
    ensures
        r@ == spec_decode_dir(d@),
{
    let cs = chars_of(d);
    let n = cs.len();
    let mut out: Vec<char> = Vec::new();
    let mut i: usize = 0;
    while i < n
        invariant
            i <= n,
            n == cs@.len(),
            cs@ == d@,
            out@ == d@.subrange(0, i as int).map_values(|c: char| spec_decode_char(c)),
        decreases n - i,
    {
        let c = cs[i];
        if c == '-' {
            out.push('/');
        } else {
            out.push(c);
        }
        proof {
            assert(out@ =~= d@.subrange(0, i + 1 as int).map_values(
                |c: char| spec_decode_char(c),
            ));
        }
        i = i + 1;
    }
    proof {
        assert(d@.subrange(0, n as int) =~= d@);
    }
    string_from_chars(&out)
}

/// Whether encoding this path is ambiguous: a hyphen in the path itself
/// decodes back as a separator, so the round trip would not return the
/// original.
pub fn path_encoding_ambiguous(p: &str) -> (r: bool)
    ensures
        r <==> p@.contains('-'),
{
    let cs = chars_of(p);
    let n = cs.len();
    let mut i: usize = 0;
    while i < n
        invariant
            i <= n,
            n == cs@.len(),
            cs@ == p@,
            forall|k: int| 0 <= k < i ==> p@[k] != '-',
        decreases n - i,
    {
        if cs[i] == '-' {
            proof {
                assert(p@[i as int] == '-');
            }
            return true;
        }
        i = i + 1;
    }
    proof {
        assert(forall|k: int| 0 <= k < p@.len() ==> p@[k] != '-');
    }
    false
}

/// Decoding inverts encoding exactly when the path holds no hyphen of its
/// own.
pub proof fn lemma_path_codec_round_trip(p: Seq<char>)
    requires
        !p.contains('-'),
    ensures
        spec_decode_dir(spec_encode_path(p)) == p,
{
    assert forall|i: int| 0 <= i < p.len() implies spec_decode_char(spec_encode_char(p[i]))
        == p[i] by {
        assert(p[i] != '-');
    }
    assert(spec_decode_dir(spec_encode_path(p)) =~= p);
}

/// Whether a file name is a transcript file name: a non-empty stem followed
/// by the transcript extension.
pub open spec fn transcript_name(n: Seq<char>) -> bool {
    n.len() > 6 && n.skip(n.len() - 6) == ".jsonl"@
}

/// The stem of a transcript file name: everything before the extension.
pub open spec fn transcript_stem(n: Seq<char>) -> Seq<char> {
    n.take(n.len() - 6)
}

/// The stem of a transcript file name, or nothing for any other file name.
pub fn transcript_id(name: &str) -> (r: Option<String>)
    ensures
        r is Some <==> transcript_name(name@),
        r matches Some(s) ==> s@ == transcript_stem(name@),
{
    let cs = chars_of(name);
    let n = cs.len();
    proof {
        reveal_strlit(".jsonl");
    }
    if n <= 6 {
        proof {
            assert(name@.len() <= 6 && ".jsonl"@.len() == 6);
        }
        return None;
    }
    if cs[n - 6] != '.' || cs[n - 5] != 'j' || cs[n - 4] != 's' || cs[n - 3] != 'o' || cs[n - 2]
        != 'n' || cs[n - 1] != 'l' {
        proof {
            reveal_strlit(".jsonl");
            let t = name@.skip(n as int - 6);
            assert(t.len() == 6);
            assert(t[0] == name@[n - 6] && t[1] == name@[n - 5] && t[2] == name@[n - 4] && t[3]
                == name@[n - 3] && t[4] == name@[n - 2] && t[5] == name@[n - 1]);
            assert(t != ".jsonl"@);
        }
        return None;
    }
    proof {
        assert(name@.skip(n as int - 6) =~= ".jsonl"@);
    }
    let mut stem: Vec<char> = Vec::new();
    let mut i: usize = 0;
    while i < n - 6
        invariant
            i <= n - 6,
            n == cs@.len(),
            n > 6,
            cs@ == name@,
            stem@ == name@.subrange(0, i as int),
        decreases n - 6 - i,
    {
        stem.push(cs[i]);
        i = i + 1;
    }
    proof {
        assert(stem@ =~= transcript_stem(name@));
    }
    Some(string_from_chars(&stem))
}

/// One file found under the sessions root: the project directory's name,
/// the file's own name, the file's text and its modification time in
/// seconds since the epoch.
pub struct ScanEntry {
    /// The name of the project subdirectory the file sits in.
    pub dir_name: String,
    /// The file's own name.
    pub file_name: String,
    /// The file's text.
    pub content: String,
    /// The file's modification time, seconds since the epoch.
    pub last_modified: u64,
}

/// The entries whose file name is a transcript file name, in order.
pub open spec fn valid_entries(es: Seq<ScanEntry>) -> Seq<ScanEntry>
    decreases es.len(),
{
    if es.len() == 0 {
        Seq::empty()
    } else {
        let rest = valid_entries(es.drop_first());
        if transcript_name(es[0].file_name@) {
            seq![es[0]] + rest
        } else {
            rest
        }
    }
}

proof fn lemma_valid_entries_push(es: Seq<ScanEntry>, e: ScanEntry)
    ensures
        valid_entries(es.push(e)) == valid_entries(es) + (if transcript_name(e.file_name@) {
            seq![e]
        } else {
            Seq::<ScanEntry>::empty()
        }),
    decreases es.len(),
{
    if es.len() == 0 {
        assert(es.push(e).drop_first() =~= es);
        assert(valid_entries(es.push(e)) =~= valid_entries(es) + (if transcript_name(
            e.file_name@,
        ) {
            seq![e]
        } else {
            Seq::<ScanEntry>::empty()
        }));
    } else {
        lemma_valid_entries_push(es.drop_first(), e);
        assert(es.push(e).drop_first() =~= es.drop_first().push(e));
        assert(es.push(e)[0] == es[0]);
        assert(valid_entries(es.push(e)) =~= valid_entries(es) + (if transcript_name(
            e.file_name@,
        ) {
            seq![e]
        } else {
            Seq::<ScanEntry>::empty()
        }));
    }
}

/// Whether a session was loaded from one of the transcript entries of a
/// scan.
pub open spec fn from_some_entry(s: Session, es: Seq<ScanEntry>) -> bool {
    exists|j: int|
        0 <= j < valid_entries(es).len() && session_from_entry(s, valid_entries(es)[j])
}

/// Whether a session was loaded from an entry: every field of the session
/// comes out of the entry as [`Session::load`] derives it.
pub open spec fn session_from_entry(s: Session, e: ScanEntry) -> bool {
    &&& s.wf()
    &&& s.id@ == transcript_stem(e.file_name@)
    &&& s.project_path@ == spec_decode_dir(e.dir_name@)
    &&& s.last_modified == e.last_modified
    &&& s.raw_lines() == kept_lines(spec_lines(e.content@))
    &&& s.summary@ == spec_summary(s.messages@)
    &&& opt_view(s.git_branch) == spec_branch(s.messages@)
}

/// Parses every transcript file among the entries, in order.
pub fn load_sessions(entries: Vec<ScanEntry>) -> (r: Vec<Session>)
    ensures
        r@.len() == valid_entries(entries@).len(),
        forall|k: int|
            0 <= k < r@.len() ==> session_from_entry(#[trigger] r@[k], valid_entries(entries@)[k]),
{
    let n = entries.len();
    let mut out: Vec<Session> = Vec::new();
    let mut i: usize = 0;
    while i < n
        invariant
            i <= n,
            n == entries@.len(),
            out@.len() == valid_entries(entries@.take(i as int)).len(),
            forall|k: int|
                0 <= k < out@.len() ==> session_from_entry(
                    #[trigger] out@[k],
                    valid_entries(entries@.take(i as int))[k],
                ),
        decreases n - i,
    {
        proof {
            lemma_valid_entries_push(entries@.take(i as int), entries@[i as int]);
            assert(entries@.take(i + 1 as int) =~= entries@.take(i as int).push(
                entries@[i as int],
            ));
        }
        let e = &entries[i];
        match transcript_id(e.file_name.as_str()) {
            Some(id) => {
                let project_path = decode_project_dir(e.dir_name.as_str());
                let s = Session::load(e.content.as_str(), id, project_path, e.last_modified);
                out.push(s);
            },
            None => {},
        }
        i = i + 1;
    }
    proof {
        assert(entries@.take(n as int) =~= entries@);
    }
    out
}

/// Newest first: no later entry has a greater modification time.
pub open spec fn sorted_desc(s: Seq<Session>) -> bool {
    forall|i: int, j: int|
        0 <= i < j < s.len() ==> s[i].last_modified >= s[j].last_modified
}

fn max_index(v: &Vec<Session>) -> (r: usize)
    requires
        v@.len() > 0,
    ensures
        r < v@.len(),
        forall|k: int| 0 <= k < v@.len() ==> v@[r as int].last_modified >= v@[k].last_modified,
{
    let n = v.len();
    let mut best: usize = 0;
    let mut i: usize = 1;
    while i < n
        invariant
            best < i <= n,
            n == v@.len(),
            forall|k: int| 0 <= k < i ==> v@[best as int].last_modified >= v@[k].last_modified,
        decreases n - i,
    {
        if v[i].last_modified > v[best].last_modified {
            best = i;
        }
        i = i + 1;
    }
    best
}

/// Orders sessions newest first.  The result holds exactly the given
/// sessions; among equal modification times the earlier of the given order
/// comes first.
pub fn sort_sessions(sessions: Vec<Session>) -> (r: Vec<Session>)
    ensures
        sorted_desc(r@),
        r@.to_multiset() == sessions@.to_multiset(),
{
    let mut rest = sessions;
    let mut out: Vec<Session> = Vec::new();
    proof {
        assert(out@.to_multiset().add(rest@.to_multiset()) =~= rest@.to_multiset());
    }
    while rest.len() > 0
        invariant
            sorted_desc(out@),
            forall|a: int, b: int|
                0 <= a < out@.len() && 0 <= b < rest@.len() ==> out@[a].last_modified
                    >= rest@[b].last_modified,
            out@.to_multiset().add(rest@.to_multiset()) == sessions@.to_multiset(),
        decreases rest.len(),
    {
        let mi = max_index(&rest);
        let ghost old_rest = rest@;
        let ghost old_out = out@;
        let m = rest.remove(mi);
        out.push(m);
        proof {
            assert(old_rest.contains(old_rest[mi as int]));
            assert(old_rest.to_multiset().count(m) > 0);
            assert(out@.to_multiset().add(rest@.to_multiset()) =~= old_out.to_multiset().add(
                old_rest.to_multiset(),
            ));
            assert forall|a: int, b: int|
                0 <= a < out@.len() && 0 <= b < rest@.len() implies out@[a].last_modified
                >= rest@[b].last_modified by {
                assert(rest@[b] == old_rest.remove(mi as int)[b]);
            }
        }
    }
    out
}

/// The catalog for a set of scanned files: every transcript parsed, newest
/// first.  An empty scan yields an empty catalog.
pub fn build_catalog(entries: Vec<ScanEntry>) -> (r: Vec<Session>)
    ensures
        sorted_desc(r@),
        r@.to_multiset().len() == valid_entries(entries@).len(),
        forall|k: int| 0 <= k < r@.len() ==> from_some_entry(#[trigger] r@[k], entries@),
        entries@.len() == 0 ==> r@.len() == 0,
{
    let loaded = load_sessions(entries);
    let ghost loaded_view = loaded@;
    let r = sort_sessions(loaded);
    proof {
        assert(loaded_view.to_multiset().len() == loaded_view.len());
        assert(r@.to_multiset().len() == loaded_view.len());
        assert forall|k: int| 0 <= k < r@.len() implies from_some_entry(r@[k], entries@) by {
            assert(r@.contains(r@[k]));
            assert(r@.to_multiset().count(r@[k]) > 0);
            assert(loaded_view.to_multiset().count(r@[k]) > 0);
            assert(loaded_view.contains(r@[k]));
            let j = choose|i: int| 0 <= i < loaded_view.len() && loaded_view[i] == r@[k];
            assert(0 <= j < valid_entries(entries@).len());
            assert(session_from_entry(loaded_view[j], valid_entries(entries@)[j]));
            assert(session_from_entry(r@[k], valid_entries(entries@)[j]));
        }
        assert(r@.len() == r@.to_multiset().len());
    }
    r
}

/// The next entry in the browsing order, wrapping at the end; out of an
/// empty catalog the selection stays put.
pub fn next_selection(selected: usize, len: usize) -> (r: usize)
    ensures
        len == 0 ==> r == selected,
        len > 0 ==> r == ((selected + 1) % (len as int)),
{
    if len == 0 {
        selected
    } else {
        let s0 = selected % len;
        proof {
            let s = selected as int;
            let n = len as int;
            assert((s % n + 1) % n == (s + 1) % n) by (nonlinear_arith)
                requires
                    n > 0,
            ;
        }
        (s0 + 1) % len
    }
}

/// The previous entry in the browsing order, wrapping at the start; out of
/// an empty catalog the selection stays put.
pub fn prev_selection(selected: usize, len: usize) -> (r: usize)
    ensures
        len == 0 ==> r == selected,
        len > 0 && selected == 0 ==> r == len - 1,
        len > 0 && selected > 0 ==> r == selected - 1,
{
    if len == 0 {
        selected
    } else if selected == 0 {
        len - 1
    } else {
        selected - 1
    }
}

/// The selection clamped back into a shrunken catalog.
pub fn clamp_selection(selected: usize, len: usize) -> (r: usize)
    ensures
        r == if selected >= len && len > 0 {
            (len - 1) as int
        } else {
            selected as int
        },
{
    if selected >= len && len > 0 {
        len - 1
    } else {
        selected
    }
}

} // verus!
