//! The export codec: a session becomes a versioned, compressed container.
//!
//! The container is a JSON object — format version, export stamp, exporter
//! identity, and a value snapshot of the session — gzip-compressed.  The
//! caller writes the bytes wherever they should land; the default file name
//! is derived here from a time stamp and a sanitized slug of the summary.

use vstd::prelude::*;
use vstd::string::StringExecFns;
use crate::message::{SessionMessage, clone_opt_string, opt_view};
use crate::session::Session;
use crate::shims::{
    ContainerFields,
    alnum,
    char_is_alphanumeric,
    container_messages,
    container_meta,
    decoded_line,
    encode_container_json,
    encode_session_json,
    gzip_compress_text,
    host_name,
    inflated_text,
    lower_of,
    lowercase,
    now_rfc3339,
    now_stamp,
    session_obj,
};
use crate::text::{chars_of, string_from_chars};

verus! {

/// The container format version this crate writes.
pub fn container_version() -> (r: &'static str)
    ensures
        r@ == "1.0.0"@,
{
    "1.0.0"
}

/// The value snapshot of a session inside a container: the session's
/// fields, decoupled from the filesystem.
pub struct SessionData {
    /// The session's id.
    pub id: String,
    /// The path the session was originally recorded against.
    pub project_path: String,
    /// The session's messages, in order.
    pub messages: Vec<SessionMessage>,
    /// The session's summary.
    pub summary: String,
    /// The session's branch, when one was seen.
    pub git_branch: Option<String>,
}

impl SessionData {
    /// Every message's fields agree with its raw line.
    pub open spec fn wf(self) -> bool {
        forall|i: int| 0 <= i < self.messages@.len() ==> (#[trigger] self.messages@[i]).wf()
    }

    /// The raw record lines of the messages, in order.
    pub open spec fn raw_lines(self) -> Seq<Seq<char>> {
        self.messages@.map_values(|m: SessionMessage| m.raw@)
    }
}

/// A container, decoded or about to be encoded: self-describing metadata
/// plus the session snapshot.
pub struct ExportedSession {
    /// The container format version.
    pub version: String,
    /// When the export was made, RFC 3339.
    pub exported_at: String,
    /// Who made the export, as `user@host`.
    pub exported_by: String,
    /// The session snapshot.
    pub session: SessionData,
}

impl ExportedSession {
    /// The snapshot's messages are well formed.
    pub open spec fn wf(self) -> bool {
        self.session.wf()
    }

    /// The metadata fields, as container decoding yields them.
    pub open spec fn meta_fields(self) -> ContainerFields {
        (
            self.version@,
            self.exported_at@,
            self.exported_by@,
            self.session.id@,
            self.session.project_path@,
            self.session.summary@,
            opt_view(self.session.git_branch),
        )
    }

    /// A snapshot of `session`, stamped with the given time and identity.
    pub fn from_session(session: &Session, exported_at: String, exported_by: String) -> (r:
        ExportedSession)
        ensures
            r.version@ == "1.0.0"@,
            r.exported_at == exported_at,
            r.exported_by == exported_by,
            r.session.id == session.id,
            r.session.project_path == session.project_path,
            r.session.summary == session.summary,
            r.session.git_branch == session.git_branch,
            r.session.messages@ == session.messages@,
            session.wf() ==> r.wf(),
    {
        let messages = duplicate_messages(&session.messages);
        ExportedSession {
            version: String::from_str(container_version()),
            exported_at,
            exported_by,
            session: SessionData {
                id: session.id.clone(),
                project_path: session.project_path.clone(),
                messages,
                summary: session.summary.clone(),
                git_branch: clone_opt_string(&session.git_branch),
            },
        }
    }

    /// The container bytes for this snapshot: the serialized container,
    /// compressed.  Fails only when a message's raw line does not parse,
    /// which a well-formed snapshot rules out.
    pub fn container_bytes(&self) -> (r: Option<Vec<u8>>)
        ensures
            self.wf() ==> r is Some,
            r matches Some(b) ==> container_holds(b@, *self),
    {
        proof {
            if self.wf() {
                assert forall|i: int| 0 <= i < self.session.messages@.len() implies decoded_line(
                    #[trigger] self.session.messages@[i].raw@,
                ) is Some by {
                    assert(self.session.messages@[i].wf());
                }
            }
        }
        let sj = match encode_session_json(&self.session) {
            Some(t) => t,
            None => {
                return None;
            },
        };
        let full = encode_container_json(
            self.version.as_str(),
            self.exported_at.as_str(),
            self.exported_by.as_str(),
            sj.as_str(),
        );
        match full {
            Some(t) => {
                proof {
                    let d = self.session;
                    assert(sj@ == session_obj(
                        d.id@,
                        d.project_path@,
                        d.summary@,
                        opt_view(d.git_branch),
                        d.raw_lines(),
                    ));
                }
                Some(gzip_compress_text(t.as_str()))
            },
            None => None,
        }
    }
}

/// Whether `bytes` is a container holding exactly the snapshot `e`:
/// decompression yields a text whose metadata is `e`'s, and whose messages
/// decode, line by line, to the fields of `e`'s messages.
pub open spec fn container_holds(bytes: Seq<u8>, e: ExportedSession) -> bool {
    &&& inflated_text(bytes) matches Some(t)
    &&& container_meta(t) == Some(e.meta_fields())
    &&& container_messages(t) matches Some(ms)
    &&& ms.len() == e.session.messages@.len()
    &&& forall|i: int|
        0 <= i < ms.len() ==> decoded_line(#[trigger] ms[i]) == decoded_line(
            e.session.messages@[i].raw@,
        )
}

/// The metadata of a decoded container, messages aside.
pub struct ContainerInfo {
    /// The container format version.
    pub version: String,
    /// When the export was made.
    pub exported_at: String,
    /// Who made the export.
    pub exported_by: String,
    /// The session's id.
    pub id: String,
    /// The path the session was originally recorded against.
    pub project_path: String,
    /// The session's summary.
    pub summary: String,
    /// The session's branch, when one was recorded.
    pub git_branch: Option<String>,
}

impl ContainerInfo {
    /// The fields as container decoding yields them.
    pub open spec fn meta_view(self) -> ContainerFields {
        (
            self.version@,
            self.exported_at@,
            self.exported_by@,
            self.id@,
            self.project_path@,
            self.summary@,
            opt_view(self.git_branch),
        )
    }
}

/// A copy of a message vector.
fn duplicate_messages(msgs: &Vec<SessionMessage>) -> (r: Vec<SessionMessage>)
    ensures
        r@ == msgs@,
{
    let n = msgs.len();
    let mut out: Vec<SessionMessage> = Vec::new();
    let mut i: usize = 0;
    while i < n
        invariant
            i <= n,
            n == msgs@.len(),
            out@ == msgs@.subrange(0, i as int),
        decreases n - i,
    {
        out.push(msgs[i].duplicate());
        proof {
            assert(out@ =~= msgs@.subrange(0, i + 1 as int));
        }
        i = i + 1;
    }
    proof {
        assert(out@ =~= msgs@);
    }
    out
}

/// How many characters of the summary the file-name slug may use.
pub const SLUG_LIMIT: usize = 30;

/// Whether a character survives slug sanitization.
pub open spec fn slug_keep(c: char) -> bool {
    alnum(c) || c == ' ' || c == '-'
}

/// The character a kept character becomes: spaces turn into hyphens.
pub open spec fn slug_char(c: char) -> char {
    if c == ' ' {
        '-'
    } else {
        c
    }
}

/// Sanitization of a character sequence: drop everything but letters,
/// digits, spaces and hyphens, and hyphenate the spaces.
pub open spec fn spec_slug_chars(s: Seq<char>) -> Seq<char>
    decreases s.len(),
{
    if s.len() == 0 {
        s
    } else {
        let rest = spec_slug_chars(s.drop_first());
        if slug_keep(s[0]) {
            seq![slug_char(s[0])] + rest
        } else {
            rest
        }
    }
}

/// The file-name slug of a summary: the first [`SLUG_LIMIT`] characters,
/// sanitized, then lowercased.
pub open spec fn spec_slug(s: Seq<char>) -> Seq<char> {
    let t = if s.len() > SLUG_LIMIT {
        s.take(SLUG_LIMIT as int)
    } else {
        s
    };
    lower_of(spec_slug_chars(t))
}

/// The file-name slug of a summary.
pub fn slug(summary: &str) -> (r: String)
    ensures
        r@ == spec_slug(summary@),
{
    let cs = chars_of(summary);
    let n = cs.len();
    let limit = if n > SLUG_LIMIT {
        SLUG_LIMIT
    } else {
        n
    };
    let ghost t = if summary@.len() > SLUG_LIMIT {
        summary@.take(SLUG_LIMIT as int)
    } else {
        summary@
    };
    proof {
        assert(t =~= summary@.take(limit as int));
        assert(t.skip(0) =~= t);
    }
    let mut out: Vec<char> = Vec::new();
    let mut i: usize = 0;
    while i < limit
        invariant
            i <= limit,
            limit <= n,
            n == cs@.len(),
            cs@ == summary@,
            t == summary@.take(limit as int),
            spec_slug_chars(t) == out@ + spec_slug_chars(t.skip(i as int)),
        decreases limit - i,
    {
        proof {
            assert(t.skip(i as int)[0] == t[i as int]);
            assert(t[i as int] == summary@[i as int]);
            assert(t.skip(i as int).drop_first() =~= t.skip(i + 1 as int));
        }
        let c = cs[i];
        let keep = char_is_alphanumeric(c) || c == ' ' || c == '-';
        if keep {
            if c == ' ' {
                out.push('-');
            } else {
                out.push(c);
            }
            proof {
                assert(spec_slug_chars(t) =~= out@ + spec_slug_chars(t.skip(i + 1 as int)));
            }
        } else {
            proof {
                assert(spec_slug_chars(t) =~= out@ + spec_slug_chars(t.skip(i + 1 as int)));
            }
        }
        i = i + 1;
    }
    proof {
        assert(t.skip(limit as int) =~= Seq::<char>::empty());
        assert(out@ =~= spec_slug_chars(t));
    }
    let s = string_from_chars(&out);
    lowercase(s.as_str())
}

/// The default container file name: the stamp, the summary's slug and the
/// container extension.
pub fn export_file_name(stamp: &str, summary: &str) -> (r: String)
    ensures
        r@ == stamp@ + "-"@ + spec_slug(summary@) + ".json.gz"@,
{
    let mut s = String::from_str(stamp);
    s.append("-");
    let sl = slug(summary);
    s.append(sl.as_str());
    s.append(".json.gz");
    proof {
        assert(s@ =~= stamp@ + "-"@ + spec_slug(summary@) + ".json.gz"@);
    }
    s
}

/// The user part of an exporter identity: the given user, or a fixed
/// placeholder.
pub open spec fn identity_user_part(user: Option<Seq<char>>) -> Seq<char> {
    match user {
        Some(u) => u,
        None => "unknown"@,
    }
}

/// Whether `by` is an exporter identity for `user`: the user part — the
/// placeholder when no user is known — followed by `@` and some host name.
pub open spec fn identity_shape(by: Seq<char>, user: Option<Seq<char>>) -> bool {
    exists|host: Seq<char>| by == identity_user_part(user) + "@"@ + host
}

/// The exporter identity `user@host`.  A missing user or host falls back
/// to a placeholder; resolving them never fails an export.
pub fn export_identity(user: Option<String>) -> (r: String)
    ensures
        identity_shape(r@, opt_view(user)),
{
    let ghost u = opt_view(user);
    let mut s = match user {
        Some(name) => name,
        None => String::from_str("unknown"),
    };
    s.append("@");
    let host = match host_name() {
        Some(h) => h,
        None => String::from_str("unknown"),
    };
    s.append(host.as_str());
    proof {
        assert(s@ == identity_user_part(u) + "@"@ + host@);
    }
    s
}

/// Everything a caller needs to materialize an export: the snapshot, the
/// derived file name and the container bytes.
pub struct ExportPlan {
    /// The snapshot the bytes hold.
    pub exported: ExportedSession,
    /// The derived container file name.
    pub file_name: String,
    /// The container bytes, ready to be written.
    pub bytes: Vec<u8>,
}

/// Exports a session: snapshots it, stamped with the current time and the
/// exporter identity for `user`, and packs it into container bytes under a
/// derived file name.  Fails only when a message's raw line does not
/// parse, which a well-formed session rules out.
pub fn export_session(session: &Session, user: Option<String>) -> (r: Option<ExportPlan>)
    ensures
        session.wf() ==> r is Some,
        r matches Some(p) ==> {
            &&& p.exported.version@ == "1.0.0"@
            &&& p.exported.session.id == session.id
            &&& p.exported.session.project_path == session.project_path
            &&& p.exported.session.summary == session.summary
            &&& p.exported.session.git_branch == session.git_branch
            &&& p.exported.session.messages@ == session.messages@
            &&& identity_shape(p.exported.exported_by@, opt_view(user))
            &&& container_holds(p.bytes@, p.exported)
            &&& exists|stamp: Seq<char>|
                p.file_name@ == stamp + "-"@ + spec_slug(session.summary@) + ".json.gz"@
        },
{
    let at = now_rfc3339();
    let by = export_identity(user);
    let exported = ExportedSession::from_session(session, at, by);
    let stamp = now_stamp();
    let file_name = export_file_name(stamp.as_str(), session.summary.as_str());
    let ghost stamp_view = stamp@;
    match exported.container_bytes() {
        Some(bytes) => {
            proof {
                assert(file_name@ == stamp_view + "-"@ + spec_slug(session.summary@)
                    + ".json.gz"@);
            }
            Some(ExportPlan { exported, file_name, bytes })
        },
        None => None,
    }
}

} // verus!
