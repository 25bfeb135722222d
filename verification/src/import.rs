//! The import codec: a container becomes a record file again, relocated.
//!
//! Importing decompresses and decodes the container — any structural or
//! version mismatch is fatal, there is no partial import — then rewrites,
//! in every message whose `cwd` equals the container's original project
//! path, that field to the new target path.  A `cwd` pointing anywhere
//! else is left untouched: only references to the session's own original
//! location are relocated.  The destination record file's location is
//! derived deterministically from the target path and the session id, so
//! importing the same container to the same target twice lands on the same
//! file.

use vstd::prelude::*;
use vstd::string::StringExecFns;
use crate::catalog::{encode_project_path, spec_encode_path};
use crate::export::{ExportedSession, SessionData, container_holds};
use crate::message::SessionMessage;
use crate::shims::{
    LineFields,
    container_messages,
    container_meta,
    decode_line,
    decode_container_messages,
    decode_container_meta,
    decoded_line,
    gzip_decompress_text,
    inflated_text,
    registry_updated,
    registry_with_last_session,
    rewritten_cwd,
    set_cwd,
};
use crate::text::str_eq;

verus! {

/// Why a container could not be imported.
#[derive(Clone, Copy, Debug, PartialEq, Eq, Structural)]
pub enum ImportError {
    /// The bytes are not a gzip stream holding text.
    Compression,
    /// The text is not a container of the expected shape.
    Format,
    /// The container's format version is not one this crate reads.
    Version,
}

/// Whether the bytes decompress and decode as a container: gzip over a
/// JSON object with the metadata fields and a message array whose every
/// element is a record.
pub open spec fn spec_container_ok(data: Seq<u8>) -> bool {
    &&& inflated_text(data) matches Some(t)
    &&& container_meta(t) matches Some(m)
    &&& container_messages(t) matches Some(ms)
    &&& forall|i: int| 0 <= i < ms.len() ==> decoded_line(#[trigger] ms[i]) is Some
}

/// Whether the bytes are an importable container: well shaped, and of the
/// format version this crate reads.
pub open spec fn spec_import_ok(data: Seq<u8>) -> bool {
    &&& spec_container_ok(data)
    &&& (container_meta(inflated_text(data)->0)->0).0 == "1.0.0"@
}

/// One message line as the import writes it: rewritten when its `cwd`
/// equals the original project path and the target differs, else verbatim.
pub open spec fn spec_rewrite_line(line: Seq<char>, orig: Seq<char>, target: Seq<char>) -> Seq<
    char,
> {
    if decoded_line(line) matches Some(f) && f.3 == Some(orig) && orig != target {
        rewritten_cwd(line, target)
    } else {
        line
    }
}

/// The fields of a written line: those of the decoded source line, with
/// `cwd` replaced by the target wherever it equalled the original path.
pub open spec fn spec_rewritten_fields(f: LineFields, orig: Seq<char>, target: Seq<char>) -> LineFields {
    (f.0, f.1, f.2, if f.3 == Some(orig) {
        Some(target)
    } else {
        f.3
    })
}

/// Every message line of the import of `data` to `target`, in order.
pub open spec fn spec_import_lines(data: Seq<u8>, target: Seq<char>) -> Seq<Seq<char>> {
    let t = inflated_text(data)->0;
    let m = container_meta(t)->0;
    let ms = container_messages(t)->0;
    ms.map(|i: int, l: Seq<char>| spec_rewrite_line(l, m.4, target))
}

/// Lines joined into a record file's text: each line followed by one
/// newline.
pub open spec fn spec_joined(lines: Seq<Seq<char>>) -> Seq<char>
    decreases lines.len(),
{
    if lines.len() == 0 {
        Seq::empty()
    } else {
        lines[0] + seq!['\n'] + spec_joined(lines.drop_first())
    }
}

/// Everything a caller must write to materialize an import: the record
/// file's location, its text, and what the registry entry should point at.
#[derive(Debug)]
pub struct ImportPlan {
    /// The directory name for the target path under the sessions root.
    pub project_dir_name: String,
    /// The record file's name: the session id and the record extension.
    pub file_name: String,
    /// The record file's lines, in order.
    pub record_lines: Vec<String>,
    /// The record file's whole text.
    pub record_text: String,
    /// The imported session's id.
    pub session_id: String,
    /// The target project path the import was made for.
    pub target_path: String,
}

/// Decompresses and decodes a container without touching anything: the
/// read-only preview.
pub fn preview_session(data: &Vec<u8>) -> (r: Result<ExportedSession, ImportError>)
    ensures
        r is Ok <==> spec_container_ok(data@),
        r == Result::<ExportedSession, ImportError>::Err(ImportError::Compression) <==> inflated_text(
            data@,
        ) is None,
        r matches Err(e) ==> e != ImportError::Version,
        r matches Ok(es) ==> {
            &&& inflated_text(data@) matches Some(t)
            &&& container_meta(t) == Some(es.meta_fields())
            &&& container_messages(t) matches Some(ms)
            &&& es.session.messages@.len() == ms.len()
            &&& forall|i: int|
                0 <= i < ms.len() ==> (#[trigger] es.session.messages@[i]).raw@ == ms[i]
                    && es.session.messages@[i].wf()
        },
{
    let text = match gzip_decompress_text(data) {
        Some(t) => t,
        None => {
            return Err(ImportError::Compression);
        },
    };
    let info = match decode_container_meta(text.as_str()) {
        Some(m) => m,
        None => {
            return Err(ImportError::Format);
        },
    };
    let msg_texts = match decode_container_messages(text.as_str()) {
        Some(v) => v,
        None => {
            return Err(ImportError::Format);
        },
    };
    let n = msg_texts.len();
    let mut messages: Vec<SessionMessage> = Vec::new();
    let mut i: usize = 0;
    while i < n
        invariant
            i <= n,
            n == msg_texts@.len(),
            inflated_text(data@) == Some(text@),
            container_meta(text@) == Some(info.meta_view()),
            container_messages(text@) == Some(msg_texts.deep_view()),
            messages@.len() == i,
            forall|j: int|
                0 <= j < i ==> (#[trigger] messages@[j]).raw@ == msg_texts.deep_view()[j]
                    && messages@[j].wf(),
        decreases n - i,
    {
        match decode_line(msg_texts[i].as_str()) {
            Some(m) => {
                messages.push(m);
            },
            None => {
                proof {
                    assert(decoded_line(msg_texts.deep_view()[i as int]) is None);
                }
                return Err(ImportError::Format);
            },
        }
        i = i + 1;
    }
    proof {
        let ghost msv = msg_texts.deep_view();
        assert forall|j: int| 0 <= j < msv.len() implies decoded_line(#[trigger] msv[j]) is Some by {
            assert(messages@[j].raw@ == msv[j]);
            assert(messages@[j].wf());
        }
        assert(spec_container_ok(data@));
    }
    Ok(
        ExportedSession {
            version: info.version,
            exported_at: info.exported_at,
            exported_by: info.exported_by,
            session: SessionData {
                id: info.id,
                project_path: info.project_path,
                messages,
                summary: info.summary,
                git_branch: info.git_branch,
            },
        },
    )
}

/// Plans the import of a container to a target project path.
///
/// Nothing is written here: the plan holds the derived record file
/// location — the same container and target always derive the same
/// location — and the record text, with every message whose `cwd` equals
/// the container's original project path rewritten to the target, and
/// every other message kept verbatim.
pub fn import_session(data: &Vec<u8>, target: &str) -> (r: Result<ImportPlan, ImportError>)
    ensures
        r is Ok <==> spec_import_ok(data@),
        r == Result::<ImportPlan, ImportError>::Err(ImportError::Compression) <==> inflated_text(
            data@,
        ) is None,
        r == Result::<ImportPlan, ImportError>::Err(ImportError::Version) <==> (spec_container_ok(
            data@,
        ) && !spec_import_ok(data@)),
        r matches Ok(p) ==> {
            let t = inflated_text(data@)->0;
            let m = container_meta(t)->0;
            let ms = container_messages(t)->0;
            &&& p.session_id@ == m.3
            &&& p.target_path@ == target@
            &&& p.project_dir_name@ == spec_encode_path(target@)
            &&& p.file_name@ == m.3 + ".jsonl"@
            &&& p.record_lines@.len() == ms.len()
            &&& p.record_lines.deep_view() == spec_import_lines(data@, target@)
            &&& forall|i: int|
                0 <= i < ms.len() ==> decoded_line(#[trigger] p.record_lines.deep_view()[i])
                    == Some(spec_rewritten_fields(decoded_line(ms[i])->0, m.4, target@))
            &&& p.record_text@ == spec_joined(p.record_lines.deep_view())
        },
{
    let text = match gzip_decompress_text(data) {
        Some(t) => t,
        None => {
            return Err(ImportError::Compression);
        },
    };
    let info = match decode_container_meta(text.as_str()) {
        Some(m) => m,
        None => {
            return Err(ImportError::Format);
        },
    };
    let msg_texts = match decode_container_messages(text.as_str()) {
        Some(v) => v,
        None => {
            return Err(ImportError::Format);
        },
    };
    let ghost ms = msg_texts.deep_view();
    let n = msg_texts.len();
    let mut messages: Vec<SessionMessage> = Vec::new();
    let mut i: usize = 0;
    while i < n
        invariant
            i <= n,
            n == msg_texts@.len(),
            ms == msg_texts.deep_view(),
            inflated_text(data@) == Some(text@),
            container_meta(text@) == Some(info.meta_view()),
            container_messages(text@) == Some(ms),
            messages@.len() == i,
            forall|j: int|
                0 <= j < i ==> (#[trigger] messages@[j]).raw@ == ms[j] && messages@[j].wf(),
        decreases n - i,
    {
        match decode_line(msg_texts[i].as_str()) {
            Some(m) => {
                messages.push(m);
            },
            None => {
                proof {
                    assert(decoded_line(ms[i as int]) is None);
                }
                return Err(ImportError::Format);
            },
        }
        i = i + 1;
    }
    proof {
        assert forall|j: int| 0 <= j < ms.len() implies decoded_line(#[trigger] ms[j]) is Some by {
            assert(messages@[j].raw@ == ms[j]);
            assert(messages@[j].wf());
        }
        assert(spec_container_ok(data@));
    }
    let version_ok = str_eq(info.version.as_str(), "1.0.0");
    if !version_ok {
        return Err(ImportError::Version);
    }
    let orig_eq_target = str_eq(info.project_path.as_str(), target);
    let mut record_lines: Vec<String> = Vec::new();
    let mut i: usize = 0;
    while i < n
        invariant
            i <= n,
            n == msg_texts@.len(),
            ms == msg_texts.deep_view(),
            container_messages(text@) == Some(ms),
            inflated_text(data@) == Some(text@),
            container_meta(text@) == Some(info.meta_view()),
            orig_eq_target <==> info.project_path@ == target@,
            messages@.len() == n,
            forall|j: int|
                0 <= j < n ==> (#[trigger] messages@[j]).raw@ == ms[j] && messages@[j].wf(),
            record_lines@.len() == i,
            forall|j: int|
                0 <= j < i ==> #[trigger] record_lines.deep_view()[j] == spec_rewrite_line(
                    ms[j],
                    info.project_path@,
                    target@,
                ),
            forall|j: int|
                0 <= j < i ==> decoded_line(#[trigger] record_lines.deep_view()[j]) == Some(
                    spec_rewritten_fields(decoded_line(ms[j])->0, info.project_path@, target@),
                ),
        decreases n - i,
    {
        let m = &messages[i];
        let ghost f = decoded_line(ms[i as int])->0;
        proof {
            assert(messages@[i as int].wf());
            assert(messages@[i as int].raw@ == ms[i as int]);
        }
        let needs_rewrite: bool = !orig_eq_target && (match &m.cwd {
            Some(c) => str_eq(c.as_str(), info.project_path.as_str()),
            None => false,
        });
        let ghost old_lines = record_lines.deep_view();
        if needs_rewrite {
            proof {
                assert(f.3 == Some(info.project_path@));
                assert(spec_rewrite_line(ms[i as int], info.project_path@, target@)
                    == rewritten_cwd(ms[i as int], target@));
            }
            match set_cwd(m.raw.as_str(), target) {
                Some(t2) => {
                    proof {
                        assert(t2@ == rewritten_cwd(ms[i as int], target@));
                        assert(decoded_line(t2@) == Some((f.0, f.1, f.2, Some(target@))));
                        assert(spec_rewritten_fields(f, info.project_path@, target@) == (
                        f.0,
                        f.1,
                        f.2,
                        Some(target@),
                        ));
                    }
                    record_lines.push(t2);
                },
                None => {
                    proof {
                        assert(false);
                    }
                },
            }
        } else {
            let copy = m.raw.clone();
            proof {
                assert(copy@ == ms[i as int]);
                assert(spec_rewrite_line(ms[i as int], info.project_path@, target@) == ms[
                    i as int
                ]);
                if f.3 == Some(info.project_path@) {
                    assert(info.project_path@ == target@);
                    assert(spec_rewritten_fields(f, info.project_path@, target@) == f);
                } else {
                    assert(spec_rewritten_fields(f, info.project_path@, target@) == f);
                }
            }
            record_lines.push(copy);
        }
        proof {
            assert(record_lines.deep_view() =~~= old_lines.push(record_lines@[i as int]@));
        }
        i = i + 1;
    }
    let project_dir_name = encode_project_path(target);
    let mut file_name = info.id.clone();
    file_name.append(".jsonl");
    let mut record_text = String::new();
    let ghost lines = record_lines.deep_view();
    proof {
        reveal_strlit("\n");
        assert("\n"@ =~= seq!['\n']);
        assert(lines.skip(0) =~= lines);
    }
    let k_max = record_lines.len();
    let mut k: usize = 0;
    while k < k_max
        invariant
            k <= k_max,
            k_max == record_lines@.len(),
            lines == record_lines.deep_view(),
            "\n"@ == seq!['\n'],
            spec_joined(lines) == record_text@ + spec_joined(lines.skip(k as int)),
        decreases k_max - k,
    {
        proof {
            assert(lines.skip(k as int)[0] == lines[k as int]);
            assert(lines.skip(k as int).drop_first() =~= lines.skip(k + 1 as int));
        }
        record_text.append(record_lines[k].as_str());
        record_text.append("\n");
        proof {
            assert(spec_joined(lines) =~= record_text@ + spec_joined(lines.skip(k + 1 as int)));
        }
        k = k + 1;
    }
    proof {
        assert(spec_joined(lines.skip(k_max as int)) =~= Seq::<char>::empty());
        assert(record_text@ =~= spec_joined(lines));
        assert(record_lines.deep_view() =~= spec_import_lines(data@, target@));
    }
    Ok(
        ImportPlan {
            project_dir_name,
            file_name,
            record_lines,
            record_text,
            session_id: info.id,
            target_path: String::from_str(target),
        },
    )
}

/// The registry document with the entry for the imported session's target
/// path pointed at its id.  An entry that is absent stays absent — the
/// update is then a no-op on the document's content — and a registry text
/// that does not parse yields nothing, which the caller reports as a
/// failure.
pub fn updated_registry(cfg: &str, path: &str, id: &str) -> (r: Option<String>)
    ensures
        r matches Some(t) ==> registry_updated(cfg@, path@, id@) == Some(t@),
        r is None <==> registry_updated(cfg@, path@, id@) is None,
{
    registry_with_last_session(cfg, path, id)
}

/// Relocating a line to its own original path changes nothing.
pub proof fn lemma_rewrite_noop(line: Seq<char>, orig: Seq<char>)
    ensures
        spec_rewrite_line(line, orig, orig) == line,
{
}

/// The round trip: a container exported from a session and imported back
/// at the session's own project path keeps every message line verbatim —
/// the rewrite is a no-op — and the written lines decode to exactly the
/// fields of the session's own messages.  The derived record location and
/// text are functions of the container and the target alone, so repeating
/// the import overwrites the same file with the same text.
pub proof fn lemma_export_import_round_trip(bytes: Seq<u8>, e: ExportedSession)
    requires
        container_holds(bytes, e),
        e.version@ == "1.0.0"@,
        e.wf(),
    ensures
        spec_import_ok(bytes),
        spec_import_lines(bytes, e.session.project_path@) == container_messages(
            inflated_text(bytes)->0,
        )->0,
        forall|i: int|
            0 <= i < e.session.messages@.len() ==> decoded_line(
                #[trigger] spec_import_lines(bytes, e.session.project_path@)[i],
            ) == decoded_line(e.session.messages@[i].raw@),
{
    let t = inflated_text(bytes)->0;
    let m = container_meta(t)->0;
    let ms = container_messages(t)->0;
    assert forall|i: int| 0 <= i < ms.len() implies decoded_line(#[trigger] ms[i]) is Some by {
        assert(e.session.messages@[i].wf());
        assert(decoded_line(ms[i]) == decoded_line(e.session.messages@[i].raw@));
    }
    assert(spec_container_ok(bytes));
    assert(m.0 == e.version@);
    let target = e.session.project_path@;
    assert(m.4 == target);
    assert forall|i: int| 0 <= i < ms.len() implies #[trigger] spec_import_lines(bytes, target)[i]
        == ms[i] by {
        lemma_rewrite_noop(ms[i], target);
    }
    assert(spec_import_lines(bytes, target) =~= ms);
}

} // verus!
