//! Trusted bindings to the outside crates the library leans on.
//!
//! Everything verified in this crate works on plain values: strings,
//! characters, bytes.  Where those values come out of, or go into, an outside
//! crate — serde_json for JSON, flate2 for gzip, chrono for the clock,
//! hostname for the machine name — the call stands here, behind a small
//! function whose contract Verus believes without reading the body.
//!
//! A result that is a function of the arguments alone but too big to write
//! out (what serde_json decodes out of a line, what gzip decompression
//! yields) is given a name: a spec function without a body.  The wrappers'
//! contracts speak of those names, and the verified code reasons through
//! them.

use vstd::prelude::*;
use crate::message::SessionMessage;

verus! {

/// What decoding one record line yields: the `type` discriminator, the
/// `gitBranch` string, the `message.content` string and the `cwd` string,
/// the last three only when present.  `None` when the line is not a JSON
/// object carrying a string `type` field.
pub type LineFields = (Seq<char>, Option<Seq<char>>, Option<Seq<char>>, Option<Seq<char>>);

/// The fields serde_json decodes out of one record line, a function of the
/// line alone.
pub uninterp spec fn decoded_line(line: Seq<char>) -> Option<LineFields>;

/// Relies on serde_json::from_str and the Value accessors: decodes one JSON
/// object and hands over its `type`, `gitBranch`, `message.content` and
/// `cwd` string fields, next to the raw line itself.
#[verifier::external_body]
pub(crate) fn decode_line(line: &str) -> (r: Option<SessionMessage>)
    ensures
        r is Some <==> decoded_line(line@) is Some,
        r matches Some(m) ==> m.raw@ == line@ && m.wf(),
{
    let v: serde_json::Value = serde_json::from_str(line).ok()?;
    let msg_type = v.get("type")?.as_str()?.to_string();
    let git_branch = v.get("gitBranch").and_then(|b| b.as_str()).map(str::to_string);
    let content = v.get("message").and_then(|m| m.get("content")).and_then(|c| c.as_str()).map(
        str::to_string,
    );
    let cwd = v.get("cwd").and_then(|c| c.as_str()).map(str::to_string);
    Some(SessionMessage { raw: line.to_string(), msg_type, git_branch, content, cwd })
}

/// The record line again, with its `cwd` field set to `cwd`: a function of
/// the two arguments alone.
pub uninterp spec fn rewritten_cwd(line: Seq<char>, cwd: Seq<char>) -> Seq<char>;

/// Relies on serde_json: parses the line, sets its `cwd` field and
/// serializes the object again.  Since serde_json's maps are ordered and its
/// serializer is deterministic, the result is a function of the arguments;
/// setting `cwd` leaves every other field of the object as it was, so the
/// decoded fields of the result are those of the line with only `cwd`
/// replaced.
#[verifier::external_body]
pub(crate) fn set_cwd(line: &str, cwd: &str) -> (r: Option<String>)
    ensures
        decoded_line(line@) is Some ==> r is Some,
        r matches Some(t) ==> t@ == rewritten_cwd(line@, cwd@),
        r matches Some(t) ==> (decoded_line(line@) matches Some(f) ==> decoded_line(t@) == Some(
            (f.0, f.1, f.2, Some(cwd@)),
        )),
{
    let mut v: serde_json::Value = serde_json::from_str(line).ok()?;
    let obj = v.as_object_mut()?;
    obj.insert("cwd".to_string(), serde_json::Value::String(cwd.to_string()));
    serde_json::to_string(&v).ok()
}

/// The text a gzip stream decompresses to, when it is a well-formed gzip
/// stream holding UTF-8 text: a function of the bytes alone.
pub uninterp spec fn inflated_text(data: Seq<u8>) -> Option<Seq<char>>;

/// Relies on flate2's GzEncoder: gzip-compresses the text, so that gzip
/// decompression of the result recovers the text exactly.  Writing into an
/// in-memory buffer, the encoder does not fail.
#[verifier::external_body]
pub(crate) fn gzip_compress_text(text: &str) -> (r: Vec<u8>)
    ensures
        inflated_text(r@) == Some(text@),
{
    let mut enc = flate2::write::GzEncoder::new(Vec::new(), flate2::Compression::default());
    std::io::Write::write_all(&mut enc, text.as_bytes()).expect("gzip write");
    enc.finish().expect("gzip finish")
}

/// Relies on flate2's GzDecoder: decompresses a gzip stream into the UTF-8
/// text it holds, and reports bad streams and non-text contents as `None`.
#[verifier::external_body]
pub(crate) fn gzip_decompress_text(data: &Vec<u8>) -> (r: Option<String>)
    ensures
        r matches Some(t) ==> inflated_text(data@) == Some(t@),
        r is None ==> inflated_text(data@) is None,
{
    let mut dec = flate2::read::GzDecoder::new(&data[..]);
    let mut s = String::new();
    match std::io::Read::read_to_string(&mut dec, &mut s) {
        Ok(_) => Some(s),
        Err(_) => None,
    }
}

/// What decoding a container text yields, messages aside: the format
/// version, the export stamp, the exporter identity, and the session's id,
/// project path, summary and branch.  `None` when the text is not a JSON
/// object of that shape.
pub type ContainerFields = (Seq<char>, Seq<char>, Seq<char>, Seq<char>, Seq<char>, Seq<char>, Option<
    Seq<char>,
>);

/// The metadata serde_json decodes out of a container text, a function of
/// the text alone.
pub uninterp spec fn container_meta(text: Seq<char>) -> Option<ContainerFields>;

/// The message texts serde_json decodes out of a container text, each one
/// serialized back on its own: a function of the text alone.
pub uninterp spec fn container_messages(text: Seq<char>) -> Option<Seq<Seq<char>>>;

/// The text serde_json writes for a session snapshot's object — its id,
/// project path, summary, branch and parsed messages: a function of those
/// fields alone.
pub uninterp spec fn session_obj(
    id: Seq<char>,
    path: Seq<char>,
    summary: Seq<char>,
    branch: Option<Seq<char>>,
    msgs: Seq<Seq<char>>,
) -> Seq<char>;

/// Relies on serde_json: builds the session object out of the snapshot's
/// fields — each message's raw line parsed back into the object it came
/// from — and serializes it.  Building fails only when a raw line does not
/// parse, which a decodable line never does.
#[verifier::external_body]
pub(crate) fn encode_session_json(d: &crate::export::SessionData) -> (r: Option<String>)
    ensures
        (forall|i: int|
            0 <= i < d.messages@.len() ==> decoded_line(#[trigger] d.messages@[i].raw@)
                is Some) ==> r is Some,
        r matches Some(t) ==> t@ == session_obj(
            d.id@,
            d.project_path@,
            d.summary@,
            crate::message::opt_view(d.git_branch),
            d.raw_lines(),
        ),
{
    let vals: Result<Vec<serde_json::Value>, _> =
        d.messages.iter().map(|m| serde_json::from_str(&m.raw)).collect();
    let mut s = serde_json::Map::new();
    s.insert("id".to_string(), d.id.clone().into());
    s.insert("project_path".to_string(), d.project_path.clone().into());
    s.insert("messages".to_string(), vals.ok()?.into());
    s.insert("summary".to_string(), d.summary.clone().into());
    s.insert("git_branch".to_string(), d.git_branch.clone().map_or(serde_json::Value::Null, serde_json::Value::String));
    serde_json::to_string(&s).ok()
}

/// Relies on serde_json: wraps an already-serialized session object under
/// the container's metadata fields and serializes the whole.  serde_json's
/// parse inverts its serialize, so when the given text is the serialization
/// of a session object, decoding the result yields the metadata and the
/// session's fields back, and each re-read message line decodes to the same
/// fields as the line it came from.
#[verifier::external_body]
pub(crate) fn encode_container_json(
    version: &str,
    exported_at: &str,
    exported_by: &str,
    session_json: &str,
) -> (r: Option<String>)
    ensures
        (exists|id: Seq<char>, path: Seq<char>, summary: Seq<char>, branch: Option<Seq<char>>, msgs: Seq<Seq<char>>|
            session_json@ == session_obj(id, path, summary, branch, msgs)) ==> r is Some,
        r matches Some(t) ==> forall|id: Seq<char>, path: Seq<char>, summary: Seq<char>, branch: Option<Seq<char>>, msgs: Seq<Seq<char>>|
            session_json@ == #[trigger] session_obj(id, path, summary, branch, msgs)
                ==> container_meta(t@) == Some(
                (version@, exported_at@, exported_by@, id, path, summary, branch),
            ) && (container_messages(t@) matches Some(out) && out.len() == msgs.len()
                && forall|i: int|
                0 <= i < out.len() ==> decoded_line(#[trigger] out[i]) == decoded_line(msgs[i])),
{
    let sv: serde_json::Value = serde_json::from_str(session_json).ok()?;
    let mut c = serde_json::Map::new();
    c.insert("version".to_string(), version.into());
    c.insert("exported_at".to_string(), exported_at.into());
    c.insert("exported_by".to_string(), exported_by.into());
    c.insert("session".to_string(), sv);
    serde_json::to_string_pretty(&serde_json::Value::Object(c)).ok()
}

/// Relies on serde_json: decodes the container's metadata fields — the
/// string fields at the top and under `session`, with `git_branch` absent
/// or null counting as no branch.
#[verifier::external_body]
pub(crate) fn decode_container_meta(text: &str) -> (r: Option<crate::export::ContainerInfo>)
    ensures
        r is Some <==> container_meta(text@) is Some,
        r matches Some(m) ==> container_meta(text@) == Some(m.meta_view()),
{
    let v: serde_json::Value = serde_json::from_str(text).ok()?;
    let s = v.get("session")?;
    Some(crate::export::ContainerInfo {
        version: v.get("version")?.as_str()?.to_string(),
        exported_at: v.get("exported_at")?.as_str()?.to_string(),
        exported_by: v.get("exported_by")?.as_str()?.to_string(),
        id: s.get("id")?.as_str()?.to_string(),
        project_path: s.get("project_path")?.as_str()?.to_string(),
        summary: s.get("summary")?.as_str()?.to_string(),
        git_branch: s.get("git_branch").and_then(|b| b.as_str()).map(str::to_string),
    })
}

/// Relies on serde_json: decodes the container's `session.messages` array
/// and serializes each element back into one line of text.
#[verifier::external_body]
pub(crate) fn decode_container_messages(text: &str) -> (r: Option<Vec<String>>)
    ensures
        r is Some <==> container_messages(text@) is Some,
        r matches Some(v) ==> container_messages(text@) == Some(v.deep_view()),
{
    let v: serde_json::Value = serde_json::from_str(text).ok()?;
    let arr = v.get("session")?.get("messages")?.as_array()?;
    arr.iter().map(|m| serde_json::to_string(m).ok()).collect()
}

/// The registry text after pointing the entry for `path` at session `id`:
/// a function of the three arguments alone, absent when the registry text
/// does not parse.
pub uninterp spec fn registry_updated(cfg: Seq<char>, path: Seq<char>, id: Seq<char>) -> Option<
    Seq<char>,
>;

/// Relies on serde_json: re-serializes the registry document with the
/// `lastSessionId` of the entry under `projects` keyed by `path` set to
/// `id`; an absent entry leaves the document's content unchanged.
#[verifier::external_body]
pub(crate) fn registry_with_last_session(cfg: &str, path: &str, id: &str) -> (r: Option<String>)
    ensures
        r matches Some(t) ==> registry_updated(cfg@, path@, id@) == Some(t@),
        r is None ==> registry_updated(cfg@, path@, id@) is None,
{
    let mut v: serde_json::Value = serde_json::from_str(cfg).ok()?;
    if let Some(p) = v.get_mut("projects").and_then(|ps| ps.get_mut(path)) {
        if let Some(obj) = p.as_object_mut() {
            obj.insert("lastSessionId".to_string(), serde_json::Value::String(id.to_string()));
        }
    }
    serde_json::to_string_pretty(&v).ok()
}

/// The bucket a configuration text holds: the `gcs_bucket` string field,
/// empty when the field is absent or not a string, and nothing when the
/// text does not parse.  A function of the text alone.
pub uninterp spec fn config_bucket(cfg: Seq<char>) -> Option<Seq<char>>;

/// Relies on serde_json: reads the `gcs_bucket` string field of a
/// configuration text.
#[verifier::external_body]
pub(crate) fn read_config_bucket(cfg: &str) -> (r: Option<String>)
    ensures
        r matches Some(b) ==> config_bucket(cfg@) == Some(b@),
        r is None ==> config_bucket(cfg@) is None,
{
    let v: serde_json::Value = serde_json::from_str(cfg).ok()?;
    Some(v.get("gcs_bucket").and_then(|b| b.as_str()).unwrap_or("").to_string())
}

/// Relies on serde_json: writes a one-field configuration object holding
/// the bucket; reading the result back yields the same bucket.
#[verifier::external_body]
pub(crate) fn encode_bucket_config(bucket: &str) -> (r: String)
    ensures
        config_bucket(r@) == Some(bucket@),
{
    let mut m = serde_json::Map::new();
    m.insert("gcs_bucket".to_string(), serde_json::Value::String(bucket.to_string()));
    serde_json::to_string_pretty(&serde_json::Value::Object(m)).expect("config text")
}

/// What str::to_lowercase yields: a function of the characters alone.
pub uninterp spec fn lower_of(s: Seq<char>) -> Seq<char>;

/// Relies on str::to_lowercase: the result depends on the characters alone,
/// and an empty string stays empty.
#[verifier::external_body]
pub(crate) fn lowercase(s: &str) -> (r: String)
    ensures
        r@ == lower_of(s@),
        s@.len() == 0 ==> r@.len() == 0,
{
    s.to_lowercase()
}

/// What char::is_alphanumeric yields: a function of the character alone.
pub uninterp spec fn alnum(c: char) -> bool;

/// Relies on char::is_alphanumeric: the result depends on the character
/// alone.
#[verifier::external_body]
pub(crate) fn char_is_alphanumeric(c: char) -> (r: bool)
    ensures
        r == alnum(c),
{
    c.is_alphanumeric()
}

/// Relies on chrono: the current UTC time in RFC 3339 form.  The result
/// depends on the clock, so nothing is promised of it.
#[verifier::external_body]
pub(crate) fn now_rfc3339() -> String {
    chrono::Utc::now().to_rfc3339()
}

/// Relies on chrono: the current UTC time as a compact `YYYYmmdd-HHMMSS`
/// file-name stamp.  The result depends on the clock, so nothing is promised
/// of it.
#[verifier::external_body]
pub(crate) fn now_stamp() -> String {
    chrono::Utc::now().format("%Y%m%d-%H%M%S").to_string()
}

/// Relies on the hostname crate: the machine's host name, when the platform
/// reports one that is valid text.  The result depends on the machine, so
/// nothing is promised of it.
#[verifier::external_body]
pub(crate) fn host_name() -> Option<String> {
    hostname::get().ok().and_then(|h| h.into_string().ok())
}

} // verus!
