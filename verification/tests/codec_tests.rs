use mcc::export::ExportedSession;
use mcc::export::export_file_name;
use mcc::import::{ImportError, import_session, preview_session, updated_registry};
use mcc::session::Session;
use std::io::Write;

fn sample_transcript() -> String {
    [
        "{\"type\":\"user\",\"message\":{\"content\":\"Fix the login bug\"},\"cwd\":\"/a/b\",\"gitBranch\":\"main\"}",
        "{\"type\":\"assistant\",\"cwd\":\"/a/b\",\"payload\":{\"n\":1}}",
        "{\"type\":\"assistant\",\"cwd\":\"/other\"}",
        "{\"type\":\"note\"}",
    ]
    .join("\n")
}

fn sample_session() -> Session {
    Session::load(&sample_transcript(), "sess1".to_string(), "/a/b".to_string(), 42)
}

fn container_bytes_of(session: &Session) -> Vec<u8> {
    let e = ExportedSession::from_session(
        session,
        "2024-01-01T00:00:00+00:00".to_string(),
        "user@host".to_string(),
    );
    e.container_bytes().expect("encodable")
}

fn gzip(text: &str) -> Vec<u8> {
    let mut enc = flate2::write::GzEncoder::new(Vec::new(), flate2::Compression::default());
    enc.write_all(text.as_bytes()).unwrap();
    enc.finish().unwrap()
}

#[test]
fn round_trip_at_original_path_keeps_messages() {
    let s = sample_session();
    let bytes = container_bytes_of(&s);
    let plan = import_session(&bytes, "/a/b").expect("import");
    assert_eq!(plan.session_id, "sess1");
    assert_eq!(plan.project_dir_name, "-a-b");
    assert_eq!(plan.file_name, "sess1.jsonl");
    assert_eq!(plan.record_lines.len(), s.messages.len());
    for (orig, line) in s.messages.iter().zip(plan.record_lines.iter()) {
        let a: serde_json::Value = serde_json::from_str(&orig.raw).unwrap();
        let b: serde_json::Value = serde_json::from_str(line).unwrap();
        assert_eq!(a, b);
    }
}

#[test]
fn importing_twice_derives_the_same_file_and_text() {
    let s = sample_session();
    let bytes = container_bytes_of(&s);
    let p1 = import_session(&bytes, "/a/b").expect("first");
    let p2 = import_session(&bytes, "/a/b").expect("second");
    assert_eq!(p1.project_dir_name, p2.project_dir_name);
    assert_eq!(p1.file_name, p2.file_name);
    assert_eq!(p1.record_text, p2.record_text);
}

#[test]
fn import_rewrites_only_the_original_cwd() {
    let s = sample_session();
    let bytes = container_bytes_of(&s);
    let plan = import_session(&bytes, "/x/y").expect("import");
    assert_eq!(plan.project_dir_name, "-x-y");
    let vals: Vec<serde_json::Value> = plan
        .record_lines
        .iter()
        .map(|l| serde_json::from_str(l).unwrap())
        .collect();
    assert_eq!(vals[0].get("cwd").and_then(|v| v.as_str()), Some("/x/y"));
    assert_eq!(vals[1].get("cwd").and_then(|v| v.as_str()), Some("/x/y"));
    assert_eq!(vals[2].get("cwd").and_then(|v| v.as_str()), Some("/other"));
    assert!(vals[3].get("cwd").is_none());
    // untouched fields survive the rewrite
    assert_eq!(
        vals[0].get("message").and_then(|m| m.get("content")).and_then(|c| c.as_str()),
        Some("Fix the login bug")
    );
    assert_eq!(
        vals[1].get("payload").and_then(|p| p.get("n")).and_then(|n| n.as_i64()),
        Some(1)
    );
    let text: String = plan.record_lines.iter().map(|l| format!("{}\n", l)).collect();
    assert_eq!(plan.record_text, text);
}

#[test]
fn preview_reports_the_container_without_writing() {
    let s = sample_session();
    let bytes = container_bytes_of(&s);
    let e = preview_session(&bytes).expect("preview");
    assert_eq!(e.version, "1.0.0");
    assert_eq!(e.exported_at, "2024-01-01T00:00:00+00:00");
    assert_eq!(e.exported_by, "user@host");
    assert_eq!(e.session.id, "sess1");
    assert_eq!(e.session.project_path, "/a/b");
    assert_eq!(e.session.summary, "Fix the login bug");
    assert_eq!(e.session.git_branch.as_deref(), Some("main"));
    assert_eq!(e.session.messages.len(), 4);
}

#[test]
fn garbage_bytes_fail_as_compression() {
    let bytes: Vec<u8> = b"definitely not gzip".to_vec();
    assert_eq!(import_session(&bytes, "/t").unwrap_err(), ImportError::Compression);
    assert!(matches!(preview_session(&bytes), Err(ImportError::Compression)));
}

#[test]
fn wrong_shape_fails_as_format() {
    let bytes = gzip("[]");
    assert_eq!(import_session(&bytes, "/t").unwrap_err(), ImportError::Format);
    let bytes2 = gzip("{\"version\":\"1.0.0\"}");
    assert_eq!(import_session(&bytes2, "/t").unwrap_err(), ImportError::Format);
    let bad_message = gzip(
        "{\"version\":\"1.0.0\",\"exported_at\":\"t\",\"exported_by\":\"u\",\"session\":{\"id\":\"x\",\"project_path\":\"/p\",\"messages\":[42],\"summary\":\"s\",\"git_branch\":null}}",
    );
    assert_eq!(import_session(&bad_message, "/t").unwrap_err(), ImportError::Format);
}

#[test]
fn unknown_version_fails_import_but_previews() {
    let text = "{\"version\":\"2.0.0\",\"exported_at\":\"t\",\"exported_by\":\"u\",\"session\":{\"id\":\"x\",\"project_path\":\"/p\",\"messages\":[{\"type\":\"user\"}],\"summary\":\"s\",\"git_branch\":null}}";
    let bytes = gzip(text);
    assert_eq!(import_session(&bytes, "/t").unwrap_err(), ImportError::Version);
    let e = preview_session(&bytes).expect("preview");
    assert_eq!(e.version, "2.0.0");
    assert_eq!(e.session.git_branch, None);
}

#[test]
fn export_file_name_sanitizes_the_summary() {
    let name = export_file_name("20240101-000000", "Fix: the Login Bug!");
    assert_eq!(name, "20240101-000000-fix-the-login-bug.json.gz");
}

#[test]
fn export_file_name_truncates_before_filtering() {
    let summary = format!("{}!bbbb", "a".repeat(29));
    let name = export_file_name("t", &summary);
    assert_eq!(name, format!("t-{}.json.gz", "a".repeat(29)));
}

#[test]
fn registry_update_points_the_entry_at_the_session() {
    let cfg = "{\"projects\":{\"/x/y\":{\"lastSessionId\":\"old\",\"keep\":1},\"/z\":{}}}";
    let out = updated_registry(cfg, "/x/y", "sess9").expect("update");
    let v: serde_json::Value = serde_json::from_str(&out).unwrap();
    let entry = v.get("projects").unwrap().get("/x/y").unwrap();
    assert_eq!(entry.get("lastSessionId").and_then(|x| x.as_str()), Some("sess9"));
    assert_eq!(entry.get("keep").and_then(|x| x.as_i64()), Some(1));
}

#[test]
fn registry_update_without_entry_is_a_no_op() {
    let cfg = "{\"projects\":{\"/x/y\":{\"lastSessionId\":\"old\"}}}";
    let out = updated_registry(cfg, "/none", "sess9").expect("update");
    let before: serde_json::Value = serde_json::from_str(cfg).unwrap();
    let after: serde_json::Value = serde_json::from_str(&out).unwrap();
    assert_eq!(before, after);
}

#[test]
fn unreadable_registry_yields_nothing() {
    assert!(updated_registry("not a registry", "/p", "id").is_none());
}
