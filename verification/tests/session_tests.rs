use mcc::session::Session;
use mcc::session::split_lines;

fn user_line(content: &str) -> String {
    format!(
        "{{\"type\":\"user\",\"message\":{{\"content\":\"{}\"}},\"cwd\":\"/a/b\"}}",
        content
    )
}

fn assistant_line(branch: &str) -> String {
    format!("{{\"type\":\"assistant\",\"gitBranch\":\"{}\"}}", branch)
}

#[test]
fn one_malformed_line_among_ten_is_skipped() {
    let mut lines: Vec<String> = Vec::new();
    for i in 0..5 {
        lines.push(assistant_line(&format!("b{}", i)));
    }
    lines.push("this is not a record".to_string());
    for i in 5..9 {
        lines.push(assistant_line(&format!("b{}", i)));
    }
    assert_eq!(lines.len(), 10);
    let content = lines.join("\n");
    let s = Session::load(&content, "id1".to_string(), "/a/b".to_string(), 7);
    assert_eq!(s.message_count(), 9);
}

#[test]
fn line_without_type_field_is_skipped() {
    let content = "{\"cwd\":\"/a/b\"}\n{\"type\":\"assistant\"}\n";
    let s = Session::load(content, "id".to_string(), "/p".to_string(), 0);
    assert_eq!(s.message_count(), 1);
    assert_eq!(s.messages[0].msg_type, "assistant");
}

#[test]
fn summary_of_long_content_is_truncated_with_ellipsis() {
    let content75: String = "x".repeat(75);
    let transcript = user_line(&content75);
    let s = Session::load(&transcript, "id".to_string(), "/a/b".to_string(), 0);
    assert_eq!(s.summary.chars().count(), 63);
    assert!(s.summary.ends_with("..."));
    assert_eq!(s.summary, format!("{}...", "x".repeat(60)));
}

#[test]
fn summary_of_short_content_is_kept_whole() {
    let content40: String = "y".repeat(40);
    let transcript = user_line(&content40);
    let s = Session::load(&transcript, "id".to_string(), "/a/b".to_string(), 0);
    assert_eq!(s.summary, content40);
    assert!(!s.summary.ends_with("..."));
}

#[test]
fn summary_placeholder_when_no_user_message() {
    let transcript = format!("{}\n{}", assistant_line("main"), assistant_line("dev"));
    let s = Session::load(&transcript, "id".to_string(), "/a/b".to_string(), 0);
    assert_eq!(s.summary, "No messages");
    assert_eq!(s.git_branch.as_deref(), Some("dev"));
}

#[test]
fn empty_content_yields_no_messages() {
    let s = Session::load("", "id".to_string(), "/a/b".to_string(), 3);
    assert_eq!(s.message_count(), 0);
    assert_eq!(s.summary, "No messages");
    assert_eq!(s.git_branch, None);
    assert_eq!(s.last_modified, 3);
}

#[test]
fn branch_scan_stops_at_first_user_message_with_content() {
    let lines = [
        assistant_line("early"),
        "{\"type\":\"user\",\"message\":{\"content\":\"ask\"},\"gitBranch\":\"at-user\"}"
            .to_string(),
        assistant_line("late"),
    ];
    let transcript = lines.join("\n");
    let s = Session::load(&transcript, "id".to_string(), "/a/b".to_string(), 0);
    assert_eq!(s.summary, "ask");
    assert_eq!(s.git_branch.as_deref(), Some("at-user"));
}

#[test]
fn user_message_without_text_content_is_no_summary() {
    let transcript = "{\"type\":\"user\",\"message\":{\"content\":[1,2]}}";
    let s = Session::load(transcript, "id".to_string(), "/a/b".to_string(), 0);
    assert_eq!(s.summary, "No messages");
}

#[test]
fn split_lines_handles_crlf_and_trailing_newline() {
    let parts = split_lines("a\nb\r\nc\n");
    assert_eq!(parts, vec!["a".to_string(), "b".to_string(), "c".to_string()]);
    let parts2 = split_lines("a\nb");
    assert_eq!(parts2, vec!["a".to_string(), "b".to_string()]);
    let none: Vec<String> = split_lines("");
    assert!(none.is_empty());
}

#[test]
fn time_ago_picks_the_fitting_unit() {
    let s = Session::load("", "id".to_string(), "/p".to_string(), 1000);
    assert_eq!(s.time_ago(1030), "30s ago");
    assert_eq!(s.time_ago(1000 + 120), "2m ago");
    assert_eq!(s.time_ago(1000 + 3 * 3600), "3h ago");
    assert_eq!(s.time_ago(1000 + 5 * 86400), "5d ago");
    assert_eq!(s.time_ago(500), "0s ago");
}

#[test]
fn decimal_rendering_is_exact() {
    assert_eq!(mcc::text::decimal_string(0), "0");
    assert_eq!(mcc::text::decimal_string(7), "7");
    assert_eq!(mcc::text::decimal_string(12345), "12345");
    assert_eq!(mcc::text::decimal_string(u64::MAX), "18446744073709551615");
}

#[test]
fn message_fields_are_extracted() {
    let transcript =
        "{\"type\":\"user\",\"message\":{\"content\":\"hi\"},\"cwd\":\"/w\",\"gitBranch\":\"m\",\"extra\":42}";
    let s = Session::load(transcript, "id".to_string(), "/p".to_string(), 0);
    assert_eq!(s.message_count(), 1);
    let m = &s.messages[0];
    assert_eq!(m.msg_type, "user");
    assert_eq!(m.content.as_deref(), Some("hi"));
    assert_eq!(m.cwd.as_deref(), Some("/w"));
    assert_eq!(m.git_branch.as_deref(), Some("m"));
    assert_eq!(m.raw, transcript);
}
