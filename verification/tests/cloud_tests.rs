use mcc::cloud::{CloudConfig, gcs_object_uri, gcs_session_uri, parse_listing_line};

#[test]
fn config_text_round_trips_the_bucket() {
    let c = CloudConfig::with_bucket("gs://my-bucket".to_string());
    assert!(c.enabled);
    let text = c.config_text();
    let back = CloudConfig::from_config_text(&text).expect("parse");
    assert_eq!(back.bucket, "gs://my-bucket");
    assert!(back.enabled);
}

#[test]
fn empty_bucket_disables_the_feature() {
    let c = CloudConfig::with_bucket(String::new());
    assert!(!c.enabled);
    let e = CloudConfig::empty();
    assert!(!e.enabled);
    assert_eq!(e.bucket, "");
}

#[test]
fn config_without_bucket_field_reads_as_disabled() {
    let c = CloudConfig::from_config_text("{}").expect("parse");
    assert_eq!(c.bucket, "");
    assert!(!c.enabled);
}

#[test]
fn unreadable_config_reads_as_nothing() {
    assert!(CloudConfig::from_config_text("not json").is_none());
}

#[test]
fn config_field_is_read_from_the_document() {
    let c = CloudConfig::from_config_text("{\"gcs_bucket\":\"bkt\",\"other\":3}").expect("parse");
    assert_eq!(c.bucket, "bkt");
    assert!(c.enabled);
}

#[test]
fn object_uris_normalize_the_bucket_spelling() {
    assert_eq!(gcs_object_uri("gs://bkt", "f.json.gz"), "gs://bkt/f.json.gz");
    assert_eq!(gcs_object_uri("bkt", "f.json.gz"), "gs://bkt/f.json.gz");
    assert_eq!(
        gcs_session_uri("gs://bkt", "-a-b", "s1.jsonl"),
        "gs://bkt/sessions/-a-b/s1.jsonl"
    );
}

#[test]
fn listing_lines_name_project_and_file() {
    let r = parse_listing_line("gs://bkt/sessions/-a-b/s1.jsonl", "gs://bkt");
    assert_eq!(r, Some(("-a-b".to_string(), "s1.jsonl".to_string())));
    let r2 = parse_listing_line("gs://bkt/sessions/-a-b/s1.jsonl", "bkt");
    assert_eq!(r2, Some(("-a-b".to_string(), "s1.jsonl".to_string())));
}

#[test]
fn listing_headers_and_foreign_lines_are_skipped() {
    assert_eq!(parse_listing_line("gs://bkt/sessions/-a-b/:", "gs://bkt"), None);
    assert_eq!(parse_listing_line("gs://bkt/other/x.jsonl", "gs://bkt"), None);
    assert_eq!(parse_listing_line("", "gs://bkt"), None);
    assert_eq!(parse_listing_line("gs://bkt/sessions/flat", "gs://bkt"), None);
}
