use linkclihost::cli::{choose_name, log_format_for, preset_idx, resolved_name, LogFormat};
use std::path::PathBuf;

/// The extension of a log path, as the program hands it to `log_format_for`.
fn ext(p: &str) -> Option<String> {
    PathBuf::from(p)
        .extension()
        .and_then(|s| s.to_str())
        .map(|s| s.to_string())
}

#[test]
fn jsonl_log_format() {
    assert_eq!(log_format_for(ext("events.jsonl").as_deref()), Ok(LogFormat::Jsonl));
    assert_eq!(log_format_for(Some("JSONL")), Ok(LogFormat::Jsonl));
}

#[test]
fn ndjson_is_jsonl() {
    assert_eq!(log_format_for(ext("x.ndjson").as_deref()), Ok(LogFormat::Jsonl));
}

#[test]
fn csv_log_format() {
    assert_eq!(log_format_for(ext("events.csv").as_deref()), Ok(LogFormat::Csv));
    assert_eq!(log_format_for(Some("Csv")), Ok(LogFormat::Csv));
}

#[test]
fn unsupported_extension_is_error() {
    assert!(matches!(log_format_for(ext("events.txt").as_deref()), Err(_)));
    assert_eq!(log_format_for(Some("txt")), Err("unsupported log extension: .txt".to_string()));
    assert_eq!(log_format_for(Some("TXT")), Err("unsupported log extension: .txt".to_string()));
    assert_eq!(
        log_format_for(ext("events").as_deref()),
        Err("log path needs an extension (.jsonl, .ndjson, or .csv)".to_string())
    );
}

#[test]
fn known_preset_resolves() {
    assert_eq!(preset_idx("breaks"), Ok(2));
    assert_eq!(preset_idx("four-floor"), Ok(0));
}

#[test]
fn unknown_preset_is_error() {
    let err = preset_idx("polka").unwrap_err();
    assert!(err.contains("polka"));
    assert!(err.contains("four-floor"));
    assert_eq!(
        err,
        "unknown preset \"polka\"; available: four-floor, backbeat, breaks, tom-jam"
    );
}

#[test]
fn resolved_name_uses_override() {
    assert_eq!(resolved_name(Some("studio-rig".to_string())), "studio-rig");
    assert_eq!(choose_name(Some("a".into()), Some("host".into())), "a");
    assert_eq!(choose_name(None, Some("host".into())), "host");
    assert_eq!(choose_name(None, None), "linkclihost");
    assert!(!resolved_name(None).is_empty());
}
