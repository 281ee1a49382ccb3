use empire::telemetry::{contains, get_tracing_directives};

#[test]
fn test_get_tracing_directives() {
    let directives = get_tracing_directives(None);
    assert!(directives.contains("diesel=debug"));
    assert!(directives.contains("tower_http=debug"));
}

#[test]
fn directives_without_rust_log() {
    assert_eq!(
        get_tracing_directives(None),
        "empire=debug,tower_http=debug,diesel=debug"
    );
}

#[test]
fn directives_complete_rust_log() {
    assert_eq!(
        get_tracing_directives(Some("info".to_string())),
        "info,diesel=debug,tower_http=debug,axum::rejection=trace"
    );
    assert_eq!(
        get_tracing_directives(Some("diesel=warn,tower_http=info".to_string())),
        "diesel=warn,tower_http=info,axum::rejection=trace"
    );
    assert_eq!(
        get_tracing_directives(Some("axum::rejection=off,diesel=info".to_string())),
        "axum::rejection=off,diesel=info,tower_http=debug"
    );
}

#[test]
fn contains_finds_runs() {
    assert!(contains("abcdef", "cde"));
    assert!(contains("abc", ""));
    assert!(!contains("abc", "abcd"));
    assert!(!contains("abcabd", "abe"));
}
