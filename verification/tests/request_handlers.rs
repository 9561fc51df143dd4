use img_proxy::html_components::{error_block, success_block_simple, success_block_with_url};
use img_proxy::image_storage::RefreshOutcome;
use img_proxy::request_handlers::{
    added_notice, cache_control, client_max_age, deleted_notice, fetch_failure_notice, form_field,
    new_record, normalize_path, store_failure_notice, submission_error_notice, summarize,
    validate_submission, RefreshResult, SubmissionError,
};
use img_proxy::CLIENT_MAX_AGE_SECS;

#[test]
fn paths_lose_trailing_slashes() {
    assert_eq!(normalize_path("/"), "/");
    assert_eq!(normalize_path("/cat/"), "/cat");
    assert_eq!(normalize_path("/cat///"), "/cat");
    assert_eq!(normalize_path("//"), "");
    assert_eq!(normalize_path("/cat"), "/cat");
    assert_eq!(normalize_path(""), "");
    assert_eq!(normalize_path(&normalize_path("/a//")), normalize_path("/a//"));
}

#[test]
fn cache_lifetimes() {
    assert_eq!(client_max_age(0), CLIENT_MAX_AGE_SECS);
    assert_eq!(client_max_age(1), 3600);
    assert_eq!(client_max_age(4), 14_400);
    assert_eq!(client_max_age(23), 82_800);
    assert_eq!(client_max_age(24), 86_400);
    assert_eq!(client_max_age(720), 86_400);
    assert_eq!(cache_control(86_400), "public, max-age=86400");
}

#[test]
fn form_fields_are_trimmed() {
    assert_eq!(form_field(Some("  cat \n")), Some("cat".to_string()));
    assert_eq!(form_field(Some("   ")), None);
    assert_eq!(form_field(Some("")), None);
    assert_eq!(form_field(None), None);
}

#[test]
fn submissions_are_validated_in_order() {
    assert_eq!(validate_submission(None, None, None).err(), Some(SubmissionError::NameMissing));
    assert_eq!(validate_submission(Some("  "), Some("https://x"), None).err(), Some(SubmissionError::NameMissing));
    assert_eq!(validate_submission(Some("refresh"), None, None).err(), Some(SubmissionError::NameInvalid));
    assert_eq!(validate_submission(Some("a b"), None, None).err(), Some(SubmissionError::NameInvalid));
    assert_eq!(validate_submission(Some("cat"), None, None).err(), Some(SubmissionError::SourceMissing));
    assert_eq!(validate_submission(Some("cat"), Some("ftp://x"), None).err(), Some(SubmissionError::SourceScheme));
    let ok = validate_submission(Some(" cat "), Some(" https://x/y.png "), Some(" 24 ")).unwrap();
    assert_eq!(ok.name, "cat");
    assert_eq!(ok.source, "https://x/y.png");
    assert_eq!(ok.frequency_hours, 24);
    let default = validate_submission(Some("dog"), Some("http://x"), None).unwrap();
    assert_eq!(default.frequency_hours, 4);
}

#[test]
fn error_messages() {
    let texts = [
        (SubmissionError::InvalidPayload, "Invalid form payload"),
        (SubmissionError::NameMissing, "A name is required"),
        (SubmissionError::NameInvalid, "Name must be letters, digits, - or _ (and not 'refresh')"),
        (SubmissionError::SourceMissing, "A source URL is required"),
        (SubmissionError::SourceScheme, "Source must start with http:// or https://"),
    ];
    for (e, text) in texts {
        assert_eq!(e.message(), text);
        assert_eq!(submission_error_notice(e), error_block(text));
    }
    assert_eq!(fetch_failure_notice("boom"), error_block("Could not fetch source: boom"));
    assert_eq!(
        store_failure_notice("too big"),
        error_block("Could not store image: too big (KV caps at 25 MiB)")
    );
}

#[test]
fn notices() {
    assert_eq!(added_notice("h.io", "cat", Some("image/png")), success_block_with_url("cat", "https://h.io/cat.png"));
    assert_eq!(added_notice("h.io", "cat", None), success_block_with_url("cat", "https://h.io/cat"));
    assert_eq!(deleted_notice("cat"), success_block_simple("Deleted \"cat\""));
}

#[test]
fn new_records() {
    let s = validate_submission(Some("cat"), Some("https://x"), Some("0")).unwrap();
    let r = new_record(&s, "image/png".to_string(), 42);
    assert_eq!(r.source, "https://x");
    assert_eq!(r.frequency_hours, 0);
    assert_eq!(r.last_success_ms, 42);
    assert_eq!(r.dead_since_ms, None);
    assert_eq!(r.content_type, "image/png");
}

#[test]
fn refresh_summaries() {
    let results = vec![
        RefreshResult::Handled(RefreshOutcome::Refreshed),
        RefreshResult::Handled(RefreshOutcome::SkippedFresh),
        RefreshResult::Missing,
        RefreshResult::Handled(RefreshOutcome::SkippedPermanent),
        RefreshResult::Handled(RefreshOutcome::ServedStale),
        RefreshResult::Failed,
        RefreshResult::Handled(RefreshOutcome::Refreshed),
    ];
    let s = summarize(&results);
    assert_eq!((s.refreshed, s.skipped_fresh, s.skipped_permanent, s.failed), (2, 2, 1, 2));
    assert_eq!(s.refreshed + s.skipped_fresh + s.skipped_permanent + s.failed, results.len());
    let empty = summarize(&Vec::new());
    assert_eq!((empty.refreshed, empty.skipped_fresh, empty.skipped_permanent, empty.failed), (0, 0, 0, 0));
}
