use img_proxy::image_storage::{
    complete_refresh, discord_notice, plan_refresh, record_failed, record_refreshed,
    upstream_content_type,
    webhook_target, RefreshDecision, RefreshOutcome, NOTICE_COLOR,
};
use img_proxy::models::ImageRecord;

const HOUR: u64 = 3_600_000;

fn record(freq: u64, last: u64, dead: Option<u64>, ct: &str) -> ImageRecord {
    ImageRecord {
        source: "https://src.example/img".to_string(),
        frequency_hours: freq,
        last_success_ms: last,
        dead_since_ms: dead,
        content_type: ct.to_string(),
    }
}

#[test]
fn permanent_images_are_never_fetched() {
    let rec = record(0, 0, None, "image/png");
    for now in [0, HOUR, u64::MAX] {
        assert_eq!(plan_refresh(&rec, now), RefreshDecision::Keep(RefreshOutcome::SkippedPermanent));
    }
}

#[test]
fn freshness_by_whole_hours() {
    let rec = record(4, 10 * HOUR, None, "image/png");
    assert_eq!(plan_refresh(&rec, 10 * HOUR), RefreshDecision::Keep(RefreshOutcome::SkippedFresh));
    assert_eq!(plan_refresh(&rec, 14 * HOUR - 1), RefreshDecision::Keep(RefreshOutcome::SkippedFresh));
    assert_eq!(plan_refresh(&rec, 14 * HOUR), RefreshDecision::Fetch);
    assert_eq!(plan_refresh(&rec, 100 * HOUR), RefreshDecision::Fetch);
    // A clock behind the last success counts as no time elapsed.
    assert_eq!(plan_refresh(&rec, 0), RefreshDecision::Keep(RefreshOutcome::SkippedFresh));
}

#[test]
fn success_updates_record_and_is_fresh() {
    let rec = record(1, 0, Some(5), "image/png");
    let now = 50 * HOUR;
    let r = record_refreshed(rec, now, "image/gif".to_string());
    assert_eq!(r.last_success_ms, now);
    assert_eq!(r.dead_since_ms, None);
    assert_eq!(r.content_type, "image/gif");
    assert_eq!(r.source, "https://src.example/img");
    assert_eq!(r.frequency_hours, 1);
    assert_eq!(plan_refresh(&r, now), RefreshDecision::Keep(RefreshOutcome::SkippedFresh));
    assert_eq!(plan_refresh(&r, now + HOUR - 1), RefreshDecision::Keep(RefreshOutcome::SkippedFresh));
}

#[test]
fn only_first_failure_is_new() {
    let rec = record(4, 7, None, "image/png");
    let (r1, first) = record_failed(rec, 1000);
    assert!(first);
    assert_eq!(r1.dead_since_ms, Some(1000));
    assert_eq!(r1.last_success_ms, 7);
    let (r2, again) = record_failed(r1, 2000);
    assert!(!again);
    assert_eq!(r2.dead_since_ms, Some(1000));
}

#[test]
fn upstream_replies() {
    assert_eq!(upstream_content_type(200, Some("image/png".to_string())), Ok("image/png".to_string()));
    assert_eq!(upstream_content_type(200, None), Ok("image/svg+xml".to_string()));
    assert_eq!(upstream_content_type(404, Some("text/html".to_string())), Err("upstream returned 404".to_string()));
    assert_eq!(upstream_content_type(201, None), Err("upstream returned 201".to_string()));
}

#[test]
fn webhook_configuration() {
    assert_eq!(webhook_target(Some("https://hook".to_string())), Some("https://hook".to_string()));
    assert_eq!(webhook_target(Some(String::new())), None);
    assert_eq!(webhook_target(None), None);
}

#[test]
fn failure_notice_contents() {
    let rec = record(24, 0, Some(1_700_000_123_456), "image/png");
    let n = discord_notice("stats", &rec, "img.example", 5);
    assert_eq!(n.title, "img-proxy: refresh failing");
    assert_eq!(n.description, "`stats` couldn't be refreshed and is serving its last good copy.");
    assert_eq!(n.color, NOTICE_COLOR);
    assert_eq!(NOTICE_COLOR, 0xef4444);
    let fields: Vec<(String, String, bool)> =
        n.fields.iter().map(|f| (f.name.clone(), f.value.clone(), f.inline)).collect();
    assert_eq!(
        fields,
        vec![
            ("Image".to_string(), "https://img.example/stats".to_string(), false),
            ("Source".to_string(), "https://src.example/img".to_string(), false),
            ("Refresh every".to_string(), "daily".to_string(), true),
            ("Dead since".to_string(), "<t:1700000123:R>".to_string(), true),
        ]
    );
    assert_eq!(n.thumbnail_url, Some("https://img.example/stats".to_string()));
}

#[test]
fn failure_notice_thumbnail_and_time_fallback() {
    let svg = record(4, 0, None, "image/svg+xml");
    let n = discord_notice("logo", &svg, "h", 9_999);
    assert_eq!(n.thumbnail_url, None);
    assert_eq!(n.fields[3].value, "<t:9:R>");
    let video = record(4, 0, None, "video/mp4");
    assert_eq!(discord_notice("v", &video, "h", 0).thumbnail_url, None);
}

#[test]
fn completing_refreshes() {
    let rec = record(4, 0, None, "image/png");
    let ok = complete_refresh(rec.clone(), vec![1, 2], 99, Some((vec![7], "image/gif".to_string())));
    assert_eq!(ok.bytes, vec![7]);
    assert_eq!(ok.outcome, RefreshOutcome::Refreshed);
    assert!(ok.store && !ok.notify);
    assert_eq!(ok.record.content_type, "image/gif");
    assert_eq!(ok.record.last_success_ms, 99);

    let first = complete_refresh(rec, vec![1, 2], 100, None);
    assert_eq!(first.bytes, vec![1, 2]);
    assert_eq!(first.outcome, RefreshOutcome::ServedStale);
    assert!(first.store && first.notify);
    assert_eq!(first.record.dead_since_ms, Some(100));

    let second = complete_refresh(first.record, vec![1, 2], 200, None);
    assert!(!second.store && !second.notify);
    assert_eq!(second.record.dead_since_ms, Some(100));
    assert_eq!(second.record.content_type, "image/png");

    let recovered = complete_refresh(second.record, vec![1, 2], 300, Some((vec![3], "image/png".to_string())));
    assert_eq!(recovered.record.dead_since_ms, None);
    let again = complete_refresh(recovered.record, vec![3], 400, None);
    assert!(again.notify);
}
