//! Refresh decisions for stored images, upstream replies and failure notices.

use vstd::prelude::*;
use crate::models::{ImageRecord, ImageRecordView};
use crate::text::{decimal, starts_with, u64_to_decimal};
use crate::utility::{frequency_label, frequency_text, opt_view, public_url, public_url_text};

verus! {

/// Milliseconds in an hour.
pub const MS_PER_HOUR: u64 = 3_600_000;

/// Describes how a stored image was handled during a refresh attempt.
#[derive(Clone, Copy, Debug, PartialEq, Eq, Structural)]
pub enum RefreshOutcome {
    /// The image was fetched and written back to storage.
    Refreshed,
    /// The image was configured to never be refreshed.
    SkippedPermanent,
    /// The stored image was still within its refresh interval.
    SkippedFresh,
    /// The upstream failed, so the previous bytes were served.
    ServedStale,
}

/// What to do with a loaded image before serving it.
#[derive(Clone, Copy, Debug, PartialEq, Eq, Structural)]
pub enum RefreshDecision {
    /// Serve the stored bytes as they are, for the given reason.
    Keep(RefreshOutcome),
    /// The refresh interval has passed: fetch the source again.
    Fetch,
}

/// Whole hours elapsed since `last_ms` at time `now_ms` (zero if the clock
/// reads earlier than `last_ms`).
pub open spec fn age_hours(now_ms: u64, last_ms: u64) -> int {
    (if now_ms >= last_ms {
        now_ms - last_ms
    } else {
        0int
    }) / (MS_PER_HOUR as int)
}

/// The decision for a record at time `now_ms`.
pub open spec fn decision_for(rec: ImageRecordView, now_ms: u64) -> RefreshDecision {
    if rec.frequency_hours == 0 {
        RefreshDecision::Keep(RefreshOutcome::SkippedPermanent)
    } else if age_hours(now_ms, rec.last_success_ms) < rec.frequency_hours {
        RefreshDecision::Keep(RefreshOutcome::SkippedFresh)
    } else {
        RefreshDecision::Fetch
    }
}

/// Decides whether a loaded image must be fetched again.
pub fn plan_refresh(rec: &ImageRecord, now_ms: u64) -> (d: RefreshDecision)
    ensures
        d == decision_for(rec@, now_ms),
{
    if rec.frequency_hours == 0 {
        return RefreshDecision::Keep(RefreshOutcome::SkippedPermanent);
    }
    let elapsed = now_ms.saturating_sub(rec.last_success_ms);
    let age = elapsed / MS_PER_HOUR;
    if age < rec.frequency_hours {
        RefreshDecision::Keep(RefreshOutcome::SkippedFresh)
    } else {
        RefreshDecision::Fetch
    }
}

/// The record after a successful fetch at `now_ms` returned `content_type`.
pub open spec fn refreshed_view(rec: ImageRecordView, now_ms: u64, content_type: Seq<char>) -> ImageRecordView {
    ImageRecordView {
        source: rec.source,
        frequency_hours: rec.frequency_hours,
        last_success_ms: now_ms,
        dead_since_ms: None,
        content_type: content_type,
    }
}

/// Records a successful upstream fetch.
pub fn record_refreshed(rec: ImageRecord, now_ms: u64, content_type: String) -> (r: ImageRecord)
    ensures
        r@ == refreshed_view(rec@, now_ms, content_type@),
{
    ImageRecord {
        source: rec.source,
        frequency_hours: rec.frequency_hours,
        last_success_ms: now_ms,
        dead_since_ms: None,
        content_type: content_type,
    }
}

/// The record after a failed fetch at `now_ms`: the first failure time is
/// kept once set.
pub open spec fn failed_view(rec: ImageRecordView, now_ms: u64) -> ImageRecordView {
    match rec.dead_since_ms {
        Some(_) => rec,
        None => ImageRecordView {
            source: rec.source,
            frequency_hours: rec.frequency_hours,
            last_success_ms: rec.last_success_ms,
            dead_since_ms: Some(now_ms),
            content_type: rec.content_type,
        },
    }
}

/// Records a failed upstream fetch.  The flag is true when this is the first
/// failure since the last success: then the record is stored again and the
/// failure is announced.
pub fn record_failed(rec: ImageRecord, now_ms: u64) -> (r: (ImageRecord, bool))
    ensures
        r.0@ == failed_view(rec@, now_ms),
        r.1 == (rec@.dead_since_ms is None),
{
    match rec.dead_since_ms {
        Some(_) => (rec, false),
        None => (
            ImageRecord {
                source: rec.source,
                frequency_hours: rec.frequency_hours,
                last_success_ms: rec.last_success_ms,
                dead_since_ms: Some(now_ms),
                content_type: rec.content_type,
            },
            true,
        ),
    }
}

/// What follows a fetch of a due image: the record and bytes to serve, the
/// outcome, and whether to store the record (with those bytes) and to
/// announce a failure.
pub struct RefreshCompletion {
    pub record: ImageRecord,
    pub bytes: Vec<u8>,
    pub outcome: RefreshOutcome,
    pub store: bool,
    pub notify: bool,
}

/// Finishes the refresh of a due image once its fetch at `now_ms` is done:
/// `fetched` holds the new bytes and MIME type, or nothing when the upstream
/// failed.  A success replaces bytes and record and is stored; a failure
/// serves the stored bytes, and only the first failure since the last
/// success is stored and announced.
pub fn complete_refresh(
    rec: ImageRecord,
    stored: Vec<u8>,
    now_ms: u64,
    fetched: Option<(Vec<u8>, String)>,
) -> (c: RefreshCompletion)
    ensures
        match fetched {
            Some(f) => {
                &&& c.record@ == refreshed_view(rec@, now_ms, f.1@)
                &&& c.bytes@ == f.0@
                &&& c.outcome == RefreshOutcome::Refreshed
                &&& c.store
                &&& !c.notify
            },
            None => {
                &&& c.record@ == failed_view(rec@, now_ms)
                &&& c.bytes@ == stored@
                &&& c.outcome == RefreshOutcome::ServedStale
                &&& c.store == (rec@.dead_since_ms is None)
                &&& c.notify == (rec@.dead_since_ms is None)
            },
        },
{
    match fetched {
        Some((bytes, content_type)) => RefreshCompletion {
            record: record_refreshed(rec, now_ms, content_type),
            bytes,
            outcome: RefreshOutcome::Refreshed,
            store: true,
            notify: false,
        },
        None => {
            let (record, newly_failing) = record_failed(rec, now_ms);
            RefreshCompletion {
                record,
                bytes: stored,
                outcome: RefreshOutcome::ServedStale,
                store: newly_failing,
                notify: newly_failing,
            }
        },
    }
}

/// The record after failed fetches at each of `times`, in order.
pub open spec fn failure_run(rec: ImageRecordView, times: Seq<u64>) -> ImageRecordView
    decreases times.len(),
{
    if times.len() == 0 {
        rec
    } else {
        failed_view(failure_run(rec, times.drop_last()), times.last())
    }
}

/// How many of the failed fetches at `times` are announced.
pub open spec fn notices_in_run(rec: ImageRecordView, times: Seq<u64>) -> nat
    decreases times.len(),
{
    if times.len() == 0 {
        0
    } else {
        notices_in_run(rec, times.drop_last()) + if failure_run(rec, times.drop_last()).dead_since_ms is None {
            1nat
        } else {
            0nat
        }
    }
}

/// A run of failures after a success is announced exactly once, and the
/// record keeps the time of the first failure and all its other fields.
pub proof fn lemma_failure_run_announced_once(rec: ImageRecordView, times: Seq<u64>)
    requires
        rec.dead_since_ms is None,
        times.len() > 0,
    ensures
        notices_in_run(rec, times) == 1,
        failure_run(rec, times).dead_since_ms == Some(times[0]),
        failure_run(rec, times).source == rec.source,
        failure_run(rec, times).frequency_hours == rec.frequency_hours,
        failure_run(rec, times).last_success_ms == rec.last_success_ms,
        failure_run(rec, times).content_type == rec.content_type,
    decreases times.len(),
{
    let pre = times.drop_last();
    if times.len() == 1 {
        assert(pre.len() == 0);
        assert(notices_in_run(rec, pre) == 0);
        assert(failure_run(rec, pre) == rec);
    } else {
        lemma_failure_run_announced_once(rec, pre);
        assert(pre[0] == times[0]);
    }
}

/// The MIME type assumed when the upstream names none.
pub open spec fn default_content_type() -> Seq<char> {
    "image/svg+xml"@
}

/// What an upstream reply yields: its MIME type when the status is 200,
/// otherwise an error text naming the status.
pub open spec fn upstream_result(status: u16, content_type: Option<Seq<char>>) -> Result<
    Seq<char>,
    Seq<char>,
> {
    if status == 200 {
        match content_type {
            Some(ct) => Ok(ct),
            None => Ok(default_content_type()),
        }
    } else {
        Err("upstream returned "@ + decimal(status as nat))
    }
}

/// Judges an upstream reply by its status code and `Content-Type` header.
pub fn upstream_content_type(status: u16, content_type: Option<String>) -> (r: Result<String, String>)
    ensures
        match r {
            Ok(ct) => upstream_result(status, opt_view(content_type)) == Ok::<Seq<char>, Seq<char>>(ct@),
            Err(e) => upstream_result(status, opt_view(content_type)) == Err::<Seq<char>, Seq<char>>(e@),
        },
{
    if status != 200 {
        return Err(String::from_str("upstream returned ").concat(u64_to_decimal(status as u64).as_str()));
    }
    match content_type {
        Some(ct) => Ok(ct),
        None => Ok(String::from_str("image/svg+xml")),
    }
}

/// The webhook to notify: the configured secret, when present and non-empty.
pub fn webhook_target(secret: Option<String>) -> (target: Option<String>)
    ensures
        opt_view(target) == (match opt_view(secret) {
            Some(s) => if s.len() > 0 {
                Some(s)
            } else {
                None
            },
            None => None,
        }),
{
    match secret {
        Some(s) => {
            if s.as_str().unicode_len() > 0 {
                Some(s)
            } else {
                None
            }
        },
        None => None,
    }
}

/// One field of a notification embed.
pub struct EmbedField {
    pub name: String,
    pub value: String,
    pub inline: bool,
}

/// A refresh-failure notification, ready to be sent as a chat embed.
pub struct DiscordNotice {
    pub title: String,
    pub description: String,
    pub color: u32,
    pub fields: Vec<EmbedField>,
    pub thumbnail_url: Option<String>,
}

/// Embed colour of failure notices (`#ef4444`).
pub const NOTICE_COLOR: u32 = 0xef4444;

/// The views of a notice's fields.
pub open spec fn fields_view(fields: Seq<EmbedField>) -> Seq<(Seq<char>, Seq<char>, bool)> {
    fields.map_values(|f: EmbedField| (f.name@, f.value@, f.inline))
}

/// Whether a MIME type is an image that chat clients can preview (SVG cannot).
pub open spec fn previewable(content_type: Seq<char>) -> bool {
    "image/"@.is_prefix_of(content_type) && !"image/svg"@.is_prefix_of(content_type)
}

/// The seconds timestamp shown as "dead since": the first failure, or now.
pub open spec fn dead_since_secs(rec: ImageRecordView, now_ms: u64) -> int {
    match rec.dead_since_ms {
        Some(t) => t as int / 1000,
        None => now_ms as int / 1000,
    }
}

/// The fields of a failure notice.
pub open spec fn notice_fields(name: Seq<char>, rec: ImageRecordView, host: Seq<char>, now_ms: u64) -> Seq<
    (Seq<char>, Seq<char>, bool),
> {
    seq![
        ("Image"@, public_url_text(host, name, Seq::empty()), false),
        ("Source"@, rec.source, false),
        ("Refresh every"@, frequency_text(rec.frequency_hours), true),
        ("Dead since"@, "<t:"@ + decimal(dead_since_secs(rec, now_ms) as nat) + ":R>"@, true),
    ]
}

/// Builds the notification sent when an image's refresh starts failing.
pub fn discord_notice(name: &str, rec: &ImageRecord, host: &str, now_ms: u64) -> (n: DiscordNotice)
    ensures
        n.title@ == "img-proxy: refresh failing"@,
        n.description@ == "`"@ + name@ + "` couldn't be refreshed and is serving its last good copy."@,
        n.color == NOTICE_COLOR,
        fields_view(n.fields@) == notice_fields(name@, rec@, host@, now_ms),
        opt_view(n.thumbnail_url) == (if previewable(rec@.content_type) {
            Some(public_url_text(host@, name@, Seq::empty()))
        } else {
            None
        }),
{
    let dead_ms = match rec.dead_since_ms {
        Some(t) => t,
        None => now_ms,
    };
    let dead_secs = dead_ms / 1000;
    let image_url = public_url(host, name, "");
    proof {
        reveal_strlit("");
        assert(""@ =~= Seq::<char>::empty());
    }
    let mut fields: Vec<EmbedField> = Vec::new();
    fields.push(EmbedField { name: String::from_str("Image"), value: image_url.clone(), inline: false });
    fields.push(EmbedField { name: String::from_str("Source"), value: rec.source.clone(), inline: false });
    fields.push(
        EmbedField {
            name: String::from_str("Refresh every"),
            value: frequency_label(rec.frequency_hours),
            inline: true,
        },
    );
    let dead_text = String::from_str("<t:").concat(u64_to_decimal(dead_secs).as_str()).concat(":R>");
    fields.push(EmbedField { name: String::from_str("Dead since"), value: dead_text, inline: true });
    assert(fields_view(fields@) =~= notice_fields(name@, rec@, host@, now_ms));
    let ct = rec.content_type.as_str();
    let thumbnail_url = if starts_with(ct, "image/") && !starts_with(ct, "image/svg") {
        Some(image_url)
    } else {
        None
    };
    let description = String::from_str("`").concat(name).concat(
        "` couldn't be refreshed and is serving its last good copy.",
    );
    DiscordNotice {
        title: String::from_str("img-proxy: refresh failing"),
        description,
        color: NOTICE_COLOR,
        fields,
        thumbnail_url,
    }
}

/// An image set to never refresh is served as stored at every moment.
pub proof fn lemma_permanent_never_fetched(rec: ImageRecordView, now_ms: u64)
    requires
        rec.frequency_hours == 0,
    ensures
        decision_for(rec, now_ms) == RefreshDecision::Keep(RefreshOutcome::SkippedPermanent),
{
}

/// Right after a successful refresh, a refreshing image stays fresh until a
/// full interval has passed.
pub proof fn lemma_refreshed_is_fresh(
    rec: ImageRecordView,
    now_ms: u64,
    content_type: Seq<char>,
    later_ms: u64,
)
    requires
        rec.frequency_hours > 0,
        now_ms <= later_ms,
        later_ms - now_ms < rec.frequency_hours * MS_PER_HOUR,
    ensures
        decision_for(refreshed_view(rec, now_ms, content_type), later_ms) == RefreshDecision::Keep(
            RefreshOutcome::SkippedFresh,
        ),
{
    let f = rec.frequency_hours as int;
    let d = later_ms - now_ms;
    assert(d / (MS_PER_HOUR as int) < f) by (nonlinear_arith)
        requires
            0 <= d < f * 3_600_000,
            MS_PER_HOUR == 3_600_000,
    ;
}

/// Once an image is due for a refresh, it stays due as time goes on.
pub proof fn lemma_due_stays_due(rec: ImageRecordView, t1: u64, t2: u64)
    requires
        decision_for(rec, t1) == RefreshDecision::Fetch,
        t1 <= t2,
    ensures
        decision_for(rec, t2) == RefreshDecision::Fetch,
{
    let a = if t1 >= rec.last_success_ms {
        t1 - rec.last_success_ms
    } else {
        0int
    };
    let b = if t2 >= rec.last_success_ms {
        t2 - rec.last_success_ms
    } else {
        0int
    };
    assert(a <= b);
    assert(a / 3_600_000 <= b / 3_600_000) by (nonlinear_arith)
        requires
            0 <= a <= b,
    ;
}

/// Only the first failure after a success is new: a second failure changes
/// nothing, and the first failure time is kept.
pub proof fn lemma_failure_recorded_once(rec: ImageRecordView, t1: u64, t2: u64)
    ensures
        failed_view(rec, t1).dead_since_ms is Some,
        failed_view(failed_view(rec, t1), t2) == failed_view(rec, t1),
        rec.dead_since_ms is None ==> failed_view(rec, t1).dead_since_ms == Some(t1),
{
}

/// A failure never touches the source, interval, last success or MIME type.
pub proof fn lemma_failure_keeps_content(rec: ImageRecordView, now_ms: u64)
    ensures
        failed_view(rec, now_ms).source == rec.source,
        failed_view(rec, now_ms).frequency_hours == rec.frequency_hours,
        failed_view(rec, now_ms).last_success_ms == rec.last_success_ms,
        failed_view(rec, now_ms).content_type == rec.content_type,
{
}

/// A successful refresh clears the failure mark, so the next failure is
/// announced again.
pub proof fn lemma_success_rearms_notice(rec: ImageRecordView, now_ms: u64, content_type: Seq<char>)
    ensures
        refreshed_view(rec, now_ms, content_type).dead_since_ms is None,
        refreshed_view(rec, now_ms, content_type).source == rec.source,
        refreshed_view(rec, now_ms, content_type).frequency_hours == rec.frequency_hours,
{
}


/// Whole hours since the last success decide a refreshing image: it is due
/// exactly when at least `frequency_hours` full hours have passed, and fresh
/// otherwise (a clock behind the last success counts as no time passed).
pub proof fn lemma_due_after_full_interval(rec: ImageRecordView, now_ms: u64)
    requires
        rec.frequency_hours > 0,
    ensures
        now_ms >= rec.last_success_ms && (now_ms - rec.last_success_ms) / 3_600_000int
            >= rec.frequency_hours ==> decision_for(rec, now_ms) == RefreshDecision::Fetch,
        now_ms >= rec.last_success_ms && (now_ms - rec.last_success_ms) / 3_600_000int
            < rec.frequency_hours ==> decision_for(rec, now_ms) == RefreshDecision::Keep(
            RefreshOutcome::SkippedFresh,
        ),
        now_ms < rec.last_success_ms ==> decision_for(rec, now_ms) == RefreshDecision::Keep(
            RefreshOutcome::SkippedFresh,
        ),
{
}

} // verus!
