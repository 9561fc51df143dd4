//! Routing helpers, dashboard submissions and refresh summaries.

use vstd::prelude::*;
use crate::CLIENT_MAX_AGE_SECS;
use crate::html_components::{
    error_block, error_text, success_block_simple, success_block_with_url, success_simple_text,
    success_url_text,
};
use crate::image_storage::RefreshOutcome;
use crate::models::{ImageRecord, ImageRecordView};
use crate::text::{decimal, starts_with, trim, trim_end_char, trim_end_matches_char, trimmed, u64_to_decimal};
use crate::utility::{
    extension_for, extension_text, frequency_for, opt_str_view, opt_view, parse_frequency,
    lemma_public_name_resolves, public_url, public_url_text, stripped_name, valid_name,
    valid_name_spec,
};

verus! {

/// A request path with trailing slashes removed, unless it is at most one
/// character long (so `/` stays `/`).
pub open spec fn normalized_path(path: Seq<char>) -> Seq<char> {
    if path.len() > 1 {
        trim_end_char(path, '/')
    } else {
        path
    }
}

/// Normalises a request path before routing.
pub fn normalize_path(path: &str) -> (p: String)
    ensures
        p@ == normalized_path(path@),
{
    if path.unicode_len() > 1 {
        String::from_str(trim_end_matches_char(path, '/'))
    } else {
        String::from_str(path)
    }
}

/// Client cache lifetime, in seconds, for an image with the given refresh
/// interval: a day for permanent images, otherwise the interval capped at a day.
pub open spec fn max_age_for(frequency_hours: u64) -> int {
    if frequency_hours == 0 {
        CLIENT_MAX_AGE_SECS as int
    } else if frequency_hours * 3600 < CLIENT_MAX_AGE_SECS {
        frequency_hours * 3600
    } else {
        CLIENT_MAX_AGE_SECS as int
    }
}

/// Clients never cache an image for more than a day, nor for no time.
pub proof fn lemma_client_cache_at_most_a_day(frequency_hours: u64)
    ensures
        0 < max_age_for(frequency_hours) <= CLIENT_MAX_AGE_SECS,
{
}

/// Computes the client cache lifetime of a served image.
pub fn client_max_age(frequency_hours: u64) -> (secs: u64)
    ensures
        secs == max_age_for(frequency_hours),
{
    if frequency_hours == 0 {
        CLIENT_MAX_AGE_SECS
    } else if frequency_hours < 24 {
        frequency_hours * 3600
    } else {
        CLIENT_MAX_AGE_SECS
    }
}

/// The `Cache-Control` value for a public response cached `max_age` seconds.
pub open spec fn cache_control_text(max_age: u64) -> Seq<char> {
    "public, max-age="@ + decimal(max_age as nat)
}

/// Formats the `Cache-Control` header value of a public response.
pub fn cache_control(max_age: u64) -> (value: String)
    ensures
        value@ == cache_control_text(max_age),
{
    String::from_str("public, max-age=").concat(u64_to_decimal(max_age).as_str())
}

/// A form field's value: trimmed, and absent when blank.
pub open spec fn field_value(raw: Option<Seq<char>>) -> Option<Seq<char>> {
    match raw {
        Some(v) => if trimmed(v).len() > 0 {
            Some(trimmed(v))
        } else {
            None
        },
        None => None,
    }
}

/// Reads one text field of the dashboard form.
pub fn form_field(raw: Option<&str>) -> (value: Option<String>)
    ensures
        opt_view(value) == field_value(opt_str_view(raw)),
{
    match raw {
        Some(v) => {
            let t = trim(v);
            if t.unicode_len() > 0 {
                Some(String::from_str(t))
            } else {
                None
            }
        },
        None => None,
    }
}

/// Why a dashboard submission was refused.
#[derive(Clone, Copy, Debug, PartialEq, Eq, Structural)]
pub enum SubmissionError {
    /// The request body is not a form.
    InvalidPayload,
    /// No name was given.
    NameMissing,
    /// The name breaks the naming rules.
    NameInvalid,
    /// No source URL was given.
    SourceMissing,
    /// The source URL is not an http or https URL.
    SourceScheme,
}

/// The message shown for a refused submission.
pub open spec fn submission_error_text(e: SubmissionError) -> Seq<char> {
    match e {
        SubmissionError::InvalidPayload => "Invalid form payload"@,
        SubmissionError::NameMissing => "A name is required"@,
        SubmissionError::NameInvalid => "Name must be letters, digits, - or _ (and not 'refresh')"@,
        SubmissionError::SourceMissing => "A source URL is required"@,
        SubmissionError::SourceScheme => "Source must start with http:// or https://"@,
    }
}

impl SubmissionError {
    /// The message shown for this refusal.
    pub fn message(&self) -> (m: String)
        ensures
            m@ == submission_error_text(*self),
    {
        match self {
            SubmissionError::InvalidPayload => String::from_str("Invalid form payload"),
            SubmissionError::NameMissing => String::from_str("A name is required"),
            SubmissionError::NameInvalid => String::from_str(
                "Name must be letters, digits, - or _ (and not 'refresh')",
            ),
            SubmissionError::SourceMissing => String::from_str("A source URL is required"),
            SubmissionError::SourceScheme => String::from_str(
                "Source must start with http:// or https://",
            ),
        }
    }
}

/// An accepted dashboard submission.
pub struct Submission {
    pub name: String,
    pub source: String,
    pub frequency_hours: u64,
}

/// The mathematical value of a [`Submission`].
pub struct SubmissionView {
    pub name: Seq<char>,
    pub source: Seq<char>,
    pub frequency_hours: u64,
}

impl View for Submission {
    type V = SubmissionView;

    open spec fn view(&self) -> SubmissionView {
        SubmissionView { name: self.name@, source: self.source@, frequency_hours: self.frequency_hours }
    }
}

/// Whether a source URL uses http or https.
pub open spec fn http_source(source: Seq<char>) -> bool {
    "http://"@.is_prefix_of(source) || "https://"@.is_prefix_of(source)
}

/// The verdict on a submission's raw fields, checked in order: name given,
/// name valid, source given, source scheme.
pub open spec fn submission_result(
    name: Option<Seq<char>>,
    source: Option<Seq<char>>,
    frequency: Option<Seq<char>>,
) -> Result<SubmissionView, SubmissionError> {
    match field_value(name) {
        None => Err(SubmissionError::NameMissing),
        Some(n) => if !valid_name_spec(n) {
            Err(SubmissionError::NameInvalid)
        } else {
            match field_value(source) {
                None => Err(SubmissionError::SourceMissing),
                Some(s) => if !http_source(s) {
                    Err(SubmissionError::SourceScheme)
                } else {
                    Ok(
                        SubmissionView {
                            name: n,
                            source: s,
                            frequency_hours: frequency_for(field_value(frequency)),
                        },
                    )
                },
            }
        },
    }
}

/// Validates the fields of a dashboard submission.
pub fn validate_submission(name: Option<&str>, source: Option<&str>, frequency: Option<&str>) -> (r:
    Result<Submission, SubmissionError>)
    ensures
        match r {
            Ok(s) => submission_result(opt_str_view(name), opt_str_view(source), opt_str_view(frequency))
                == Ok::<SubmissionView, SubmissionError>(s@),
            Err(e) => submission_result(opt_str_view(name), opt_str_view(source), opt_str_view(frequency))
                == Err::<SubmissionView, SubmissionError>(e),
        },
{
    let name = match form_field(name) {
        Some(n) => n,
        None => return Err(SubmissionError::NameMissing),
    };
    if !valid_name(name.as_str()) {
        return Err(SubmissionError::NameInvalid);
    }
    let source = match form_field(source) {
        Some(s) => s,
        None => return Err(SubmissionError::SourceMissing),
    };
    if !starts_with(source.as_str(), "http://") && !starts_with(source.as_str(), "https://") {
        return Err(SubmissionError::SourceScheme);
    }
    let frequency_hours = parse_frequency(form_field(frequency));
    Ok(Submission { name, source, frequency_hours })
}

/// The record stored for a newly added image.
pub open spec fn new_record_view(s: SubmissionView, content_type: Seq<char>, now_ms: u64) -> ImageRecordView {
    ImageRecordView {
        source: s.source,
        frequency_hours: s.frequency_hours,
        last_success_ms: now_ms,
        dead_since_ms: None,
        content_type: content_type,
    }
}

/// Builds the record of a newly added image fetched at `now_ms`.
pub fn new_record(s: &Submission, content_type: String, now_ms: u64) -> (r: ImageRecord)
    ensures
        r@ == new_record_view(s@, content_type@, now_ms),
{
    ImageRecord {
        source: s.source.clone(),
        frequency_hours: s.frequency_hours,
        last_success_ms: now_ms,
        dead_since_ms: None,
        content_type,
    }
}

/// The extension shown for an optional MIME type.
pub open spec fn optional_extension(content_type: Option<Seq<char>>) -> Seq<char> {
    match content_type {
        Some(ct) => extension_text(ct),
        None => Seq::empty(),
    }
}

/// The notice shown after an image is added: its name and public URL, with
/// the extension of its MIME type when that is known.
pub open spec fn added_notice_text(host: Seq<char>, name: Seq<char>, content_type: Option<Seq<char>>) -> Seq<
    char,
> {
    success_url_text(name, public_url_text(host, name, optional_extension(content_type)))
}

/// Renders the notice shown after an image is added.
pub fn added_notice(host: &str, name: &str, content_type: Option<&str>) -> (html: String)
    ensures
        html@ == added_notice_text(host@, name@, opt_str_view(content_type)),
{
    let ext = match content_type {
        Some(ct) => extension_for(ct),
        None => {
            proof {
                reveal_strlit("");
                assert(""@ =~= Seq::<char>::empty());
            }
            ""
        },
    };
    let url = public_url(host, name, ext);
    success_block_with_url(name, url.as_str())
}

/// The notice shown after an image is deleted.
pub open spec fn deleted_notice_text(name: Seq<char>) -> Seq<char> {
    success_simple_text("Deleted \""@ + name + "\""@)
}

/// Renders the notice shown after an image is deleted.
pub fn deleted_notice(name: &str) -> (html: String)
    ensures
        html@ == deleted_notice_text(name@),
{
    let message = String::from_str("Deleted \"").concat(name).concat("\"");
    success_block_simple(message.as_str())
}

/// The error notice for a refused submission.
pub fn submission_error_notice(e: SubmissionError) -> (html: String)
    ensures
        html@ == error_text(submission_error_text(e)),
{
    error_block(e.message().as_str())
}

/// The error notice when the source could not be fetched.
pub fn fetch_failure_notice(error: &str) -> (html: String)
    ensures
        html@ == error_text("Could not fetch source: "@ + error@),
{
    error_block(String::from_str("Could not fetch source: ").concat(error).as_str())
}

/// The error notice when the image could not be stored.
pub fn store_failure_notice(error: &str) -> (html: String)
    ensures
        html@ == error_text("Could not store image: "@ + error@ + " (KV caps at 25 MiB)"@),
{
    error_block(
        String::from_str("Could not store image: ").concat(error).concat(" (KV caps at 25 MiB)").as_str(),
    )
}

/// What happened to one stored name during a refresh pass.
#[derive(Clone, Copy, Debug, PartialEq, Eq, Structural)]
pub enum RefreshResult {
    /// The image was loaded and handled as described.
    Handled(RefreshOutcome),
    /// The name had no stored image or metadata.
    Missing,
    /// Loading or storing failed.
    Failed,
}

/// Counts of a refresh pass, reported as JSON.
pub struct RefreshSummary {
    pub refreshed: usize,
    pub skipped_fresh: usize,
    pub skipped_permanent: usize,
    pub failed: usize,
}

/// Results counted as refreshed.
pub open spec fn counts_refreshed(r: RefreshResult) -> bool {
    r == RefreshResult::Handled(RefreshOutcome::Refreshed)
}

/// Results counted as skipped because fresh (a missing image counts here too).
pub open spec fn counts_skipped_fresh(r: RefreshResult) -> bool {
    r == RefreshResult::Handled(RefreshOutcome::SkippedFresh) || r == RefreshResult::Missing
}

/// Results counted as skipped because permanent.
pub open spec fn counts_skipped_permanent(r: RefreshResult) -> bool {
    r == RefreshResult::Handled(RefreshOutcome::SkippedPermanent)
}

/// Results counted as failed: a stale copy was served, or an error occurred.
pub open spec fn counts_failed(r: RefreshResult) -> bool {
    r == RefreshResult::Handled(RefreshOutcome::ServedStale) || r == RefreshResult::Failed
}

/// Tallies the results of a refresh pass.
pub fn summarize(results: &Vec<RefreshResult>) -> (s: RefreshSummary)
    ensures
        s.refreshed == results@.filter(|r: RefreshResult| counts_refreshed(r)).len(),
        s.skipped_fresh == results@.filter(|r: RefreshResult| counts_skipped_fresh(r)).len(),
        s.skipped_permanent == results@.filter(|r: RefreshResult| counts_skipped_permanent(r)).len(),
        s.failed == results@.filter(|r: RefreshResult| counts_failed(r)).len(),
{
    let ghost p_ref = |r: RefreshResult| counts_refreshed(r);
    let ghost p_fresh = |r: RefreshResult| counts_skipped_fresh(r);
    let ghost p_perm = |r: RefreshResult| counts_skipped_permanent(r);
    let ghost p_fail = |r: RefreshResult| counts_failed(r);
    let mut s = RefreshSummary { refreshed: 0, skipped_fresh: 0, skipped_permanent: 0, failed: 0 };
    let mut i: usize = 0;
    proof {
        reveal(Seq::filter);
        assert(results@.take(0) =~= Seq::<RefreshResult>::empty());
    }
    while i < results.len()
        invariant
            i <= results@.len(),
            p_ref == (|r: RefreshResult| counts_refreshed(r)),
            p_fresh == (|r: RefreshResult| counts_skipped_fresh(r)),
            p_perm == (|r: RefreshResult| counts_skipped_permanent(r)),
            p_fail == (|r: RefreshResult| counts_failed(r)),
            s.refreshed == results@.take(i as int).filter(p_ref).len(),
            s.skipped_fresh == results@.take(i as int).filter(p_fresh).len(),
            s.skipped_permanent == results@.take(i as int).filter(p_perm).len(),
            s.failed == results@.take(i as int).filter(p_fail).len(),
            s.refreshed + s.skipped_fresh + s.skipped_permanent + s.failed == i,
        decreases results.len() - i,
    {
        let r = results[i];
        proof {
            let pre = results@.take(i as int);
            assert(results@.take(i + 1) =~= pre.push(r));
            pre.lemma_filter_push(r, p_ref);
            pre.lemma_filter_push(r, p_fresh);
            pre.lemma_filter_push(r, p_perm);
            pre.lemma_filter_push(r, p_fail);
        }
        match r {
            RefreshResult::Handled(RefreshOutcome::Refreshed) => s.refreshed = s.refreshed + 1,
            RefreshResult::Handled(RefreshOutcome::SkippedPermanent) => s.skipped_permanent =
                s.skipped_permanent + 1,
            RefreshResult::Handled(RefreshOutcome::SkippedFresh) => s.skipped_fresh = s.skipped_fresh
                + 1,
            RefreshResult::Missing => s.skipped_fresh = s.skipped_fresh + 1,
            RefreshResult::Handled(RefreshOutcome::ServedStale) => s.failed = s.failed + 1,
            RefreshResult::Failed => s.failed = s.failed + 1,
        }
        i = i + 1;
    }
    assert(results@.take(results@.len() as int) =~= results@);
    s
}

/// Every result of a refresh pass is counted exactly once.
pub proof fn lemma_summary_counts_every_result(results: Seq<RefreshResult>)
    ensures
        results.filter(|r: RefreshResult| counts_refreshed(r)).len() + results.filter(
            |r: RefreshResult| counts_skipped_fresh(r),
        ).len() + results.filter(|r: RefreshResult| counts_skipped_permanent(r)).len()
            + results.filter(|r: RefreshResult| counts_failed(r)).len() == results.len(),
    decreases results.len(),
{
    if results.len() > 0 {
        let pre = results.drop_last();
        lemma_summary_counts_every_result(pre);
        assert(results =~= pre.push(results.last()));
        pre.lemma_filter_push(results.last(), |r: RefreshResult| counts_refreshed(r));
        pre.lemma_filter_push(results.last(), |r: RefreshResult| counts_skipped_fresh(r));
        pre.lemma_filter_push(results.last(), |r: RefreshResult| counts_skipped_permanent(r));
        pre.lemma_filter_push(results.last(), |r: RefreshResult| counts_failed(r));
    } else {
        reveal(Seq::filter);
    }
}

/// Normalising a path twice changes nothing more than normalising it once.
pub proof fn lemma_normalize_idempotent(path: Seq<char>)
    ensures
        normalized_path(normalized_path(path)) == normalized_path(path),
{
    if path.len() > 1 {
        lemma_trim_end_char_stable(path, '/');
    }
}

/// After removing trailing `c`s, none is left.
proof fn lemma_trim_end_char_stable(s: Seq<char>, c: char)
    ensures
        trim_end_char(trim_end_char(s, c), c) == trim_end_char(s, c),
    decreases s.len(),
{
    if s.len() > 0 && s.last() == c {
        lemma_trim_end_char_stable(s.drop_last(), c);
    }
}

/// An accepted image is reachable at its public URL: the name there, with the
/// extension of whatever MIME type the source serves, resolves to the stored
/// name, which is never the reserved `refresh` route.
pub proof fn lemma_accepted_name_is_served(
    name: Option<Seq<char>>,
    source: Option<Seq<char>>,
    frequency: Option<Seq<char>>,
    content_type: Seq<char>,
)
    requires
        submission_result(name, source, frequency) is Ok,
    ensures
        ({
            let s = submission_result(name, source, frequency)->Ok_0;
            &&& s.name != "refresh"@
            &&& stripped_name(s.name + extension_text(content_type)) == s.name
        }),
{
    let s = submission_result(name, source, frequency)->Ok_0;
    lemma_public_name_resolves(s.name, content_type);
}


/// A refreshing image is cached by clients for its interval in seconds, but
/// never longer than a day: every interval of a day or more gets exactly a day.
pub proof fn lemma_client_cache_is_capped_interval(frequency_hours: u64)
    ensures
        frequency_hours > 0 ==> max_age_for(frequency_hours) == (if frequency_hours * 3600
            <= 86400 {
            frequency_hours * 3600
        } else {
            86400
        }),
        frequency_hours >= 24 ==> max_age_for(frequency_hours) == 86400,
        frequency_hours == 0 ==> max_age_for(frequency_hours) == 86400,
{
}

} // verus!
