//! The metadata stored beside each image's bytes.

use vstd::prelude::*;

verus! {

/// Image metadata kept separately from the raw bytes.
#[derive(Clone, Debug)]
pub struct ImageRecord {
    /// Original URL used to refresh the image.
    pub source: String,
    /// Refresh interval in hours; zero means upload once.
    pub frequency_hours: u64,
    /// Timestamp (milliseconds) of the last successful upstream fetch.
    pub last_success_ms: u64,
    /// Timestamp (milliseconds) of the first failed refresh, when applicable.
    pub dead_since_ms: Option<u64>,
    /// MIME type used when serving the stored bytes.
    pub content_type: String,
}

/// The mathematical value of an [`ImageRecord`].
pub struct ImageRecordView {
    pub source: Seq<char>,
    pub frequency_hours: u64,
    pub last_success_ms: u64,
    pub dead_since_ms: Option<u64>,
    pub content_type: Seq<char>,
}

impl View for ImageRecord {
    type V = ImageRecordView;

    open spec fn view(&self) -> ImageRecordView {
        ImageRecordView {
            source: self.source@,
            frequency_hours: self.frequency_hours,
            last_success_ms: self.last_success_ms,
            dead_since_ms: self.dead_since_ms,
            content_type: self.content_type@,
        }
    }
}

} // verus!
