//! The remote queue as the service reports it.

use vstd::prelude::*;
use vstd::string::StringExecFns;
use crate::settings::Lidarr;

verus! {

/// One page of the remote download queue.
#[derive(Default, Debug, Clone, PartialEq)]
pub struct Queue {
    pub page: i64,
    pub page_size: i64,
    pub sort_key: String,
    pub sort_direction: String,
    pub total_records: i64,
    pub records: Vec<Record>,
}

/// One entry of the remote download queue.
#[derive(Default, Debug, Clone, PartialEq)]
pub struct Record {
    pub artist_id: i64,
    pub album_id: Option<i64>,
    pub quality: Quality,
    pub custom_formats: Vec<CustomFormat>,
    pub custom_format_score: i64,
    pub size: i64,
    pub title: String,
    pub sizeleft: i64,
    pub status: String,
    pub tracked_download_status: String,
    pub tracked_download_state: String,
    pub status_messages: Vec<StatusMessage>,
    pub error_message: Option<String>,
    pub download_id: String,
    pub protocol: String,
    pub download_client: String,
    pub indexer: Option<String>,
    pub output_path: Option<String>,
    pub download_forced: bool,
    pub id: i64,
    pub timeleft: Option<String>,
    pub estimated_completion_time: Option<String>,
}

/// The quality that the service assigned to a download.
#[derive(Default, Debug, Clone, PartialEq, Eq)]
pub struct Quality {
    pub quality: Quality2,
    pub revision: Revision,
}

/// A named quality level.
#[derive(Default, Debug, Clone, PartialEq, Eq)]
pub struct Quality2 {
    pub id: i64,
    pub name: String,
}

/// The revision of a release.
#[derive(Default, Debug, Clone, PartialEq, Eq)]
pub struct Revision {
    pub version: i64,
    pub real: i64,
    pub is_repack: bool,
}

/// A custom format that a download matched.
#[derive(Default, Debug, Clone, PartialEq)]
pub struct CustomFormat {
    pub id: i64,
    pub name: String,
}

/// Messages that the service attached to a download.
#[derive(Default, Debug, Clone, PartialEq, Eq)]
pub struct StatusMessage {
    pub title: String,
    pub messages: Vec<String>,
}

/// What a reconciliation cycle reads of a queue record.
pub struct RecordView {
    pub download_id: Seq<char>,
    pub title: Seq<char>,
    pub status: Seq<char>,
    pub tracked_download_state: Seq<char>,
    pub output_path: Option<Seq<char>>,
}

impl View for Record {
    type V = RecordView;

    open spec fn view(&self) -> RecordView {
        RecordView {
            download_id: self.download_id@,
            title: self.title@,
            status: self.status@,
            tracked_download_state: self.tracked_download_state@,
            output_path: match self.output_path {
                Some(path) => Some(path@),
                None => None,
            },
        }
    }
}

impl Queue {
    /// The address from which the queue is fetched: the service's base
    /// address followed by the queue's path.
    pub fn url(lidarr: &Lidarr) -> (url: String)
        ensures
            url@ == lidarr.url@ + "/api/v1/queue"@,
    {
        lidarr.url.clone().concat("/api/v1/queue")
    }

    /// The name of the request header that carries the API key.
    pub fn api_key_header() -> (name: &'static str)
        ensures
            name@ == "x-api-key"@,
    {
        "x-api-key"
    }
}

} // verus!
