//! The requests that a client sends.

use vstd::prelude::*;
use crate::config::AppConfig;
use crate::platform::optional_text;

verus! {

/// A command line to run.
#[derive(Clone, Debug)]
pub struct ExecuteCommandRequest {
    pub command: String,
}

/// An address to describe.
#[derive(Clone, Debug)]
pub struct ParseUrlRequest {
    pub url: String,
}

/// An address to download, with the wanted format if there is one.
#[derive(Clone, Debug)]
pub struct StartDownloadRequest {
    pub url: String,
    pub format_id: Option<String>,
}

/// The format that is asked for where a request names none.
pub open spec fn best_format() -> Seq<char> {
    "best"@
}

impl StartDownloadRequest {
    /// The format to download: the one that the request names, or the best.
    pub fn format(&self) -> (r: String)
        ensures
            r@ == match optional_text(self.format_id) {
                Some(format) => format,
                None => best_format(),
            },
    {
        match &self.format_id {
            Some(format) => format.clone(),
            None => "best".to_string(),
        }
    }
}

/// A task whose progress is asked for.
#[derive(Clone, Debug)]
pub struct GetDownloadProgressRequest {
    pub task_id: String,
}

/// Settings to store.
#[derive(Clone, Debug)]
pub struct SaveConfigRequest {
    pub config: AppConfig,
}

/// A search: what to look for, of which type, on which platform, and which
/// page of the results.
#[derive(Clone, Debug)]
pub struct SearchRequest {
    pub query: String,
    pub file_type: String,
    pub platform: String,
    pub page: u32,
    pub page_size: u32,
}

} // verus!
