//! What the downloader tells about a resource before it is fetched.

use vstd::prelude::*;
use crate::platform::optional_text;

verus! {

/// The mathematical value of a format.
pub struct FormatView {
    pub format_id: Seq<char>,
    pub ext: Seq<char>,
    pub resolution: Option<Seq<char>>,
    pub filesize: Option<u64>,
    pub format_note: Option<Seq<char>>,
}

/// One of the formats in which a resource is offered.
#[derive(Debug)]
pub struct VideoFormat {
    pub format_id: String,
    pub ext: String,
    pub resolution: Option<String>,
    pub filesize: Option<u64>,
    pub format_note: Option<String>,
}

impl View for VideoFormat {
    type V = FormatView;

    open spec fn view(&self) -> FormatView {
        FormatView {
            format_id: self.format_id@,
            ext: self.ext@,
            resolution: optional_text(self.resolution),
            filesize: self.filesize,
            format_note: optional_text(self.format_note),
        }
    }
}

impl Clone for VideoFormat {
    fn clone(&self) -> (r: Self)
        ensures
            r@ == self@,
    {
        VideoFormat {
            format_id: self.format_id.clone(),
            ext: self.ext.clone(),
            resolution: self.resolution.clone(),
            filesize: self.filesize,
            format_note: self.format_note.clone(),
        }
    }
}

/// The values of a sequence of formats.
pub open spec fn format_views(formats: Seq<VideoFormat>) -> Seq<FormatView> {
    formats.map_values(|f: VideoFormat| f@)
}

/// The mathematical value of a description of a resource.
pub struct ParseResultView {
    pub title: Seq<char>,
    pub duration_millis: Option<u64>,
    pub thumbnail: Option<Seq<char>>,
    pub formats: Seq<FormatView>,
}

/// The description of a resource: its title, its length in milliseconds,
/// a picture of it and the formats on offer.
#[derive(Debug)]
pub struct ParseResult {
    pub title: String,
    pub duration_millis: Option<u64>,
    pub thumbnail: Option<String>,
    pub formats: Vec<VideoFormat>,
}

impl View for ParseResult {
    type V = ParseResultView;

    open spec fn view(&self) -> ParseResultView {
        ParseResultView {
            title: self.title@,
            duration_millis: self.duration_millis,
            thumbnail: optional_text(self.thumbnail),
            formats: format_views(self.formats@),
        }
    }
}

} // verus!
