//! What is specific to the downloader `yt-dlp`: how it is called, and how
//! its output is read.

use vstd::prelude::*;
use crate::config::AppConfig;
use crate::media::{format_views, ParseResult, ParseResultView, VideoFormat};
use crate::platform::{optional_str, optional_text, texts};
use crate::progress::{
    has_percent,
    line_report,
    parse_line,
    parse_progress,
    parse_speed,
    progress_of,
    speed_of,
};
use crate::task::FULL_PROGRESS;

verus! {

/// Why a resource could not be described.
#[derive(Clone, Copy, Debug, PartialEq, Eq, Structural)]
pub enum UrlParseError {
    /// The downloader ended with a failure.
    DownloaderFailed,
    /// What the downloader printed is no description.
    InvalidOutput,
    /// The description names no title.
    MissingTitle,
}

/// What was read out of the downloader's description of a resource.
#[derive(Debug)]
pub struct VideoFields {
    pub title: Option<String>,
    pub duration_millis: Option<u64>,
    pub thumbnail: Option<String>,
    pub formats: Vec<VideoFormat>,
}

/// The mathematical value of a call of a program.
pub struct InvocationView {
    pub program: Seq<char>,
    pub arguments: Seq<Seq<char>>,
}

/// A program to start, with its arguments.
#[derive(Debug)]
pub struct Invocation {
    pub program: String,
    pub arguments: Vec<String>,
}

impl View for Invocation {
    type V = InvocationView;

    open spec fn view(&self) -> InvocationView {
        InvocationView { program: self.program@, arguments: texts(self.arguments@) }
    }
}

/// The arguments that make the downloader describe a resource.
pub open spec fn describe_arguments(url: Seq<char>) -> Seq<Seq<char>> {
    seq!["--dump-json"@, url]
}

/// Where a download goes: into the download directory, under the
/// resource's title and extension.
pub open spec fn output_template(download_path: Seq<char>) -> Seq<char> {
    download_path + "/%(title)s.%(ext)s"@
}

/// The arguments that make the downloader fetch a resource, report its
/// progress line by line, and take the given format if one is named.
pub open spec fn download_arguments(
    download_path: Seq<char>,
    format: Option<Seq<char>>,
    url: Seq<char>,
) -> Seq<Seq<char>> {
    seq!["-o"@, output_template(download_path), "--newline"@] + (match format {
        Some(f) => seq!["-f"@, f],
        None => Seq::<Seq<char>>::empty(),
    }) + seq![url]
}

/// What a downloader's output line reports, as mathematical values.
pub open spec fn report_view(r: (Option<u32>, Option<String>)) -> (Option<nat>, Option<Seq<char>>) {
    (
        match r.0 {
            Some(p) => Some(p as nat),
            None => None,
        },
        optional_text(r.1),
    )
}

/// What keeps a resource from being described: a failed downloader, an
/// unreadable output or a missing title, in this order; nothing if all is
/// there.
pub open spec fn parse_url_error(success: bool, fields: Option<VideoFields>) -> Option<
    UrlParseError,
> {
    if !success {
        Some(UrlParseError::DownloaderFailed)
    } else {
        match fields {
            None => Some(UrlParseError::InvalidOutput),
            Some(f) => if f.title is None {
                Some(UrlParseError::MissingTitle)
            } else {
                None
            },
        }
    }
}

/// The description that the fields of a titled resource make up.
pub open spec fn described_by(fields: VideoFields) -> ParseResultView {
    ParseResultView {
        title: fields.title->0@,
        duration_millis: fields.duration_millis,
        thumbnail: optional_text(fields.thumbnail),
        formats: format_views(fields.formats@),
    }
}

/// A tool that describes resources.
pub trait UrlParser {
    /// The arguments that make the tool describe the resource at `url`.
    spec fn describing(&self, url: Seq<char>) -> Seq<Seq<char>>;

    /// The arguments that make the tool describe the resource at `url`.
    fn arguments(&self, url: &str) -> (r: Vec<String>)
        ensures
            texts(r@) == self.describing(url@),
    ;
}

/// A tool that fetches resources and reports its progress line by line.
/// What a line reports depends on the line alone.
pub trait ContentDownloader {
    /// What a line of the tool's output reports.
    spec fn report(&self, line: Seq<char>) -> (Option<nat>, Option<Seq<char>>);

    /// Reads the percentage, in hundredths of a percent, and the speed out
    /// of a line of the tool's output.
    fn parse(&self, line: &str) -> (r: (Option<u32>, Option<String>))
        ensures
            report_view(r) == self.report(line@),
            r.0 matches Some(p) ==> p <= FULL_PROGRESS,
    ;
}

/// The describing side of `yt-dlp`.
#[derive(Clone, Copy, Debug)]
pub struct YtDlpUrlParser;

impl YtDlpUrlParser {
    /// The describing side of `yt-dlp`.
    pub fn new() -> (r: Self) {
        YtDlpUrlParser
    }

    /// The call that describes the resource at `url`.
    pub fn invocation(&self, config: &AppConfig, url: &str) -> (r: Invocation)
        ensures
            r@ == (InvocationView {
                program: config@.yt_dlp_path,
                arguments: describe_arguments(url@),
            }),
    {
        Invocation { program: config.yt_dlp_path.clone(), arguments: self.arguments(url) }
    }

    /// The description of a resource, from how the downloader ended and
    /// what was read out of its output. It needs a successful end, a
    /// readable output and a title, and fails with the first of these that
    /// is missing.
    pub fn parse_url(&self, success: bool, fields: Option<VideoFields>) -> (r: Result<
        ParseResult,
        UrlParseError,
    >)
        ensures
            match r {
                Ok(described) => parse_url_error(success, fields) is None && described@
                    == described_by(fields->0),
                Err(e) => parse_url_error(success, fields) == Some(e),
            },
    {
        if !success {
            return Err(UrlParseError::DownloaderFailed);
        }
        match fields {
            None => Err(UrlParseError::InvalidOutput),
            Some(f) => match f.title {
                None => Err(UrlParseError::MissingTitle),
                Some(title) => Ok(
                    ParseResult {
                        title,
                        duration_millis: f.duration_millis,
                        thumbnail: f.thumbnail,
                        formats: f.formats,
                    },
                ),
            },
        }
    }
}

impl UrlParser for YtDlpUrlParser {
    open spec fn describing(&self, url: Seq<char>) -> Seq<Seq<char>> {
        describe_arguments(url)
    }

    fn arguments(&self, url: &str) -> (r: Vec<String>) {
        let mut r: Vec<String> = Vec::new();
        r.push("--dump-json".to_string());
        r.push(url.to_string());
        assert(texts(r@) =~= describe_arguments(url@));
        r
    }
}

/// The fetching side of `yt-dlp`.
#[derive(Clone, Copy, Debug)]
pub struct YtDlpContentDownloader;

impl YtDlpContentDownloader {
    /// The fetching side of `yt-dlp`.
    pub fn new() -> (r: Self) {
        YtDlpContentDownloader
    }

    /// The percentage that a line of output reports, in hundredths of a
    /// percent.
    pub fn parse_progress(line: &str) -> (r: Option<u32>)
        ensures
            r is Some <==> progress_of(line@) is Some,
            r matches Some(p) ==> progress_of(line@) == Some(p as nat) && p <= FULL_PROGRESS,
    {
        parse_progress(line)
    }

    /// The speed that a line of output reports. A line without a percent
    /// sign reports none.
    pub fn parse_speed(line: &str) -> (r: Option<String>)
        ensures
            optional_text(r) == speed_of(line@),
            optional_text(r) == line_report(line@).1,
            !has_percent(line@) ==> r is None,
    {
        parse_speed(line)
    }

    /// The arguments that make the downloader fetch the resource at `url`
    /// into the directory `download_path`.
    pub fn arguments(&self, download_path: &str, format: Option<&str>, url: &str) -> (r: Vec<
        String,
    >)
        ensures
            texts(r@) == download_arguments(download_path@, optional_str(format), url@),
    {
        let mut r: Vec<String> = Vec::new();
        r.push("-o".to_string());
        let mut template = download_path.to_string();
        template.append("/%(title)s.%(ext)s");
        r.push(template);
        r.push("--newline".to_string());
        match format {
            Some(f) => {
                r.push("-f".to_string());
                r.push(f.to_string());
            },
            None => {},
        }
        r.push(url.to_string());
        assert(texts(r@) =~= download_arguments(download_path@, optional_str(format), url@));
        r
    }

    /// The call that fetches the resource at `url`.
    pub fn invocation(&self, config: &AppConfig, format: Option<&str>, url: &str) -> (r: Invocation)
        ensures
            r@ == (InvocationView {
                program: config@.yt_dlp_path,
                arguments: download_arguments(config@.download_path, optional_str(format), url@),
            }),
    {
        Invocation {
            program: config.yt_dlp_path.clone(),
            arguments: self.arguments(config.download_path.as_str(), format, url),
        }
    }
}

impl ContentDownloader for YtDlpContentDownloader {
    open spec fn report(&self, line: Seq<char>) -> (Option<nat>, Option<Seq<char>>) {
        line_report(line)
    }

    fn parse(&self, line: &str) -> (r: (Option<u32>, Option<String>)) {
        parse_line(line)
    }
}

} // verus!
