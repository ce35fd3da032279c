use xdownload::config::{AppConfig, FileConfigRepository};
use xdownload::media::VideoFormat;
use xdownload::requests::{
    ExecuteCommandRequest, GetDownloadProgressRequest, ParseUrlRequest, SaveConfigRequest,
    StartDownloadRequest,
};
use xdownload::yt_dlp::{UrlParseError, UrlParser, VideoFields, YtDlpContentDownloader, YtDlpUrlParser};

fn format(id: &str) -> VideoFormat {
    VideoFormat {
        format_id: id.to_string(),
        ext: "mp4".to_string(),
        resolution: Some("1280x720".to_string()),
        filesize: Some(1024),
        format_note: None,
    }
}

fn fields(title: Option<&str>) -> VideoFields {
    VideoFields {
        title: title.map(|t| t.to_string()),
        duration_millis: Some(61_500),
        thumbnail: Some("http://example.com/t.jpg".to_string()),
        formats: vec![format("18"), format("22")],
    }
}

#[test]
fn arguments_that_describe_a_resource() {
    let parser = YtDlpUrlParser::new();
    assert_eq!(
        parser.arguments("http://example.com/v"),
        vec!["--dump-json".to_string(), "http://example.com/v".to_string()]
    );
    let call = parser.invocation(&AppConfig::default(), "http://example.com/v");
    assert_eq!(call.program, "../bin/yt-dlp.exe");
    assert_eq!(call.arguments, vec!["--dump-json", "http://example.com/v"]);
}

#[test]
fn arguments_that_fetch_a_resource() {
    let downloader = YtDlpContentDownloader::new();
    assert_eq!(
        downloader.arguments("../downloads", None, "http://example.com/v"),
        vec!["-o", "../downloads/%(title)s.%(ext)s", "--newline", "http://example.com/v"]
    );
    assert_eq!(
        downloader.arguments("out", Some("best"), "http://example.com/v"),
        vec!["-o", "out/%(title)s.%(ext)s", "--newline", "-f", "best", "http://example.com/v"]
    );
    let call = downloader.invocation(&AppConfig::default(), Some("18"), "u");
    assert_eq!(call.program, "../bin/yt-dlp.exe");
    assert_eq!(
        call.arguments,
        vec!["-o", "../downloads/%(title)s.%(ext)s", "--newline", "-f", "18", "u"]
    );
}

#[test]
fn description_needs_success_output_and_title() {
    let parser = YtDlpUrlParser::new();
    let described = parser.parse_url(true, Some(fields(Some("A title")))).unwrap();
    assert_eq!(described.title, "A title");
    assert_eq!(described.duration_millis, Some(61_500));
    assert_eq!(described.thumbnail, Some("http://example.com/t.jpg".to_string()));
    assert_eq!(described.formats.len(), 2);
    assert_eq!(described.formats[1].format_id, "22");
    assert_eq!(described.formats[0].filesize, Some(1024));
    assert_eq!(parser.parse_url(true, Some(fields(None))).err(), Some(UrlParseError::MissingTitle));
    assert_eq!(parser.parse_url(true, None).err(), Some(UrlParseError::InvalidOutput));
    assert_eq!(
        parser.parse_url(false, Some(fields(Some("A title")))).err(),
        Some(UrlParseError::DownloaderFailed)
    );
    assert_eq!(parser.parse_url(false, None).err(), Some(UrlParseError::DownloaderFailed));
}

#[test]
fn copy_of_a_format_equals_it() {
    let original = format("18");
    let copy = original.clone();
    assert_eq!(copy.format_id, "18");
    assert_eq!(copy.ext, "mp4");
    assert_eq!(copy.resolution, Some("1280x720".to_string()));
    assert_eq!(copy.filesize, Some(1024));
    assert_eq!(copy.format_note, None);
}

#[test]
fn default_settings() {
    let config = AppConfig::default();
    assert_eq!(config.yt_dlp_path, "../bin/yt-dlp.exe");
    assert_eq!(config.download_path, "../downloads");
    assert_eq!(config.max_concurrent_downloads, 3);
    let copy = config.clone();
    assert_eq!(copy.download_path, config.download_path);
}

#[test]
fn settings_file_and_its_defaults() {
    let repository = FileConfigRepository::new();
    assert_eq!(repository.path(), "config.json");
    assert_eq!(FileConfigRepository::default().path(), "config.json");
    let missing = repository.settings_or_default(None);
    assert_eq!(missing.yt_dlp_path, "../bin/yt-dlp.exe");
    let stored = AppConfig {
        yt_dlp_path: "yt-dlp".to_string(),
        download_path: "out".to_string(),
        max_concurrent_downloads: 9,
    };
    let kept = repository.settings_or_default(Some(stored));
    assert_eq!(kept.yt_dlp_path, "yt-dlp");
    assert_eq!(kept.download_path, "out");
    assert_eq!(kept.max_concurrent_downloads, 9);
}

#[test]
fn request_names_its_format_or_the_best() {
    let named = StartDownloadRequest { url: "u".to_string(), format_id: Some("18".to_string()) };
    assert_eq!(named.format(), "18");
    let bare = StartDownloadRequest { url: "u".to_string(), format_id: None };
    assert_eq!(bare.format(), "best");
}

#[test]
fn requests_carry_their_fields() {
    assert_eq!(ExecuteCommandRequest { command: "ls -l".to_string() }.command, "ls -l");
    assert_eq!(ParseUrlRequest { url: "u".to_string() }.url, "u");
    assert_eq!(GetDownloadProgressRequest { task_id: "t1".to_string() }.task_id, "t1");
    let request = SaveConfigRequest { config: AppConfig::default() };
    assert_eq!(request.config.max_concurrent_downloads, 3);
}
