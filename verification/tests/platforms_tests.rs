use xdownload::platforms::{
    join, join_numbers, BilibiliSearchService, BilibiliVideo, NeteaseSearchService, NeteaseSong,
    PlatformError, PlatformKind, PlatformSearchItem, PlatformServiceManager,
};

fn song() -> NeteaseSong {
    NeteaseSong {
        id: 186016,
        name: "晴天".to_string(),
        artists: vec!["周杰伦".to_string(), "Guest".to_string()],
        artist_ids: vec![6452, -1],
        album_id: 18905,
        album_name: "叶惠美".to_string(),
        album_pic: "http://example.com/a.jpg".to_string(),
        duration: 269_000,
        publish_time: 1_059_580_800_000,
    }
}

fn video(bvid: &str) -> BilibiliVideo {
    BilibiliVideo {
        bvid: bvid.to_string(),
        title: "A video".to_string(),
        pic: "http://example.com/p.jpg".to_string(),
        author: "Someone".to_string(),
        duration: 3725,
        pubdate: 1_546_300_800,
        play: 1000,
        danmaku: 20,
    }
}

#[test]
fn song_reads_as_a_search_result() {
    let item = NeteaseSearchService::item(&song());
    assert_eq!(item.id, "186016");
    assert_eq!(item.title, "晴天 - 周杰伦, Guest");
    assert_eq!(item.url, "https://music.163.com/song?id=186016");
    assert_eq!(item.platform, "netease");
    assert_eq!(item.file_type, "audio");
    assert_eq!(item.size, None);
    assert_eq!(item.duration, Some("04:29".to_string()));
    assert_eq!(item.thumbnail, Some("http://example.com/a.jpg".to_string()));
    assert_eq!(item.description, Some("叶惠美".to_string()));
    assert_eq!(item.uploader, Some("周杰伦, Guest".to_string()));
    assert_eq!(item.upload_date, Some("2003-07-30".to_string()));
    assert_eq!(item.quality, None);
    assert_eq!(item.format, None);
    assert_eq!(
        item.metadata,
        Some(
            "{\"album_id\":18905,\"artist_ids\":[6452,-1],\"duration\":269000,\"publish_time\":1059580800000,\"song_id\":186016}"
                .to_string()
        )
    );
    let value: serde_json::Value = serde_json::from_str(item.metadata.as_ref().unwrap()).unwrap();
    assert_eq!(value["song_id"].as_i64(), Some(186016));
    assert_eq!(value["artist_ids"][1].as_i64(), Some(-1));
}

#[test]
fn song_without_artists_or_numbers() {
    let bare = NeteaseSong {
        id: 0,
        name: String::new(),
        artists: Vec::new(),
        artist_ids: Vec::new(),
        album_id: 0,
        album_name: String::new(),
        album_pic: String::new(),
        duration: 0,
        publish_time: 0,
    };
    let item = NeteaseSearchService::item(&bare);
    assert_eq!(item.id, "0");
    assert_eq!(item.title, " - ");
    assert_eq!(item.duration, Some("00:00".to_string()));
    assert_eq!(item.upload_date, Some("1970-01-01".to_string()));
    assert_eq!(item.uploader, Some(String::new()));
    assert_eq!(
        item.metadata,
        Some(
            "{\"album_id\":0,\"artist_ids\":[],\"duration\":0,\"publish_time\":0,\"song_id\":0}"
                .to_string()
        )
    );
}

#[test]
fn songs_of_an_answer_are_cut_to_the_page() {
    let service = NeteaseSearchService::new();
    let songs = vec![song(), song(), song()];
    assert_eq!(service.items(&songs, 2).len(), 2);
    assert_eq!(service.items(&songs, 3).len(), 3);
    assert_eq!(service.items(&songs, 10).len(), 3);
    assert_eq!(service.items(&songs, 0).len(), 0);
    assert_eq!(service.items(&Vec::new(), 5).len(), 0);
    assert_eq!(service.items(&songs, 2)[1].id, "186016");
    assert_eq!(service.get_platform_id(), "netease");
}

#[test]
fn offset_of_a_page() {
    assert_eq!(NeteaseSearchService::offset(1, 10), Some(0));
    assert_eq!(NeteaseSearchService::offset(2, 10), Some(10));
    assert_eq!(NeteaseSearchService::offset(5, 0), Some(0));
    assert_eq!(NeteaseSearchService::offset(0, 10), None);
    assert_eq!(NeteaseSearchService::offset(u32::MAX, u32::MAX), None);
    assert_eq!(NeteaseSearchService::offset(2, u32::MAX), Some(u32::MAX));
    assert_eq!(NeteaseSearchService::offset(3, u32::MAX), None);
    assert_eq!(NeteaseSearchService::offset(65_537, 65_536), None);
    assert_eq!(NeteaseSearchService::offset(65_536, 65_537), Some(4_294_967_295));
}

#[test]
fn parameters_of_a_search() {
    assert_eq!(
        NeteaseSearchService::parameters("\"hello world\"", 10, 10),
        "{\"limit\":10,\"offset\":10,\"s\":\"hello world\",\"type\":1}"
    );
}

#[test]
fn body_of_the_search_request_is_made_fit_for_a_url() {
    let service = NeteaseSearchService::new();
    assert_eq!(
        service.request_body("hello world", 2, 10),
        Some(
            "params=%7B%22limit%22%3A10%2C%22offset%22%3A10%2C%22s%22%3A%22hello%20world%22%2C%22type%22%3A1%7D"
                .to_string()
        )
    );
    assert_eq!(
        service.request_body("a-b_c.d~e", 1, 1),
        Some(
            "params=%7B%22limit%22%3A1%2C%22offset%22%3A0%2C%22s%22%3A%22a-b_c.d~e%22%2C%22type%22%3A1%7D"
                .to_string()
        )
    );
    assert_eq!(
        service.request_body("晴\"", 1, 5),
        Some(
            "params=%7B%22limit%22%3A5%2C%22offset%22%3A0%2C%22s%22%3A%22%E6%99%B4%5C%22%22%2C%22type%22%3A1%7D"
                .to_string()
        )
    );
    assert_eq!(service.request_body("x", 0, 10), None);
    assert_eq!(service.request_body("x", u32::MAX, u32::MAX), None);
}

#[test]
fn video_reads_as_a_search_result() {
    let service = BilibiliSearchService::new();
    let item = service.item(&video("BV1xx411c7mD")).unwrap();
    assert_eq!(item.id, "BV1xx411c7mD");
    assert_eq!(item.title, "A video");
    assert_eq!(item.url, "https://www.bilibili.com/video/BV1xx411c7mD");
    assert_eq!(item.platform, "bilibili");
    assert_eq!(item.file_type, "video");
    assert_eq!(item.size, None);
    assert_eq!(item.duration, Some("01:02:05".to_string()));
    assert_eq!(item.thumbnail, Some("http://example.com/p.jpg".to_string()));
    assert_eq!(item.description, None);
    assert_eq!(item.uploader, Some("Someone".to_string()));
    assert_eq!(item.upload_date, Some("2019-01-01".to_string()));
    assert_eq!(item.metadata, Some("{\"danmaku\":20,\"play\":1000}".to_string()));
    assert_eq!(service.get_platform_id(), "bilibili");
}

#[test]
fn video_without_id_makes_no_result() {
    let service = BilibiliSearchService::new();
    assert!(service.item(&video("")).is_none());
    let videos = vec![video("a"), video(""), video("b"), video("c")];
    let ids = |items: Vec<PlatformSearchItem>| -> Vec<String> {
        items.into_iter().map(|i| i.id).collect()
    };
    assert_eq!(ids(service.items(&videos, 10)), vec!["a", "b", "c"]);
    assert_eq!(ids(service.items(&videos, 3)), vec!["a", "b"]);
    assert_eq!(ids(service.items(&videos, 2)), vec!["a"]);
    assert!(service.items(&videos, 0).is_empty());
}

#[test]
fn length_of_a_video() {
    let service = BilibiliSearchService::new();
    assert_eq!(service.format_duration(0), "00:00");
    assert_eq!(service.format_duration(59), "00:59");
    assert_eq!(service.format_duration(3599), "59:59");
    assert_eq!(service.format_duration(3600), "01:00:00");
    assert_eq!(service.format_duration(3725), "01:02:05");
    assert_eq!(service.format_duration(360_000), "100:00:00");
    assert_eq!(service.format_duration(-5), "00:-5");
    assert_eq!(service.format_duration(-3725), "-2:-5");
}

#[test]
fn platform_result_becomes_a_search_result_with_every_detail_set() {
    let item = PlatformSearchItem {
        id: "1".to_string(),
        title: "T".to_string(),
        url: "u".to_string(),
        platform: "netease".to_string(),
        file_type: "audio".to_string(),
        size: None,
        duration: Some("03:00".to_string()),
        thumbnail: None,
        description: Some("d".to_string()),
        uploader: None,
        upload_date: None,
        quality: None,
        format: Some("mp3".to_string()),
        metadata: Some("{}".to_string()),
    };
    let listed = item.into_search_item();
    assert_eq!(listed.id, "1");
    assert_eq!(listed.title, "T");
    assert_eq!(listed.size, Some(String::new()));
    assert_eq!(listed.duration, Some("03:00".to_string()));
    assert_eq!(listed.thumbnail, Some(String::new()));
    assert_eq!(listed.description, Some("d".to_string()));
    assert_eq!(listed.uploader, Some(String::new()));
    assert_eq!(listed.upload_date, Some(String::new()));
    assert_eq!(listed.quality, Some(String::new()));
    assert_eq!(listed.format, Some("mp3".to_string()));
    assert_eq!(listed.metadata, None);
}

#[test]
fn platforms_are_found_by_their_ids() {
    let manager = PlatformServiceManager::new();
    assert_eq!(manager.get_search_service("netease"), Some(PlatformKind::Netease));
    assert_eq!(manager.get_search_service("qq"), Some(PlatformKind::Qq));
    assert_eq!(manager.get_search_service("youtube"), Some(PlatformKind::Youtube));
    assert_eq!(manager.get_download_service("bilibili"), Some(PlatformKind::Bilibili));
    assert_eq!(manager.get_download_service("baidu"), Some(PlatformKind::Baidu));
    assert_eq!(manager.get_download_service("aliyun"), Some(PlatformKind::Aliyun));
    assert_eq!(manager.get_search_service("Netease"), None);
    assert_eq!(manager.get_search_service(""), None);
    assert_eq!(manager.get_all_search_services().len(), 6);
    for kind in manager.get_all_download_services() {
        assert_eq!(manager.get_download_service(kind.get_platform_id()), Some(kind));
        assert_eq!(kind.can_search(), kind == PlatformKind::Netease || kind == PlatformKind::Bilibili);
        assert_eq!(kind.get_download_info("1").err(), Some(PlatformError::NotImplemented));
    }
}

#[test]
fn texts_and_numbers_are_joined() {
    assert_eq!(join(&Vec::new(), ", "), "");
    assert_eq!(join(&vec!["a".to_string()], ", "), "a");
    assert_eq!(join(&vec!["a".to_string(), "".to_string(), "c".to_string()], ", "), "a, , c");
    assert_eq!(join_numbers(&vec![1, -20, 0], ","), "1,-20,0");
    assert_eq!(join_numbers(&vec![i64::MIN, i64::MAX], "|"), "-9223372036854775808|9223372036854775807");
    assert_eq!(join_numbers(&Vec::new(), ","), "");
}
