use xdownload::requests::SearchRequest;
use xdownload::search::{
    create_search_service, SearchItem, SearchResponse, SearchService, SearchSuggestion,
};

fn item(id: &str) -> SearchItem {
    SearchItem::new(
        id.to_string(),
        "Title".to_string(),
        "http://example.com/1".to_string(),
        "netease".to_string(),
        "audio".to_string(),
    )
}

#[test]
fn new_search_item_has_no_details() {
    let item = item("1");
    assert_eq!(item.id, "1");
    assert_eq!(item.title, "Title");
    assert_eq!(item.url, "http://example.com/1");
    assert_eq!(item.platform, "netease");
    assert_eq!(item.file_type, "audio");
    assert_eq!(item.size, None);
    assert_eq!(item.duration, None);
    assert_eq!(item.thumbnail, None);
    assert_eq!(item.description, None);
    assert_eq!(item.uploader, None);
    assert_eq!(item.upload_date, None);
    assert_eq!(item.quality, None);
    assert_eq!(item.format, None);
    assert_eq!(item.metadata, None);
}

#[test]
fn details_are_set_one_by_one() {
    let item = item("1")
        .with_size("3MB".to_string())
        .with_duration("03:05".to_string())
        .with_thumbnail("http://example.com/p.png".to_string())
        .with_description("A song".to_string())
        .with_uploader("Someone".to_string())
        .with_upload_date("2019-01-01".to_string())
        .with_quality("high".to_string())
        .with_format("mp3".to_string())
        .with_metadata("{\"play\":1}".to_string());
    assert_eq!(item.id, "1");
    assert_eq!(item.size, Some("3MB".to_string()));
    assert_eq!(item.duration, Some("03:05".to_string()));
    assert_eq!(item.thumbnail, Some("http://example.com/p.png".to_string()));
    assert_eq!(item.description, Some("A song".to_string()));
    assert_eq!(item.uploader, Some("Someone".to_string()));
    assert_eq!(item.upload_date, Some("2019-01-01".to_string()));
    assert_eq!(item.quality, Some("high".to_string()));
    assert_eq!(item.format, Some("mp3".to_string()));
    assert_eq!(item.metadata, Some("{\"play\":1}".to_string()));
}

#[test]
fn number_of_pages_is_rounded_up() {
    let pages = |total: u32, page_size: u32| {
        SearchResponse::new(Vec::new(), total, 1, page_size, None).total_pages
    };
    assert_eq!(pages(0, 10), 0);
    assert_eq!(pages(1, 10), 1);
    assert_eq!(pages(10, 10), 1);
    assert_eq!(pages(11, 10), 2);
    assert_eq!(pages(100, 7), 15);
    assert_eq!(pages(5, 0), 0);
    assert_eq!(pages(u32::MAX, 1), u32::MAX);
    assert_eq!(pages(u32::MAX, u32::MAX), 1);
    assert_eq!(pages(u32::MAX, 2), 2_147_483_648);
    assert_eq!(pages(1, u32::MAX), 1);
}

#[test]
fn response_keeps_what_it_was_given() {
    let response = SearchResponse::new(vec![item("1"), item("2")], 42, 3, 20, Some("{}".to_string()));
    assert_eq!(response.items.len(), 2);
    assert_eq!(response.items[1].id, "2");
    assert_eq!(response.total, 42);
    assert_eq!(response.page, 3);
    assert_eq!(response.page_size, 20);
    assert_eq!(response.total_pages, 3);
    assert_eq!(response.metadata, Some("{}".to_string()));
}

#[test]
fn response_of_a_search_counts_its_results() {
    let service = SearchService::new();
    let response = service.response(vec![item("1"), item("2"), item("3")], "love", "netease", 1, 2);
    assert_eq!(response.total, 3);
    assert_eq!(response.total_pages, 2);
    assert_eq!(response.page, 1);
    assert_eq!(response.page_size, 2);
    assert_eq!(response.items.len(), 3);
    assert_eq!(
        response.metadata,
        Some("{\"platform\":\"netease\",\"query\":\"love\"}".to_string())
    );
}

#[test]
fn metadata_is_a_json_document() {
    assert_eq!(
        SearchService::metadata("say \"hi\"\n", "a\\b"),
        Some("{\"platform\":\"a\\\\b\",\"query\":\"say \\\"hi\\\"\\n\"}".to_string())
    );
    assert_eq!(
        SearchService::metadata("", ""),
        Some("{\"platform\":\"\",\"query\":\"\"}".to_string())
    );
    let text = SearchService::metadata("热门", "bilibili").unwrap();
    let value: serde_json::Value = serde_json::from_str(&text).unwrap();
    assert_eq!(value["query"].as_str(), Some("热门"));
    assert_eq!(value["platform"].as_str(), Some("bilibili"));
}

#[test]
fn metadata_needs_both_parts() {
    assert_eq!(SearchService::metadata_of(None, Some("\"q\"".to_string())), None);
    assert_eq!(SearchService::metadata_of(Some("\"p\"".to_string()), None), None);
    assert_eq!(SearchService::metadata_of(None, None), None);
    assert_eq!(
        SearchService::metadata_of(Some("\"p\"".to_string()), Some("\"q\"".to_string())),
        Some("{\"platform\":\"p\",\"query\":\"q\"}".to_string())
    );
}

#[test]
fn new_suggestion_keeps_what_it_was_given() {
    let suggestion = SearchSuggestion::new("rock".to_string(), "suggestion".to_string(), Some(5));
    assert_eq!(suggestion.text, "rock");
    assert_eq!(suggestion.type_, "suggestion");
    assert_eq!(suggestion.count, Some(5));
    let bare = SearchSuggestion::new(String::new(), String::new(), None);
    assert_eq!(bare.count, None);
}

#[test]
fn suggestion_count_lies_between_one_hundred_and_eleven_hundred() {
    let with = |seed: u32| SearchService::suggestion("q", "x", seed).count;
    assert_eq!(with(0), Some(100));
    assert_eq!(with(999), Some(1099));
    assert_eq!(with(1000), Some(100));
    assert_eq!(with(123_456), Some(556));
    assert_eq!(with(u32::MAX), Some(395));
    let suggestion = SearchService::suggestion("jazz ", "热门歌曲", 7);
    assert_eq!(suggestion.text, "jazz 热门歌曲");
    assert_eq!(suggestion.type_, "suggestion");
    assert_eq!(suggestion.count, Some(107));
}

#[test]
fn suggestions_are_the_query_with_the_endings_of_the_platform() {
    let service = create_search_service();
    let suggestions = service.get_search_suggestions("周杰伦", "netease");
    let texts: Vec<String> = suggestions.iter().map(|s| s.text.clone()).collect();
    assert_eq!(
        texts,
        vec![
            "周杰伦音乐排行榜",
            "周杰伦热门歌曲",
            "周杰伦最新专辑",
            "周杰伦歌手合集",
            "周杰伦经典老歌"
        ]
    );
    for suggestion in suggestions.iter() {
        assert_eq!(suggestion.type_, "suggestion");
        let count = suggestion.count.unwrap();
        assert!(100 <= count && count < 1100);
    }
}

#[test]
fn unknown_platform_gets_the_general_endings() {
    let service = SearchService::default();
    let texts: Vec<String> =
        service.get_search_suggestions("", "qq").iter().map(|s| s.text.clone()).collect();
    assert_eq!(texts, vec!["热门推荐", "最新内容", "精选合集", "热门话题", "相关内容"]);
    assert_eq!(
        service.endings("youtube"),
        vec!["热门视频", "最新上传", "视频教程", "电影剪辑", "游戏直播"]
    );
    assert_eq!(
        service.endings("bilibili"),
        vec!["番剧更新", "游戏解说", "科技资讯", "生活vlog", "美食制作"]
    );
    assert_eq!(service.endings("Netease"), service.endings(""));
}

#[test]
fn search_request_carries_the_page() {
    let request = SearchRequest {
        query: "q".to_string(),
        file_type: "audio".to_string(),
        platform: "netease".to_string(),
        page: 2,
        page_size: 10,
    };
    let service = SearchService::new();
    let response =
        service.response(Vec::new(), &request.query, &request.platform, request.page, request.page_size);
    assert_eq!(response.page, 2);
    assert_eq!(response.total, 0);
    assert_eq!(response.total_pages, 0);
}

#[test]
fn metadata_escapes_what_json_asks_for_and_nothing_else() {
    let query = "\u{0}\u{1}\u{8}\t\n\u{b}\u{c}\r\u{e}\u{1f} \"\\/\u{7f}\u{80}é\u{2028}\u{10ffff}";
    let expected = "{\"platform\":\"p\",\"query\":\"\\u0000\\u0001\\b\\t\\n\\u000b\\f\\r\\u000e\\u001f \\\"\\\\/\u{7f}\u{80}é\u{2028}\u{10ffff}\"}";
    assert_eq!(SearchService::metadata(query, "p"), Some(expected.to_string()));
    let read: serde_json::Value = serde_json::from_str(expected).unwrap();
    assert_eq!(read["query"].as_str(), Some(query));
}
