use xdownload::platform::{create_platform_service, Platform, PlatformRequest, PlatformService};

fn sample() -> Platform {
    Platform::new(
        "demo".to_string(),
        "Demo".to_string(),
        "*".to_string(),
        "A demo".to_string(),
        vec!["audio".to_string(), "video".to_string()],
        Some("https://example.com/api".to_string()),
        false,
        7,
        Some(4),
        true,
    )
}

fn ids(platforms: &Vec<Platform>) -> Vec<String> {
    platforms.iter().map(|p| p.id.clone()).collect()
}

#[test]
fn new_platform_keeps_what_it_was_given() {
    let platform = sample();
    assert_eq!(platform.id, "demo");
    assert_eq!(platform.name, "Demo");
    assert_eq!(platform.icon, "*");
    assert_eq!(platform.description, "A demo");
    assert_eq!(platform.supported_types, vec!["audio".to_string(), "video".to_string()]);
    assert_eq!(platform.api_endpoint, Some("https://example.com/api".to_string()));
    assert!(!platform.is_enabled);
    assert_eq!(platform.priority, 7);
    assert_eq!(platform.max_concurrent_downloads, Some(4));
    assert!(platform.requires_auth);
}

#[test]
fn enable_and_disable_change_only_the_switch() {
    let mut platform = sample();
    platform.enable();
    assert!(platform.is_enabled);
    assert_eq!(platform.id, "demo");
    assert_eq!(platform.priority, 7);
    platform.enable();
    assert!(platform.is_enabled);
    platform.disable();
    assert!(!platform.is_enabled);
    assert_eq!(platform.supported_types.len(), 2);
}

#[test]
fn supports_type_looks_for_the_whole_word() {
    let platform = sample();
    assert!(platform.supports_type("audio"));
    assert!(platform.supports_type("video"));
    assert!(!platform.supports_type("file"));
    assert!(!platform.supports_type("aud"));
    assert!(!platform.supports_type("Audio"));
    assert!(!platform.supports_type(""));
}

#[test]
fn service_offers_six_platforms() {
    let service = PlatformService::new();
    assert_eq!(
        ids(&service.platforms),
        vec!["netease", "qq", "youtube", "bilibili", "baidu", "aliyun"]
    );
    let netease = &service.platforms[0];
    assert_eq!(netease.name, "网易云音乐");
    assert_eq!(netease.icon, "🎵");
    assert_eq!(netease.description, "高品质音乐平台");
    assert_eq!(netease.supported_types, vec!["audio".to_string(), "music".to_string()]);
    assert_eq!(netease.api_endpoint, None);
    assert!(netease.is_enabled);
    assert_eq!(netease.priority, 1);
    assert_eq!(netease.max_concurrent_downloads, Some(5));
    assert!(!netease.requires_auth);
    let aliyun = &service.platforms[5];
    assert_eq!(aliyun.name, "阿里云盘");
    assert_eq!(aliyun.priority, 2);
    assert_eq!(aliyun.max_concurrent_downloads, Some(2));
    assert!(aliyun.requires_auth);
    assert_eq!(
        aliyun.supported_types,
        vec!["file".to_string(), "document".to_string(), "archive".to_string()]
    );
    assert_eq!(ids(&create_platform_service().platforms).len(), 6);
}

#[test]
fn platforms_without_filter_are_all_platforms() {
    let service = PlatformService::new();
    assert_eq!(ids(&service.get_platforms(None, None)).len(), 6);
    assert_eq!(ids(&service.get_platforms(None, Some(false))).len(), 6);
    assert_eq!(ids(&service.get_platforms(None, Some(true))).len(), 6);
}

#[test]
fn platforms_are_filtered_by_file_type() {
    let service = PlatformService::new();
    assert_eq!(ids(&service.get_platforms(Some("video"), None)), vec!["youtube", "bilibili"]);
    assert_eq!(ids(&service.get_platforms(Some("music"), None)), vec!["netease", "qq"]);
    assert_eq!(ids(&service.get_platforms(Some("archive"), Some(true))), vec!["baidu", "aliyun"]);
    assert!(service.get_platforms(Some("game"), None).is_empty());
}

#[test]
fn platforms_are_filtered_by_the_switch() {
    let mut service = PlatformService::new();
    service.platforms[2].disable();
    service.platforms[4].disable();
    assert_eq!(
        ids(&service.get_platforms(None, Some(true))),
        vec!["netease", "qq", "bilibili", "aliyun"]
    );
    assert_eq!(ids(&service.get_platforms(None, Some(false))).len(), 6);
    assert_eq!(ids(&service.get_platforms(None, None)).len(), 6);
    assert_eq!(ids(&service.get_platforms(Some("video"), Some(true))), vec!["bilibili"]);
    assert_eq!(ids(&service.get_platforms(Some("video"), Some(false))), vec!["youtube", "bilibili"]);
}

#[test]
fn copy_of_a_platform_equals_it() {
    let platform = sample();
    let copy = platform.clone();
    assert_eq!(copy.id, platform.id);
    assert_eq!(copy.supported_types, platform.supported_types);
    assert_eq!(copy.api_endpoint, platform.api_endpoint);
    assert_eq!(copy.is_enabled, platform.is_enabled);
}

#[test]
fn request_for_platforms_carries_the_filter() {
    let request = PlatformRequest { file_type: Some("video".to_string()), enabled_only: Some(true) };
    let service = PlatformService::new();
    let found = service.get_platforms(request.file_type.as_deref(), request.enabled_only);
    assert_eq!(ids(&found), vec!["youtube", "bilibili"]);
}
