//! The platforms that content can be fetched from, and the list of them
//! that the application offers.

use vstd::prelude::*;

verus! {

/// The characters of each string of a sequence.
pub open spec fn texts(strings: Seq<String>) -> Seq<Seq<char>> {
    strings.map_values(|s: String| s@)
}

/// The characters of an optional string.
pub open spec fn optional_text(o: Option<String>) -> Option<Seq<char>> {
    match o {
        Some(s) => Some(s@),
        None => None,
    }
}

/// The characters of an optional string slice.
pub open spec fn optional_str(o: Option<&str>) -> Option<Seq<char>> {
    match o {
        Some(s) => Some(s@),
        None => None,
    }
}

/// The mathematical value of a platform.
pub struct PlatformView {
    pub id: Seq<char>,
    pub name: Seq<char>,
    pub icon: Seq<char>,
    pub description: Seq<char>,
    pub supported_types: Seq<Seq<char>>,
    pub api_endpoint: Option<Seq<char>>,
    pub is_enabled: bool,
    pub priority: u32,
    pub max_concurrent_downloads: Option<u32>,
    pub requires_auth: bool,
}

impl PlatformView {
    /// Whether the platform offers files of the given type.
    pub open spec fn supports(self, file_type: Seq<char>) -> bool {
        self.supported_types.contains(file_type)
    }

    /// Whether the platform passes a filter: with `enabled_only` set to
    /// true only enabled platforms pass, and with a file type only those
    /// that support it.
    pub open spec fn passes(self, file_type: Option<Seq<char>>, enabled_only: Option<bool>) -> bool {
        &&& enabled_only == Some(true) ==> self.is_enabled
        &&& file_type matches Some(t) ==> self.supports(t)
    }
}

/// A source of downloadable content.
#[derive(Debug)]
pub struct Platform {
    pub id: String,
    pub name: String,
    pub icon: String,
    pub description: String,
    pub supported_types: Vec<String>,
    pub api_endpoint: Option<String>,
    pub is_enabled: bool,
    pub priority: u32,
    pub max_concurrent_downloads: Option<u32>,
    pub requires_auth: bool,
}

impl View for Platform {
    type V = PlatformView;

    open spec fn view(&self) -> PlatformView {
        PlatformView {
            id: self.id@,
            name: self.name@,
            icon: self.icon@,
            description: self.description@,
            supported_types: texts(self.supported_types@),
            api_endpoint: optional_text(self.api_endpoint),
            is_enabled: self.is_enabled,
            priority: self.priority,
            max_concurrent_downloads: self.max_concurrent_downloads,
            requires_auth: self.requires_auth,
        }
    }
}

/// A copy of a list of strings.
pub fn copy_strings(strings: &Vec<String>) -> (r: Vec<String>)
    ensures
        texts(r@) == texts(strings@),
{
    let mut r: Vec<String> = Vec::new();
    let mut i: usize = 0;
    while i < strings.len()
        invariant
            i <= strings@.len(),
            texts(r@) == texts(strings@).subrange(0, i as int),
        decreases strings@.len() - i,
    {
        let ghost before = r@;
        r.push(strings[i].clone());
        assert(texts(r@) =~= texts(before).push(strings@[i as int]@));
        assert(texts(r@) =~= texts(strings@).subrange(0, i + 1));
        i += 1;
    }
    assert(texts(strings@).subrange(0, i as int) =~= texts(strings@));
    r
}

impl Clone for Platform {
    fn clone(&self) -> (r: Self)
        ensures
            r@ == self@,
    {
        Platform {
            id: self.id.clone(),
            name: self.name.clone(),
            icon: self.icon.clone(),
            description: self.description.clone(),
            supported_types: copy_strings(&self.supported_types),
            api_endpoint: self.api_endpoint.clone(),
            is_enabled: self.is_enabled,
            priority: self.priority,
            max_concurrent_downloads: self.max_concurrent_downloads,
            requires_auth: self.requires_auth,
        }
    }
}

impl Platform {
    /// A platform with the given properties.
    pub fn new(
        id: String,
        name: String,
        icon: String,
        description: String,
        supported_types: Vec<String>,
        api_endpoint: Option<String>,
        is_enabled: bool,
        priority: u32,
        max_concurrent_downloads: Option<u32>,
        requires_auth: bool,
    ) -> (r: Self)
        ensures
            r@ == (PlatformView {
                id: id@,
                name: name@,
                icon: icon@,
                description: description@,
                supported_types: texts(supported_types@),
                api_endpoint: optional_text(api_endpoint),
                is_enabled,
                priority,
                max_concurrent_downloads,
                requires_auth,
            }),
    {
        Platform {
            id,
            name,
            icon,
            description,
            supported_types,
            api_endpoint,
            is_enabled,
            priority,
            max_concurrent_downloads,
            requires_auth,
        }
    }

    /// Switches the platform on and leaves the rest as it is.
    pub fn enable(&mut self)
        ensures
            final(self)@ == (PlatformView { is_enabled: true, ..old(self)@ }),
    {
        self.is_enabled = true;
    }

    /// Switches the platform off and leaves the rest as it is.
    pub fn disable(&mut self)
        ensures
            final(self)@ == (PlatformView { is_enabled: false, ..old(self)@ }),
    {
        self.is_enabled = false;
    }

    /// Tells whether the platform offers files of the given type.
    pub fn supports_type(&self, file_type: &str) -> (r: bool)
        ensures
            r == self@.supports(file_type@),
    {
        let wanted = file_type.to_string();
        let mut i: usize = 0;
        while i < self.supported_types.len()
            invariant
                i <= self.supported_types@.len(),
                wanted@ == file_type@,
                forall|k: int| 0 <= k < i ==> texts(self.supported_types@)[k] != file_type@,
            decreases self.supported_types@.len() - i,
        {
            if self.supported_types[i] == wanted {
                assert(texts(self.supported_types@)[i as int] == file_type@);
                return true;
            }
            i += 1;
        }
        false
    }
}

/// The values of a sequence of platforms.
pub open spec fn platform_views(platforms: Seq<Platform>) -> Seq<PlatformView> {
    platforms.map_values(|p: Platform| p@)
}

/// The filter that a request for platforms describes.
pub open spec fn selection(file_type: Option<Seq<char>>, enabled_only: Option<bool>) -> spec_fn(
    PlatformView,
) -> bool {
    |p: PlatformView| p.passes(file_type, enabled_only)
}

/// A platform that is switched on and needs no endpoint of its own.
pub open spec fn builtin_platform(
    id: Seq<char>,
    name: Seq<char>,
    icon: Seq<char>,
    description: Seq<char>,
    supported_types: Seq<Seq<char>>,
    priority: u32,
    max_concurrent_downloads: u32,
    requires_auth: bool,
) -> PlatformView {
    PlatformView {
        id,
        name,
        icon,
        description,
        supported_types,
        api_endpoint: None,
        is_enabled: true,
        priority,
        max_concurrent_downloads: Some(max_concurrent_downloads),
        requires_auth,
    }
}

/// The platforms that a new service offers, in this order: two for music,
/// two for video, two for cloud storage.
pub open spec fn builtin_platforms() -> Seq<PlatformView> {
    seq![
        builtin_platform(
            "netease"@,
            "网易云音乐"@,
            "🎵"@,
            "高品质音乐平台"@,
            seq!["audio"@, "music"@],
            1,
            5,
            false,
        ),
        builtin_platform(
            "qq"@,
            "QQ音乐"@,
            "🎶"@,
            "海量音乐资源"@,
            seq!["audio"@, "music"@],
            2,
            5,
            false,
        ),
        builtin_platform(
            "youtube"@,
            "YouTube"@,
            "📺"@,
            "全球视频平台"@,
            seq!["video"@],
            1,
            3,
            false,
        ),
        builtin_platform(
            "bilibili"@,
            "哔哩哔哩"@,
            "📹"@,
            "二次元视频社区"@,
            seq!["video"@],
            2,
            3,
            false,
        ),
        builtin_platform(
            "baidu"@,
            "百度网盘"@,
            "📁"@,
            "云存储服务"@,
            seq!["file"@, "document"@, "archive"@],
            1,
            2,
            true,
        ),
        builtin_platform(
            "aliyun"@,
            "阿里云盘"@,
            "☁️"@,
            "高速云存储"@,
            seq!["file"@, "document"@, "archive"@],
            2,
            2,
            true,
        ),
    ]
}

/// The list of platforms that the application offers.
#[derive(Debug)]
pub struct PlatformService {
    pub platforms: Vec<Platform>,
}

impl View for PlatformService {
    type V = Seq<PlatformView>;

    open spec fn view(&self) -> Seq<PlatformView> {
        platform_views(self.platforms@)
    }
}

impl PlatformService {
    fn music_types() -> (r: Vec<String>)
        ensures
            texts(r@) == seq!["audio"@, "music"@],
    {
        let mut r: Vec<String> = Vec::new();
        r.push("audio".to_string());
        r.push("music".to_string());
        assert(texts(r@) =~= seq!["audio"@, "music"@]);
        r
    }

    fn video_types() -> (r: Vec<String>)
        ensures
            texts(r@) == seq!["video"@],
    {
        let mut r: Vec<String> = Vec::new();
        r.push("video".to_string());
        assert(texts(r@) =~= seq!["video"@]);
        r
    }

    fn storage_types() -> (r: Vec<String>)
        ensures
            texts(r@) == seq!["file"@, "document"@, "archive"@],
    {
        let mut r: Vec<String> = Vec::new();
        r.push("file".to_string());
        r.push("document".to_string());
        r.push("archive".to_string());
        assert(texts(r@) =~= seq!["file"@, "document"@, "archive"@]);
        r
    }

    /// A service that offers the built-in platforms.
    pub fn new() -> (r: Self)
        ensures
            r@ == builtin_platforms(),
    {
        let mut platforms: Vec<Platform> = Vec::new();
        platforms.push(
            Platform::new(
                "netease".to_string(),
                "网易云音乐".to_string(),
                "🎵".to_string(),
                "高品质音乐平台".to_string(),
                Self::music_types(),
                None,
                true,
                1,
                Some(5),
                false,
            ),
        );
        platforms.push(
            Platform::new(
                "qq".to_string(),
                "QQ音乐".to_string(),
                "🎶".to_string(),
                "海量音乐资源".to_string(),
                Self::music_types(),
                None,
                true,
                2,
                Some(5),
                false,
            ),
        );
        platforms.push(
            Platform::new(
                "youtube".to_string(),
                "YouTube".to_string(),
                "📺".to_string(),
                "全球视频平台".to_string(),
                Self::video_types(),
                None,
                true,
                1,
                Some(3),
                false,
            ),
        );
        platforms.push(
            Platform::new(
                "bilibili".to_string(),
                "哔哩哔哩".to_string(),
                "📹".to_string(),
                "二次元视频社区".to_string(),
                Self::video_types(),
                None,
                true,
                2,
                Some(3),
                false,
            ),
        );
        platforms.push(
            Platform::new(
                "baidu".to_string(),
                "百度网盘".to_string(),
                "📁".to_string(),
                "云存储服务".to_string(),
                Self::storage_types(),
                None,
                true,
                1,
                Some(2),
                true,
            ),
        );
        platforms.push(
            Platform::new(
                "aliyun".to_string(),
                "阿里云盘".to_string(),
                "☁️".to_string(),
                "高速云存储".to_string(),
                Self::storage_types(),
                None,
                true,
                2,
                Some(2),
                true,
            ),
        );
        let r = PlatformService { platforms };
        assert(r@ =~= builtin_platforms());
        r
    }

    /// The platforms that pass the filter, in the order of the list.
    pub fn get_platforms(&self, file_type: Option<&str>, enabled_only: Option<bool>) -> (r: Vec<
        Platform,
    >)
        ensures
            platform_views(r@) == self@.filter(selection(optional_str(file_type), enabled_only)),
    {
        let ghost pred = selection(optional_str(file_type), enabled_only);
        let only_enabled = match enabled_only {
            Some(true) => true,
            _ => false,
        };
        let mut chosen: Vec<Platform> = Vec::new();
        let mut i: usize = 0;
        proof {
            reveal(Seq::filter);
            assert(platform_views(chosen@) =~= self@.subrange(0, 0).filter(pred));
        }
        while i < self.platforms.len()
            invariant
                i <= self.platforms@.len(),
                pred == selection(optional_str(file_type), enabled_only),
                only_enabled == (enabled_only == Some(true)),
                platform_views(chosen@) == self@.subrange(0, i as int).filter(pred),
            decreases self.platforms@.len() - i,
        {
            let platform = &self.platforms[i];
            let passes = (!only_enabled || platform.is_enabled) && match file_type {
                Some(t) => platform.supports_type(t),
                None => true,
            };
            proof {
                assert(self@.subrange(0, i + 1) =~= self@.subrange(0, i as int).push(platform@));
                self@.subrange(0, i as int).lemma_filter_push(platform@, pred);
                assert(passes == pred(platform@));
            }
            if passes {
                let ghost before = chosen@;
                chosen.push(platform.clone());
                assert(platform_views(chosen@) =~= platform_views(before).push(platform@));
            }
            i += 1;
        }
        assert(self@.subrange(0, i as int) =~= self@);
        chosen
    }
}

/// A filter on the list of platforms, as a client sends it.
#[derive(Debug)]
pub struct PlatformRequest {
    pub file_type: Option<String>,
    pub enabled_only: Option<bool>,
}

/// A service that offers the built-in platforms.
pub fn create_platform_service() -> (r: PlatformService)
    ensures
        r@ == builtin_platforms(),
{
    PlatformService::new()
}

} // verus!
