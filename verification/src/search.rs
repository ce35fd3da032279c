//! Search results and search suggestions.

use vstd::prelude::*;
use vstd::string::*;
use crate::encoding::{json_quote, json_string};
use crate::platform::optional_text;
use crate::text::same_text;

verus! {

/// The mathematical value of a search result.
pub struct SearchItemView {
    pub id: Seq<char>,
    pub title: Seq<char>,
    pub url: Seq<char>,
    pub platform: Seq<char>,
    pub file_type: Seq<char>,
    pub size: Option<Seq<char>>,
    pub duration: Option<Seq<char>>,
    pub thumbnail: Option<Seq<char>>,
    pub description: Option<Seq<char>>,
    pub uploader: Option<Seq<char>>,
    pub upload_date: Option<Seq<char>>,
    pub quality: Option<Seq<char>>,
    pub format: Option<Seq<char>>,
    pub metadata: Option<Seq<char>>,
}

/// One result of a search. Its metadata, if any, is the text of a JSON
/// document.
#[derive(Debug)]
pub struct SearchItem {
    pub id: String,
    pub title: String,
    pub url: String,
    pub platform: String,
    pub file_type: String,
    pub size: Option<String>,
    pub duration: Option<String>,
    pub thumbnail: Option<String>,
    pub description: Option<String>,
    pub uploader: Option<String>,
    pub upload_date: Option<String>,
    pub quality: Option<String>,
    pub format: Option<String>,
    pub metadata: Option<String>,
}

impl View for SearchItem {
    type V = SearchItemView;

    open spec fn view(&self) -> SearchItemView {
        SearchItemView {
            id: self.id@,
            title: self.title@,
            url: self.url@,
            platform: self.platform@,
            file_type: self.file_type@,
            size: optional_text(self.size),
            duration: optional_text(self.duration),
            thumbnail: optional_text(self.thumbnail),
            description: optional_text(self.description),
            uploader: optional_text(self.uploader),
            upload_date: optional_text(self.upload_date),
            quality: optional_text(self.quality),
            format: optional_text(self.format),
            metadata: optional_text(self.metadata),
        }
    }
}

impl SearchItem {
    /// A result with the given identity and nothing else known of it.
    pub fn new(id: String, title: String, url: String, platform: String, file_type: String) -> (r:
        Self)
        ensures
            r@ == (SearchItemView {
                id: id@,
                title: title@,
                url: url@,
                platform: platform@,
                file_type: file_type@,
                size: None,
                duration: None,
                thumbnail: None,
                description: None,
                uploader: None,
                upload_date: None,
                quality: None,
                format: None,
                metadata: None,
            }),
    {
        SearchItem {
            id,
            title,
            url,
            platform,
            file_type,
            size: None,
            duration: None,
            thumbnail: None,
            description: None,
            uploader: None,
            upload_date: None,
            quality: None,
            format: None,
            metadata: None,
        }
    }

    /// The result with its size set.
    pub fn with_size(self, size: String) -> (r: Self)
        ensures
            r@ == (SearchItemView { size: Some(size@), ..self@ }),
    {
        let mut r = self;
        r.size = Some(size);
        r
    }

    /// The result with its duration set.
    pub fn with_duration(self, duration: String) -> (r: Self)
        ensures
            r@ == (SearchItemView { duration: Some(duration@), ..self@ }),
    {
        let mut r = self;
        r.duration = Some(duration);
        r
    }

    /// The result with its thumbnail set.
    pub fn with_thumbnail(self, thumbnail: String) -> (r: Self)
        ensures
            r@ == (SearchItemView { thumbnail: Some(thumbnail@), ..self@ }),
    {
        let mut r = self;
        r.thumbnail = Some(thumbnail);
        r
    }

    /// The result with its description set.
    pub fn with_description(self, description: String) -> (r: Self)
        ensures
            r@ == (SearchItemView { description: Some(description@), ..self@ }),
    {
        let mut r = self;
        r.description = Some(description);
        r
    }

    /// The result with its uploader set.
    pub fn with_uploader(self, uploader: String) -> (r: Self)
        ensures
            r@ == (SearchItemView { uploader: Some(uploader@), ..self@ }),
    {
        let mut r = self;
        r.uploader = Some(uploader);
        r
    }

    /// The result with its upload date set.
    pub fn with_upload_date(self, upload_date: String) -> (r: Self)
        ensures
            r@ == (SearchItemView { upload_date: Some(upload_date@), ..self@ }),
    {
        let mut r = self;
        r.upload_date = Some(upload_date);
        r
    }

    /// The result with its quality set.
    pub fn with_quality(self, quality: String) -> (r: Self)
        ensures
            r@ == (SearchItemView { quality: Some(quality@), ..self@ }),
    {
        let mut r = self;
        r.quality = Some(quality);
        r
    }

    /// The result with its format set.
    pub fn with_format(self, format: String) -> (r: Self)
        ensures
            r@ == (SearchItemView { format: Some(format@), ..self@ }),
    {
        let mut r = self;
        r.format = Some(format);
        r
    }

    /// The result with its metadata set, the text of a JSON document.
    pub fn with_metadata(self, metadata: String) -> (r: Self)
        ensures
            r@ == (SearchItemView { metadata: Some(metadata@), ..self@ }),
    {
        let mut r = self;
        r.metadata = Some(metadata);
        r
    }
}

/// The values of a sequence of search results.
pub open spec fn item_views(items: Seq<SearchItem>) -> Seq<SearchItemView> {
    items.map_values(|i: SearchItem| i@)
}

/// How many pages of the given size hold `total` results: none without a
/// page size, else the quotient rounded up.
pub open spec fn page_count(total: nat, page_size: nat) -> nat {
    if page_size == 0 {
        0
    } else {
        (total + page_size - 1) as nat / page_size
    }
}

/// The mathematical value of a page of search results.
pub struct SearchResponseView {
    pub items: Seq<SearchItemView>,
    pub total: u32,
    pub page: u32,
    pub page_size: u32,
    pub total_pages: u32,
    pub metadata: Option<Seq<char>>,
}

/// One page of the results of a search.
#[derive(Debug)]
pub struct SearchResponse {
    pub items: Vec<SearchItem>,
    pub total: u32,
    pub page: u32,
    pub page_size: u32,
    pub total_pages: u32,
    pub metadata: Option<String>,
}

impl View for SearchResponse {
    type V = SearchResponseView;

    open spec fn view(&self) -> SearchResponseView {
        SearchResponseView {
            items: item_views(self.items@),
            total: self.total,
            page: self.page,
            page_size: self.page_size,
            total_pages: self.total_pages,
            metadata: optional_text(self.metadata),
        }
    }
}

impl SearchResponse {
    /// A page of results; the number of pages follows from the total and
    /// the page size.
    pub fn new(
        items: Vec<SearchItem>,
        total: u32,
        page: u32,
        page_size: u32,
        metadata: Option<String>,
    ) -> (r: Self)
        ensures
            r@ == (SearchResponseView {
                items: item_views(items@),
                total,
                page,
                page_size,
                total_pages: page_count(total as nat, page_size as nat) as u32,
                metadata: optional_text(metadata),
            }),
            r.total_pages == page_count(total as nat, page_size as nat),
            page_size > 0 ==> r.total_pages * page_size >= total && (r.total_pages == 0
                || (r.total_pages - 1) * page_size < total),
    {
        let total_pages: u32 = if page_size == 0 {
            0
        } else {
            let pages = (total as u64 + page_size as u64 - 1) / (page_size as u64);
            assert(pages <= total && pages * page_size >= total && (pages == 0 || (pages - 1)
                * page_size < total)) by (nonlinear_arith)
                requires
                    pages == (total + page_size - 1) / (page_size as int),
                    page_size >= 1,
                    total >= 0,
            ;
            pages as u32
        };
        SearchResponse { items, total, page, page_size, total_pages, metadata }
    }
}

/// The mathematical value of a suggestion.
pub struct SuggestionView {
    pub text: Seq<char>,
    pub type_: Seq<char>,
    pub count: Option<u32>,
}

/// A text to search for, with the number of results to expect.
#[derive(Debug)]
pub struct SearchSuggestion {
    pub text: String,
    pub type_: String,
    pub count: Option<u32>,
}

impl View for SearchSuggestion {
    type V = SuggestionView;

    open spec fn view(&self) -> SuggestionView {
        SuggestionView { text: self.text@, type_: self.type_@, count: self.count }
    }
}

impl SearchSuggestion {
    /// A suggestion with the given text, kind and count.
    pub fn new(text: String, type_: String, count: Option<u32>) -> (r: Self)
        ensures
            r@ == (SuggestionView { text: text@, type_: type_@, count }),
    {
        SearchSuggestion { text, type_, count }
    }
}

/// What is appended to a query to make the suggestions for a platform:
/// five endings for each of three platforms, and five for all others.
pub open spec fn suggestion_endings(platform: Seq<char>) -> Seq<Seq<char>> {
    if platform == "netease"@ {
        seq!["音乐排行榜"@, "热门歌曲"@, "最新专辑"@, "歌手合集"@, "经典老歌"@]
    } else if platform == "youtube"@ {
        seq!["热门视频"@, "最新上传"@, "视频教程"@, "电影剪辑"@, "游戏直播"@]
    } else if platform == "bilibili"@ {
        seq!["番剧更新"@, "游戏解说"@, "科技资讯"@, "生活vlog"@, "美食制作"@]
    } else {
        seq!["热门推荐"@, "最新内容"@, "精选合集"@, "热门话题"@, "相关内容"@]
    }
}

/// The kind of a suggestion.
pub open spec fn suggestion_kind() -> Seq<char> {
    "suggestion"@
}

/// The count shown with a suggestion, made from a random number: from one
/// hundred up to, but not reaching, eleven hundred.
pub open spec fn suggestion_count(seed: u32) -> u32 {
    (100 + seed % 1000) as u32
}

/// The suggestion that a query, an ending and a random number make.
pub open spec fn suggestion_of(query: Seq<char>, ending: Seq<char>, seed: u32) -> SuggestionView {
    SuggestionView {
        text: query + ending,
        type_: suggestion_kind(),
        count: Some(suggestion_count(seed)),
    }
}

/// The text of the JSON document that says what was searched for and
/// where.
pub open spec fn search_metadata(query: Seq<char>, platform: Seq<char>) -> Seq<char> {
    "{\"platform\":"@ + json_string(platform) + ",\"query\":"@ + json_string(query) + "}"@
}

/// Calls `rand::random::<u32>`. Nothing is known of the number.
#[verifier::external_body]
fn random_number() -> u32 {
    rand::random::<u32>()
}

/// The search over the platforms.
#[derive(Clone, Copy, Debug)]
pub struct SearchService;

impl SearchService {
    /// The search over the platforms.
    pub fn new() -> (r: Self) {
        SearchService
    }

    /// The endings of the suggestions for a platform.
    pub fn endings(&self, platform: &str) -> (r: Vec<&'static str>)
        ensures
            r@.len() == 5,
            r@.map_values(|s: &'static str| s@) == suggestion_endings(platform@),
    {
        let r = if same_text(platform, "netease") {
            vec!["音乐排行榜", "热门歌曲", "最新专辑", "歌手合集", "经典老歌"]
        } else if same_text(platform, "youtube") {
            vec!["热门视频", "最新上传", "视频教程", "电影剪辑", "游戏直播"]
        } else if same_text(platform, "bilibili") {
            vec!["番剧更新", "游戏解说", "科技资讯", "生活vlog", "美食制作"]
        } else {
            vec!["热门推荐", "最新内容", "精选合集", "热门话题", "相关内容"]
        };
        assert(r@.map_values(|s: &'static str| s@) =~= suggestion_endings(platform@));
        r
    }

    /// The suggestion that a query, an ending and a random number make.
    pub fn suggestion(query: &str, ending: &str, seed: u32) -> (r: SearchSuggestion)
        ensures
            r@ == suggestion_of(query@, ending@, seed),
            r.count matches Some(c) && 100 <= c < 1100,
    {
        let mut text = query.to_string();
        text.append(ending);
        SearchSuggestion::new(text, "suggestion".to_string(), Some(100 + seed % 1000))
    }

    /// Five suggestions for a query on a platform: the query with each of
    /// the platform's endings, in their order, each with a count between
    /// one hundred and eleven hundred that is drawn at random.
    pub fn get_search_suggestions(&self, query: &str, platform: &str) -> (r: Vec<SearchSuggestion>)
        ensures
            r@.len() == 5,
            forall|i: int|
                0 <= i < 5 ==> {
                    &&& (#[trigger] r@[i])@.text == query@ + suggestion_endings(platform@)[i]
                    &&& r@[i]@.type_ == suggestion_kind()
                    &&& r@[i].count matches Some(c) && 100 <= c < 1100
                },
    {
        let endings = self.endings(platform);
        let ghost texts_of = endings@.map_values(|s: &'static str| s@);
        let mut out: Vec<SearchSuggestion> = Vec::new();
        let mut i: usize = 0;
        while i < 5
            invariant
                i <= 5,
                endings@.len() == 5,
                texts_of == endings@.map_values(|s: &'static str| s@),
                texts_of == suggestion_endings(platform@),
                out@.len() == i,
                forall|k: int|
                    0 <= k < i ==> {
                        &&& (#[trigger] out@[k])@.text == query@ + texts_of[k]
                        &&& out@[k]@.type_ == suggestion_kind()
                        &&& out@[k].count matches Some(c) && 100 <= c < 1100
                    },
            decreases 5 - i,
        {
            let seed = random_number();
            let suggestion = Self::suggestion(query, endings[i], seed);
            assert(texts_of[i as int] == endings@[i as int]@);
            out.push(suggestion);
            i += 1;
        }
        out
    }

    /// The text of the JSON document that says what was searched for and
    /// where.
    pub fn metadata(query: &str, platform: &str) -> (r: Option<String>)
        ensures
            optional_text(r) == Some(search_metadata(query@, platform@)),
    {
        let p = json_quote(platform);
        let q = json_quote(query);
        Self::metadata_of(p, q)
    }

    /// The JSON document made of a platform and a query that are written
    /// as JSON strings already; nothing if either is missing.
    pub fn metadata_of(platform: Option<String>, query: Option<String>) -> (r: Option<String>)
        ensures
            optional_text(r) == match (optional_text(platform), optional_text(query)) {
                (Some(p), Some(q)) => Some("{\"platform\":"@ + p + ",\"query\":"@ + q + "}"@),
                _ => None,
            },
    {
        match (platform, query) {
            (Some(p), Some(q)) => {
                let mut text = "{\"platform\":".to_string();
                text.append(p.as_str());
                text.append(",\"query\":");
                text.append(q.as_str());
                text.append("}");
                Some(text)
            },
            _ => None,
        }
    }

    /// The page of results that a search on a platform gave: the results
    /// as they came, their number as the total, and a note of what was
    /// searched for and where.
    pub fn response(
        &self,
        items: Vec<SearchItem>,
        query: &str,
        platform: &str,
        page: u32,
        page_size: u32,
    ) -> (r: SearchResponse)
        ensures
            r@ == (SearchResponseView {
                items: item_views(items@),
                total: (items@.len() % 0x1_0000_0000) as u32,
                page,
                page_size,
                total_pages: page_count((items@.len() % 0x1_0000_0000) as nat, page_size as nat) as u32,
                metadata: Some(search_metadata(query@, platform@)),
            }),
    {
        let total = (items.len() as u64 % 0x1_0000_0000u64) as u32;
        SearchResponse::new(items, total, page, page_size, Self::metadata(query, platform))
    }
}

impl Default for SearchService {
    fn default() -> (r: Self) {
        SearchService
    }
}

/// The search over the platforms.
pub fn create_search_service() -> (r: SearchService) {
    SearchService::new()
}

} // verus!
