//! What the platforms answer to a search, turned into search results.
//!
//! Asking a platform is the business of whoever drives the library. What
//! is asked, and what is made of the answer, is decided here: the body of
//! the request, which entries of the answer count, and how each of them
//! reads as a search result.

use vstd::prelude::*;
use vstd::string::*;
use crate::encoding::{json_quote, json_string, url_encode, url_encoded};
use crate::platform::{optional_text, texts};
use crate::search::{SearchItem, SearchItemView};
use crate::text::{append_decimal, append_integer, decimal_text, integer_text, same_text};
use crate::time_format::{
    append_two_digits,
    date_text,
    divide,
    format_duration_millis,
    format_unix_timestamp,
    millis_text,
    quotient,
    remainder,
    rfc3339_utc,
    two_digit_text,
};

verus! {

/// One result of a search on a platform. Its metadata, if any, is the text
/// of a JSON document.
#[derive(Debug)]
pub struct PlatformSearchItem {
    pub id: String,
    pub title: String,
    pub url: String,
    pub platform: String,
    pub file_type: String,
    pub size: Option<String>,
    pub duration: Option<String>,
    pub thumbnail: Option<String>,
    pub description: Option<String>,
    pub uploader: Option<String>,
    pub upload_date: Option<String>,
    pub quality: Option<String>,
    pub format: Option<String>,
    pub metadata: Option<String>,
}

impl View for PlatformSearchItem {
    type V = SearchItemView;

    open spec fn view(&self) -> SearchItemView {
        SearchItemView {
            id: self.id@,
            title: self.title@,
            url: self.url@,
            platform: self.platform@,
            file_type: self.file_type@,
            size: optional_text(self.size),
            duration: optional_text(self.duration),
            thumbnail: optional_text(self.thumbnail),
            description: optional_text(self.description),
            uploader: optional_text(self.uploader),
            upload_date: optional_text(self.upload_date),
            quality: optional_text(self.quality),
            format: optional_text(self.format),
            metadata: optional_text(self.metadata),
        }
    }
}

/// What a platform tells about a file that can be fetched from it.
#[derive(Debug)]
pub struct PlatformDownloadInfo {
    pub id: String,
    pub title: String,
    pub url: String,
    pub platform: String,
    pub file_type: String,
    pub size: Option<String>,
    pub quality: Option<String>,
    pub format: Option<String>,
    pub download_url: String,
    pub metadata: Option<String>,
}

/// The text of an optional text, empty where there is none.
pub open spec fn text_or_empty(o: Option<Seq<char>>) -> Seq<char> {
    match o {
        Some(t) => t,
        None => Seq::<char>::empty(),
    }
}

/// A platform's result as a result of the search: every detail is set,
/// to the empty text where the platform gave none, and the metadata is
/// left out.
pub open spec fn listed(item: SearchItemView) -> SearchItemView {
    SearchItemView {
        size: Some(text_or_empty(item.size)),
        duration: Some(text_or_empty(item.duration)),
        thumbnail: Some(text_or_empty(item.thumbnail)),
        description: Some(text_or_empty(item.description)),
        uploader: Some(text_or_empty(item.uploader)),
        upload_date: Some(text_or_empty(item.upload_date)),
        quality: Some(text_or_empty(item.quality)),
        format: Some(text_or_empty(item.format)),
        metadata: None,
        ..item
    }
}

fn or_empty(o: Option<String>) -> (r: String)
    ensures
        r@ == text_or_empty(optional_text(o)),
{
    match o {
        Some(t) => t,
        None => String::new(),
    }
}

impl PlatformSearchItem {
    /// The result as a result of the search.
    pub fn into_search_item(self) -> (r: SearchItem)
        ensures
            r@ == listed(self@),
    {
        SearchItem::new(self.id, self.title, self.url, self.platform, self.file_type).with_size(
            or_empty(self.size),
        ).with_duration(or_empty(self.duration)).with_thumbnail(
            or_empty(self.thumbnail),
        ).with_description(or_empty(self.description)).with_uploader(
            or_empty(self.uploader),
        ).with_upload_date(or_empty(self.upload_date)).with_quality(
            or_empty(self.quality),
        ).with_format(or_empty(self.format))
    }
}

/// The platforms that can be searched and fetched from.
#[derive(Clone, Copy, Debug, PartialEq, Eq, Structural)]
pub enum PlatformKind {
    Netease,
    Qq,
    Youtube,
    Bilibili,
    Baidu,
    Aliyun,
}

/// Why a platform did not do what was asked.
#[derive(Clone, Copy, Debug, PartialEq, Eq, Structural)]
pub enum PlatformError {
    /// The platform does not offer this yet.
    NotImplemented,
}

/// The platform that goes by the given id.
pub open spec fn kind_of(id: Seq<char>) -> Option<PlatformKind> {
    if id == "netease"@ {
        Some(PlatformKind::Netease)
    } else if id == "qq"@ {
        Some(PlatformKind::Qq)
    } else if id == "youtube"@ {
        Some(PlatformKind::Youtube)
    } else if id == "bilibili"@ {
        Some(PlatformKind::Bilibili)
    } else if id == "baidu"@ {
        Some(PlatformKind::Baidu)
    } else if id == "aliyun"@ {
        Some(PlatformKind::Aliyun)
    } else {
        None
    }
}

impl PlatformKind {
    /// The id that the platform goes by.
    pub open spec fn id_text(self) -> Seq<char> {
        match self {
            PlatformKind::Netease => "netease"@,
            PlatformKind::Qq => "qq"@,
            PlatformKind::Youtube => "youtube"@,
            PlatformKind::Bilibili => "bilibili"@,
            PlatformKind::Baidu => "baidu"@,
            PlatformKind::Aliyun => "aliyun"@,
        }
    }

    /// Whether a search on the platform can give results.
    pub open spec fn searchable(self) -> bool {
        self is Netease || self is Bilibili
    }

    /// The id that the platform goes by.
    pub fn get_platform_id(&self) -> (r: &'static str)
        ensures
            r@ == self.id_text(),
    {
        match self {
            PlatformKind::Netease => "netease",
            PlatformKind::Qq => "qq",
            PlatformKind::Youtube => "youtube",
            PlatformKind::Bilibili => "bilibili",
            PlatformKind::Baidu => "baidu",
            PlatformKind::Aliyun => "aliyun",
        }
    }

    /// Tells whether a search on the platform can give results.
    pub fn can_search(&self) -> (r: bool)
        ensures
            r == self.searchable(),
    {
        match self {
            PlatformKind::Netease | PlatformKind::Bilibili => true,
            _ => false,
        }
    }

    /// What the platform tells about a file. No platform offers this yet.
    pub fn get_download_info(&self, item_id: &str) -> (r: Result<
        PlatformDownloadInfo,
        PlatformError,
    >)
        ensures
            r matches Err(e) && e == PlatformError::NotImplemented,
    {
        Err(PlatformError::NotImplemented)
    }
}

/// The platforms, found by their ids.
#[derive(Clone, Copy, Debug)]
pub struct PlatformServiceManager;

impl PlatformServiceManager {
    /// The platforms, found by their ids.
    pub fn new() -> (r: Self) {
        PlatformServiceManager
    }

    fn find(platform: &str) -> (r: Option<PlatformKind>)
        ensures
            r == kind_of(platform@),
    {
        if same_text(platform, "netease") {
            Some(PlatformKind::Netease)
        } else if same_text(platform, "qq") {
            Some(PlatformKind::Qq)
        } else if same_text(platform, "youtube") {
            Some(PlatformKind::Youtube)
        } else if same_text(platform, "bilibili") {
            Some(PlatformKind::Bilibili)
        } else if same_text(platform, "baidu") {
            Some(PlatformKind::Baidu)
        } else if same_text(platform, "aliyun") {
            Some(PlatformKind::Aliyun)
        } else {
            None
        }
    }

    /// The platform to search on that goes by the given id.
    pub fn get_search_service(&self, platform: &str) -> (r: Option<PlatformKind>)
        ensures
            r == kind_of(platform@),
    {
        Self::find(platform)
    }

    /// The platform to fetch from that goes by the given id.
    pub fn get_download_service(&self, platform: &str) -> (r: Option<PlatformKind>)
        ensures
            r == kind_of(platform@),
    {
        Self::find(platform)
    }

    /// All platforms to search on.
    pub fn get_all_search_services(&self) -> (r: Vec<PlatformKind>)
        ensures
            r@ == all_platforms(),
    {
        vec![
            PlatformKind::Netease,
            PlatformKind::Qq,
            PlatformKind::Youtube,
            PlatformKind::Bilibili,
            PlatformKind::Baidu,
            PlatformKind::Aliyun,
        ]
    }

    /// All platforms to fetch from.
    pub fn get_all_download_services(&self) -> (r: Vec<PlatformKind>)
        ensures
            r@ == all_platforms(),
    {
        self.get_all_search_services()
    }
}

/// All platforms, in the order in which they are offered.
pub open spec fn all_platforms() -> Seq<PlatformKind> {
    seq![
        PlatformKind::Netease,
        PlatformKind::Qq,
        PlatformKind::Youtube,
        PlatformKind::Bilibili,
        PlatformKind::Baidu,
        PlatformKind::Aliyun,
    ]
}

/// Every platform is found by its own id, and an id finds at most the
/// platform that goes by it.
pub proof fn lemma_kind_of_id(kind: PlatformKind, id: Seq<char>)
    ensures
        kind_of(kind.id_text()) == Some(kind),
        kind_of(id) == Some(kind) ==> id == kind.id_text(),
{
    reveal_strlit("netease");
    reveal_strlit("qq");
    reveal_strlit("youtube");
    reveal_strlit("bilibili");
    reveal_strlit("baidu");
    reveal_strlit("aliyun");
    assert("netease"@.len() == 7 && "qq"@.len() == 2 && "youtube"@.len() == 7);
    assert("bilibili"@.len() == 8 && "baidu"@.len() == 5 && "aliyun"@.len() == 6);
    assert("netease"@[0] == 'n' && "youtube"@[0] == 'y');
}

/// Texts put together with a separator between them.
pub open spec fn joined(parts: Seq<Seq<char>>, separator: Seq<char>) -> Seq<char>
    decreases parts.len(),
{
    if parts.len() == 0 {
        Seq::<char>::empty()
    } else if parts.len() == 1 {
        parts[0]
    } else {
        joined(parts.drop_last(), separator) + separator + parts.last()
    }
}

/// The decimal texts of numbers.
pub open spec fn number_texts(numbers: Seq<i64>) -> Seq<Seq<char>> {
    numbers.map_values(|n: i64| integer_text(n as int))
}

/// Puts texts together with a separator between them.
pub fn join(parts: &Vec<String>, separator: &str) -> (r: String)
    ensures
        r@ == joined(texts(parts@), separator@),
{
    let mut out = String::new();
    let mut i: usize = 0;
    let ghost all = texts(parts@);
    assert(all.subrange(0, 0) =~= Seq::<Seq<char>>::empty());
    while i < parts.len()
        invariant
            i <= parts@.len(),
            all == texts(parts@),
            out@ == joined(all.subrange(0, i as int), separator@),
        decreases parts@.len() - i,
    {
        let ghost before = out@;
        if i > 0 {
            out.append(separator);
        }
        out.append(parts[i].as_str());
        proof {
            let upto = all.subrange(0, i + 1);
            assert(upto.drop_last() =~= all.subrange(0, i as int));
            assert(upto.last() == parts@[i as int]@);
            if i == 0 {
                assert(upto[0] == parts@[0]@);
                assert(out@ =~= upto[0]);
            } else {
                assert(out@ =~= before + separator@ + parts@[i as int]@);
            }
        }
        i += 1;
    }
    assert(all.subrange(0, i as int) =~= all);
    out
}

/// Puts numbers together with a separator between them.
pub fn join_numbers(numbers: &Vec<i64>, separator: &str) -> (r: String)
    ensures
        r@ == joined(number_texts(numbers@), separator@),
{
    let mut out = String::new();
    let mut i: usize = 0;
    let ghost all = number_texts(numbers@);
    assert(all.subrange(0, 0) =~= Seq::<Seq<char>>::empty());
    while i < numbers.len()
        invariant
            i <= numbers@.len(),
            all == number_texts(numbers@),
            out@ == joined(all.subrange(0, i as int), separator@),
        decreases numbers@.len() - i,
    {
        let ghost before = out@;
        if i > 0 {
            out.append(separator);
        }
        let ghost with_separator = out@;
        append_integer(&mut out, numbers[i]);
        proof {
            let upto = all.subrange(0, i + 1);
            assert(upto.drop_last() =~= all.subrange(0, i as int));
            assert(upto.last() == integer_text(numbers@[i as int] as int));
            if i == 0 {
                assert(upto[0] == integer_text(numbers@[0] as int));
                assert(out@ =~= upto[0]);
            } else {
                assert(out@ =~= before + separator@ + integer_text(numbers@[i as int] as int));
            }
        }
        i += 1;
    }
    assert(all.subrange(0, i as int) =~= all);
    out
}

/// A song as the music platform describes it. Times are in milliseconds.
#[derive(Debug)]
pub struct NeteaseSong {
    pub id: i64,
    pub name: String,
    pub artists: Vec<String>,
    pub artist_ids: Vec<i64>,
    pub album_id: i64,
    pub album_name: String,
    pub album_pic: String,
    pub duration: i64,
    pub publish_time: i64,
}

/// The names of a song's artists, separated by commas.
pub open spec fn artists_text(song: NeteaseSong) -> Seq<char> {
    joined(texts(song.artists@), ", "@)
}

/// The metadata of a song: its numbers as a JSON document.
pub open spec fn song_metadata(song: NeteaseSong) -> Seq<char> {
    "{\"album_id\":"@ + integer_text(song.album_id as int) + ",\"artist_ids\":["@ + joined(
        number_texts(song.artist_ids@),
        ","@,
    ) + "],\"duration\":"@ + integer_text(song.duration as int) + ",\"publish_time\":"@
        + integer_text(song.publish_time as int) + ",\"song_id\":"@ + integer_text(song.id as int)
        + "}"@
}

/// A song as a search result: titled by name and artists, with its length
/// as minutes and seconds and the day of its publication.
pub open spec fn song_item(song: NeteaseSong) -> SearchItemView {
    SearchItemView {
        id: integer_text(song.id as int),
        title: song.name@ + " - "@ + artists_text(song),
        url: "https://music.163.com/song?id="@ + integer_text(song.id as int),
        platform: "netease"@,
        file_type: "audio"@,
        size: None,
        duration: Some(millis_text(song.duration as int)),
        thumbnail: Some(song.album_pic@),
        description: Some(song.album_name@),
        uploader: Some(artists_text(song)),
        upload_date: Some(date_text(rfc3339_utc(quotient(song.publish_time as int, 1000)))),
        quality: None,
        format: None,
        metadata: Some(song_metadata(song)),
    }
}

/// Where a page of results begins: before the first result of the page,
/// counting pages from one. There is none for page zero, nor where the
/// number does not fit.
pub open spec fn page_offset(page: u32, page_size: u32) -> Option<u32> {
    if page >= 1 && (page - 1) * page_size <= u32::MAX {
        Some(((page - 1) * page_size) as u32)
    } else {
        None
    }
}

/// The parameters of a search for songs, as a JSON document.
pub open spec fn song_search_parameters(query_json: Seq<char>, offset: u32, limit: u32) -> Seq<char> {
    "{\"limit\":"@ + decimal_text(limit as nat) + ",\"offset\":"@ + decimal_text(offset as nat)
        + ",\"s\":"@ + query_json + ",\"type\":1}"@
}

/// The body of the request that searches for songs: the parameters, made
/// fit for a URL. There is none where the page has no offset.
pub open spec fn song_search_body(query: Seq<char>, page: u32, page_size: u32) -> Option<Seq<char>> {
    match page_offset(page, page_size) {
        Some(offset) => Some(
            "params="@ + url_encoded(song_search_parameters(json_string(query), offset, page_size)),
        ),
        None => None,
    }
}

/// The music platform.
#[derive(Clone, Copy, Debug)]
pub struct NeteaseSearchService;

impl NeteaseSearchService {
    /// The music platform.
    pub fn new() -> (r: Self) {
        NeteaseSearchService
    }

    /// The id that the platform goes by.
    pub fn get_platform_id(&self) -> (r: &'static str)
        ensures
            r@ == PlatformKind::Netease.id_text(),
    {
        "netease"
    }

    /// Where a page of results begins.
    pub fn offset(page: u32, page_size: u32) -> (r: Option<u32>)
        ensures
            r == page_offset(page, page_size),
    {
        if page == 0 {
            return None;
        }
        assert((page - 1) * page_size <= 0xffff_ffff * 0xffff_ffff) by (nonlinear_arith)
            requires
                0 <= page - 1 <= 0xffff_ffff,
                0 <= page_size <= 0xffff_ffff,
        ;
        let offset = (page - 1) as u64 * page_size as u64;
        if offset > u32::MAX as u64 {
            None
        } else {
            Some(offset as u32)
        }
    }

    /// The parameters of a search, from the query as a JSON string.
    pub fn parameters(query_json: &str, offset: u32, limit: u32) -> (r: String)
        ensures
            r@ == song_search_parameters(query_json@, offset, limit),
    {
        let mut text = "{\"limit\":".to_string();
        append_decimal(&mut text, limit as u128);
        text.append(",\"offset\":");
        append_decimal(&mut text, offset as u128);
        text.append(",\"s\":");
        text.append(query_json);
        text.append(",\"type\":1}");
        assert(text@ =~= song_search_parameters(query_json@, offset, limit));
        text
    }

    /// The body of the request that searches for songs.
    pub fn request_body(&self, query: &str, page: u32, page_size: u32) -> (r: Option<String>)
        ensures
            optional_text(r) == song_search_body(query@, page, page_size),
            r is Some <==> page_offset(page, page_size) is Some,
    {
        let offset = Self::offset(page, page_size);
        let query_json = json_quote(query);
        match (offset, query_json) {
            (Some(offset), Some(q)) => {
                let parameters = Self::parameters(q.as_str(), offset, page_size);
                let mut body = "params=".to_string();
                body.append(url_encode(parameters.as_str()).as_str());
                Some(body)
            },
            _ => None,
        }
    }

    /// The metadata of a song.
    pub fn metadata(song: &NeteaseSong) -> (r: String)
        ensures
            r@ == song_metadata(*song),
    {
        let mut text = "{\"album_id\":".to_string();
        append_integer(&mut text, song.album_id);
        text.append(",\"artist_ids\":[");
        text.append(join_numbers(&song.artist_ids, ",").as_str());
        text.append("],\"duration\":");
        append_integer(&mut text, song.duration);
        text.append(",\"publish_time\":");
        append_integer(&mut text, song.publish_time);
        text.append(",\"song_id\":");
        append_integer(&mut text, song.id);
        text.append("}");
        assert(text@ =~= song_metadata(*song));
        text
    }

    /// A song as a search result.
    pub fn item(song: &NeteaseSong) -> (r: PlatformSearchItem)
        ensures
            r@ == song_item(*song),
    {
        let mut id = String::new();
        append_integer(&mut id, song.id);
        assert(id@ =~= integer_text(song.id as int));
        let artists = join(&song.artists, ", ");
        let mut title = song.name.clone();
        title.append(" - ");
        title.append(artists.as_str());
        let mut url = "https://music.163.com/song?id=".to_string();
        url.append(id.as_str());
        let (publish_seconds, _) = divide(song.publish_time, 1000);
        PlatformSearchItem {
            id,
            title,
            url,
            platform: "netease".to_string(),
            file_type: "audio".to_string(),
            size: None,
            duration: Some(format_duration_millis(song.duration)),
            thumbnail: Some(song.album_pic.clone()),
            description: Some(song.album_name.clone()),
            uploader: Some(artists),
            upload_date: Some(format_unix_timestamp(publish_seconds)),
            quality: None,
            format: None,
            metadata: Some(Self::metadata(song)),
        }
    }

    /// The first songs of an answer, as search results: as many as a page
    /// holds, in the order of the answer.
    pub fn items(&self, songs: &Vec<NeteaseSong>, page_size: u32) -> (r: Vec<PlatformSearchItem>)
        ensures
            r@.len() == if songs@.len() <= page_size {
                songs@.len()
            } else {
                page_size as nat
            },
            forall|i: int| 0 <= i < r@.len() ==> (#[trigger] r@[i])@ == song_item(songs@[i]),
    {
        let mut out: Vec<PlatformSearchItem> = Vec::new();
        let mut i: usize = 0;
        while i < songs.len() && (i as u64) < page_size as u64
            invariant
                i <= songs@.len(),
                i <= page_size,
                out@.len() == i,
                forall|k: int| 0 <= k < i ==> (#[trigger] out@[k])@ == song_item(songs@[k]),
            decreases songs@.len() - i,
        {
            out.push(Self::item(&songs[i]));
            i += 1;
        }
        out
    }
}

/// A video as the video platform describes it. Its length is in seconds.
#[derive(Debug)]
pub struct BilibiliVideo {
    pub bvid: String,
    pub title: String,
    pub pic: String,
    pub author: String,
    pub duration: i32,
    pub pubdate: i64,
    pub play: i64,
    pub danmaku: i64,
}

/// A length in seconds as `MM:SS`, or as `HH:MM:SS` where it has a whole
/// hour.
pub open spec fn length_text(seconds: int) -> Seq<char> {
    let hours = quotient(seconds, 3600);
    let minutes = quotient(remainder(seconds, 3600), 60);
    let secs = remainder(seconds, 60);
    if hours > 0 {
        two_digit_text(hours) + seq![':'] + two_digit_text(minutes) + seq![':'] + two_digit_text(
            secs,
        )
    } else {
        two_digit_text(minutes) + seq![':'] + two_digit_text(secs)
    }
}

/// The metadata of a video: how often it was played and commented, as a
/// JSON document.
pub open spec fn video_metadata(video: BilibiliVideo) -> Seq<char> {
    "{\"danmaku\":"@ + integer_text(video.danmaku as int) + ",\"play\":"@ + integer_text(
        video.play as int,
    ) + "}"@
}

/// A video as a search result, if it has an id.
pub open spec fn video_item(video: BilibiliVideo) -> Option<SearchItemView> {
    if video.bvid@.len() == 0 {
        None
    } else {
        Some(
            SearchItemView {
                id: video.bvid@,
                title: video.title@,
                url: "https://www.bilibili.com/video/"@ + video.bvid@,
                platform: "bilibili"@,
                file_type: "video"@,
                size: None,
                duration: Some(length_text(video.duration as int)),
                thumbnail: Some(video.pic@),
                description: None,
                uploader: Some(video.author@),
                upload_date: Some(date_text(rfc3339_utc(video.pubdate as int))),
                quality: None,
                format: None,
                metadata: Some(video_metadata(video)),
            },
        )
    }
}

/// The search results that the first `n` of the videos make, in their
/// order; videos without an id make none.
pub open spec fn video_items(videos: Seq<BilibiliVideo>, n: int) -> Seq<SearchItemView>
    decreases n,
{
    if n <= 0 {
        Seq::<SearchItemView>::empty()
    } else {
        match video_item(videos[n - 1]) {
            Some(item) => video_items(videos, n - 1).push(item),
            None => video_items(videos, n - 1),
        }
    }
}

/// The values of a sequence of platform results.
pub open spec fn platform_item_views(items: Seq<PlatformSearchItem>) -> Seq<SearchItemView> {
    items.map_values(|i: PlatformSearchItem| i@)
}

/// The video platform.
#[derive(Clone, Copy, Debug)]
pub struct BilibiliSearchService;

impl BilibiliSearchService {
    /// The video platform.
    pub fn new() -> (r: Self) {
        BilibiliSearchService
    }

    /// The id that the platform goes by.
    pub fn get_platform_id(&self) -> (r: &'static str)
        ensures
            r@ == PlatformKind::Bilibili.id_text(),
    {
        "bilibili"
    }

    /// A length in seconds as `MM:SS`, or as `HH:MM:SS` where it has a
    /// whole hour.
    pub fn format_duration(&self, seconds: i32) -> (r: String)
        ensures
            r@ == length_text(seconds as int),
    {
        proof {
            reveal_strlit(":");
        }
        let (hours, rest) = divide(seconds as i64, 3600);
        let (minutes, _) = divide(rest, 60);
        let (_, secs) = divide(seconds as i64, 60);
        let mut out = String::new();
        if hours > 0 {
            append_two_digits(&mut out, hours);
            out.append(":");
        }
        append_two_digits(&mut out, minutes);
        out.append(":");
        append_two_digits(&mut out, secs);
        assert(out@ =~= length_text(seconds as int));
        out
    }

    /// A video as a search result, if it has an id.
    pub fn item(&self, video: &BilibiliVideo) -> (r: Option<PlatformSearchItem>)
        ensures
            match r {
                Some(item) => video_item(*video) == Some(item@),
                None => video_item(*video) is None,
            },
    {
        if video.bvid.as_str().is_empty() {
            return None;
        }
        let mut url = "https://www.bilibili.com/video/".to_string();
        url.append(video.bvid.as_str());
        let mut metadata = "{\"danmaku\":".to_string();
        append_integer(&mut metadata, video.danmaku);
        metadata.append(",\"play\":");
        append_integer(&mut metadata, video.play);
        metadata.append("}");
        assert(metadata@ =~= video_metadata(*video));
        Some(
            PlatformSearchItem {
                id: video.bvid.clone(),
                title: video.title.clone(),
                url,
                platform: "bilibili".to_string(),
                file_type: "video".to_string(),
                size: None,
                duration: Some(self.format_duration(video.duration)),
                thumbnail: Some(video.pic.clone()),
                description: None,
                uploader: Some(video.author.clone()),
                upload_date: Some(format_unix_timestamp(video.pubdate)),
                quality: None,
                format: None,
                metadata: Some(metadata),
            },
        )
    }

    /// The search results that the first videos of an answer make: of as
    /// many videos as a page holds, those that have an id, in the order of
    /// the answer.
    pub fn items(&self, videos: &Vec<BilibiliVideo>, page_size: u32) -> (r: Vec<PlatformSearchItem>)
        ensures
            platform_item_views(r@) == video_items(
                videos@,
                if videos@.len() <= page_size {
                    videos@.len() as int
                } else {
                    page_size as int
                },
            ),
    {
        let mut out: Vec<PlatformSearchItem> = Vec::new();
        let mut i: usize = 0;
        assert(platform_item_views(out@) =~= video_items(videos@, 0));
        while i < videos.len() && (i as u64) < page_size as u64
            invariant
                i <= videos@.len(),
                i <= page_size,
                platform_item_views(out@) == video_items(videos@, i as int),
            decreases videos@.len() - i,
        {
            match self.item(&videos[i]) {
                Some(item) => {
                    let ghost before = out@;
                    out.push(item);
                    assert(platform_item_views(out@) =~= platform_item_views(before).push(item@));
                },
                None => {},
            }
            i += 1;
        }
        out
    }
}

} // verus!
