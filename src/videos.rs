//! Tutorial videos: the search address, framing of the data embedded in the
//! results page, records from the page's items, and the fixed fallback.

use vstd::prelude::*;
use crate::foreign::{chars_of, string_of, lowercase, lower_of, url_encode, url_encoded};
use crate::text::{contains, contains_exec, occurs_at, find_from, slice_of};
use crate::classify::{difficulty_of, determine_difficulty};
use crate::jobs::or_empty;

verus! {

pub const SEARCH_URL_PREFIX: &'static str = "https://www.youtube.com/results?search_query=";

pub const SEARCH_URL_SUFFIX: &'static str = "+tutorial";

pub const WATCH_URL_PREFIX: &'static str = "https://www.youtube.com/watch?v=";

/// Marks where the page assigns its embedded data.
pub const DATA_START_MARKER: &'static str = "var ytInitialData = ";

/// Marks where the embedded data ends.
pub const DATA_END_MARKER: &'static str = ";</script>";

/// The video of the default fallback.
pub const DEFAULT_VIDEO_ID: &'static str = "dQw4w9WgXcQ";

pub struct Video {
    pub title: String,
    pub url: String,
    pub video_id: String,
    pub resource_type: String,
    pub free: bool,
    pub image: String,
    pub source: String,
    pub difficulty: String,
    pub description: String,
}

pub struct VideoView {
    pub title: Seq<char>,
    pub url: Seq<char>,
    pub video_id: Seq<char>,
    pub resource_type: Seq<char>,
    pub free: bool,
    pub image: Seq<char>,
    pub source: Seq<char>,
    pub difficulty: Seq<char>,
    pub description: Seq<char>,
}

impl View for Video {
    type V = VideoView;

    open spec fn view(&self) -> VideoView {
        VideoView {
            title: self.title@,
            url: self.url@,
            video_id: self.video_id@,
            resource_type: self.resource_type@,
            free: self.free,
            image: self.image@,
            source: self.source@,
            difficulty: self.difficulty@,
            description: self.description@,
        }
    }
}

pub open spec fn video_views(s: Seq<Video>) -> Seq<VideoView> {
    s.map_values(|v: Video| v@)
}

/// One item of the results page that holds a video renderer; a field the page left
/// out is `None`.
pub struct RawVideo {
    pub video_id: Option<String>,
    pub title: Option<String>,
    pub thumbnail: Option<String>,
}

/// The results page searched for tutorials on `query`.
pub open spec fn search_url(query: Seq<char>) -> Seq<char> {
    SEARCH_URL_PREFIX@ + url_encoded(query) + SEARCH_URL_SUFFIX@
}

pub fn youtube_search_url(query: &str) -> (r: String)
    ensures
        r@ == search_url(query@),
{
    let encoded = url_encode(query);
    String::from_str(SEARCH_URL_PREFIX).concat(encoded.as_str()).concat(SEARCH_URL_SUFFIX)
}

/// `i` is the first position at or after `from` where `needle` stands in `hay`.
pub open spec fn first_at(hay: Seq<char>, needle: Seq<char>, from: int, i: int) -> bool {
    from <= i && occurs_at(hay, needle, i) && forall|j: int| from <= j < i ==> !occurs_at(hay, needle, j)
}

/// Where `needle` first stands in `hay` at or after `from`.
pub open spec fn first_from(hay: Seq<char>, needle: Seq<char>, from: int) -> Option<int> {
    if exists|i: int| #[trigger] first_at(hay, needle, from, i) {
        Some(choose|i: int| #[trigger] first_at(hay, needle, from, i))
    } else {
        None
    }
}

/// The embedded data of a results page: what follows the start marker's last
/// character up to the first end marker after it. There is none where either
/// marker is missing.
pub open spec fn embedded_data(html: Seq<char>) -> Option<Seq<char>> {
    match first_from(html, DATA_START_MARKER@, 0) {
        Some(s) => match first_from(html, DATA_END_MARKER@, s + DATA_START_MARKER@.len()) {
            Some(e) => Some(html.subrange(s + DATA_START_MARKER@.len() - 1, e)),
            None => None,
        },
        None => None,
    }
}

proof fn lemma_first_at_unique(hay: Seq<char>, needle: Seq<char>, from: int, i: int, k: int)
    requires
        first_at(hay, needle, from, i),
        first_at(hay, needle, from, k),
    ensures
        i == k,
{
}

/// The text of the data that a results page embeds, framed by its markers.
pub fn initial_data_json(html: &str) -> (r: Option<String>)
    ensures
        match r {
            Some(j) => embedded_data(html@) == Some(j@),
            None => embedded_data(html@) is None,
        },
{
    let h = chars_of(html);
    let start_marker = chars_of(DATA_START_MARKER);
    let end_marker = chars_of(DATA_END_MARKER);
    proof {
        reveal_strlit("var ytInitialData = ");
    }
    let s = match find_from(&h, &start_marker, 0) {
        Some(s) => s,
        None => {
            assert(first_from(h@, DATA_START_MARKER@, 0) is None);
            return None;
        },
    };
    proof {
        assert(first_at(h@, DATA_START_MARKER@, 0, s as int));
        let s2 = choose|i: int| #[trigger] first_at(h@, DATA_START_MARKER@, 0, i);
        lemma_first_at_unique(h@, DATA_START_MARKER@, 0, s as int, s2);
        assert(first_from(h@, DATA_START_MARKER@, 0) == Some(s as int));
    }
    let hl = h.len();
    let ml = start_marker.len();
    assert(s + ml <= hl);
    let from = s + ml;
    match find_from(&h, &end_marker, from) {
        Some(e) => {
            proof {
                assert(first_at(h@, DATA_END_MARKER@, from as int, e as int));
                let e2 = choose|i: int| #[trigger] first_at(h@, DATA_END_MARKER@, from as int, i);
                lemma_first_at_unique(h@, DATA_END_MARKER@, from as int, e as int, e2);
            }
            Some(string_of(&slice_of(&h, from - 1, e)))
        },
        None => {
            assert(first_from(h@, DATA_END_MARKER@, from as int) is None);
            None
        },
    }
}

/// A link without its query: what stands before the first `?`.
pub open spec fn without_query(u: Seq<char>) -> Seq<char> {
    if exists|i: int| 0 <= i < u.len() && u[i] == '?' {
        u.take(choose|i: int| 0 <= i < u.len() && u[i] == '?' && forall|j: int| 0 <= j < i ==> u[j] != '?')
    } else {
        u
    }
}

pub open spec fn watch_url(id: Seq<char>) -> Seq<char> {
    WATCH_URL_PREFIX@ + id
}

pub open spec fn thumbnail_url(id: Seq<char>) -> Seq<char> {
    "https://i.ytimg.com/vi/"@ + id + "/hqdefault.jpg"@
}

/// An item becomes a record when it has both a video id and a title.
pub open spec fn usable(item: RawVideo) -> bool {
    or_empty(item.video_id).len() > 0 && or_empty(item.title).len() > 0
}

pub open spec fn video_of(item: RawVideo) -> VideoView {
    VideoView {
        title: or_empty(item.title),
        url: watch_url(or_empty(item.video_id)),
        video_id: or_empty(item.video_id),
        resource_type: "video"@,
        free: true,
        image: without_query(or_empty(item.thumbnail)),
        source: "YouTube"@,
        difficulty: difficulty_of(lower_of(or_empty(item.title))),
        description: Seq::empty(),
    }
}

/// The records that the usable items give, in order, at most `limit`.
pub open spec fn videos_of(items: Seq<RawVideo>, limit: nat) -> Seq<VideoView>
    decreases items.len(),
{
    if items.len() == 0 {
        Seq::empty()
    } else {
        let prev = videos_of(items.drop_last(), limit);
        if prev.len() < limit && usable(items.last()) {
            prev.push(video_of(items.last()))
        } else {
            prev
        }
    }
}

fn text_of(o: &Option<String>) -> (r: String)
    ensures
        r@ == or_empty(*o),
{
    match o {
        Some(s) => s.clone(),
        None => String::new(),
    }
}

fn without_query_exec(u: &String) -> (r: String)
    ensures
        r@ == without_query(u@),
{
    let c = chars_of(u.as_str());
    let q = chars_of("?");
    proof {
        reveal_strlit("?");
        assert(q@ =~= seq!['?']);
    }
    match find_from(&c, &q, 0) {
        Some(p) => {
            proof {
                assert(c@.subrange(p as int, p + 1) == seq!['?']);
                assert(c@[p as int] == c@.subrange(p as int, p + 1)[0]);
                assert forall|j: int| 0 <= j < p implies c@[j] != '?' by {
                    if c@[j] == '?' {
                        assert(c@.subrange(j, j + 1) =~= seq!['?']);
                        assert(occurs_at(c@, q@, j));
                    }
                }
                let k = choose|i: int| 0 <= i < c@.len() && c@[i] == '?' && forall|j: int|
                    0 <= j < i ==> c@[j] != '?';
                assert(k == p) by {
                    if k < p {
                        assert(c@[k] == '?');
                    } else if k > p {
                        assert(c@[p as int] == '?');
                    }
                }
            }
            let head = slice_of(&c, 0, p);
            assert(head@ =~= c@.take(p as int));
            string_of(&head)
        },
        None => {
            assert forall|i: int| 0 <= i < c@.len() implies c@[i] != '?' by {
                if c@[i] == '?' {
                    assert(c@.subrange(i, i + 1) =~= seq!['?']);
                    assert(occurs_at(c@, q@, i));
                }
            }
            u.clone()
        },
    }
}

fn make_video(item: &RawVideo) -> (r: Video)
    ensures
        r@ == video_of(*item),
{
    let title = text_of(&item.title);
    let id = text_of(&item.video_id);
    let r = Video {
        url: String::from_str(WATCH_URL_PREFIX).concat(id.as_str()),
        difficulty: determine_difficulty(title.as_str()),
        title,
        video_id: id,
        resource_type: String::from_str("video"),
        free: true,
        image: without_query_exec(&text_of(&item.thumbnail)),
        source: String::from_str("YouTube"),
        description: String::new(),
    };
    assert(r@.description =~= Seq::<char>::empty());
    r
}

/// The records that the items of a results page give, at most `limit` of them.
pub fn videos_from_items(items: &Vec<RawVideo>, limit: u32) -> (r: Vec<Video>)
    ensures
        video_views(r@) == videos_of(items@, limit as nat),
        r@.len() <= limit,
{
    let mut out: Vec<Video> = Vec::new();
    let mut i: usize = 0;
    assert(items@.take(0) =~= Seq::<RawVideo>::empty());
    assert(video_views(out@) =~= Seq::<VideoView>::empty());
    while i < items.len()
        invariant
            i <= items@.len(),
            video_views(out@) == videos_of(items@.take(i as int), limit as nat),
            out@.len() <= limit,
        decreases items@.len() - i,
    {
        let ghost prev = out@;
        assert(items@.take(i + 1).drop_last() =~= items@.take(i as int));
        assert(items@.take(i + 1).last() == items@[i as int]);
        let item = &items[i];
        if out.len() < limit as usize {
            let id = text_of(&item.video_id);
            let title = text_of(&item.title);
            if !id.as_str().is_empty() && !title.as_str().is_empty() {
                let v = make_video(item);
                out.push(v);
                assert(video_views(out@) =~= video_views(prev).push(v@));
            }
        }
        i = i + 1;
    }
    assert(items@.take(i as int) =~= items@);
    out
}

/// The fixed fallback keywords with the video each stands for: the first keyword
/// that the lowercased query holds picks its video.
pub open spec fn fallback_pick(l: Seq<char>) -> Option<(Seq<char>, Seq<char>)> {
    if contains(l, "docker"@) {
        Some(("Docker Tutorial for Beginners"@, "3c-iBn73dDE"@))
    } else if contains(l, "rust programming"@) {
        Some(("Rust Programming Course for Beginners"@, "MsocPEZBd-M"@))
    } else if contains(l, "python"@) {
        Some(("Python Tutorial for Beginners"@, "rfscVS0vtbw"@))
    } else if contains(l, "javascript"@) {
        Some(("JavaScript Tutorial for Beginners"@, "W6NZfCO5SIk"@))
    } else {
        None
    }
}

pub open spec fn keyword_video(title: Seq<char>, id: Seq<char>) -> VideoView {
    VideoView {
        title,
        url: watch_url(id),
        video_id: id,
        resource_type: "video"@,
        free: true,
        image: thumbnail_url(id),
        source: "YouTube"@,
        difficulty: difficulty_of(lower_of(title)),
        description: Seq::empty(),
    }
}

/// The video offered when nothing better is known.
pub open spec fn default_video() -> VideoView {
    VideoView {
        title: "Learn the Basics"@,
        url: watch_url(DEFAULT_VIDEO_ID@),
        video_id: DEFAULT_VIDEO_ID@,
        resource_type: "video"@,
        free: true,
        image: thumbnail_url(DEFAULT_VIDEO_ID@),
        source: "YouTube"@,
        difficulty: "beginner"@,
        description: Seq::empty(),
    }
}

pub open spec fn fallback_of(query: Seq<char>) -> Seq<VideoView> {
    match fallback_pick(lower_of(query)) {
        Some((title, id)) => seq![keyword_video(title, id)],
        None => seq![default_video()],
    }
}

fn fallback_video(title: &str, id: &str, difficulty: String) -> (r: Video)
    ensures
        r@.title == title@,
        r@.url == watch_url(id@),
        r@.video_id == id@,
        r@.resource_type == "video"@,
        r@.free,
        r@.image == thumbnail_url(id@),
        r@.source == "YouTube"@,
        r@.difficulty == difficulty@,
        r@.description == Seq::<char>::empty(),
{
    let r = Video {
        title: String::from_str(title),
        url: String::from_str(WATCH_URL_PREFIX).concat(id),
        video_id: String::from_str(id),
        resource_type: String::from_str("video"),
        free: true,
        image: String::from_str("https://i.ytimg.com/vi/").concat(id).concat("/hqdefault.jpg"),
        source: String::from_str("YouTube"),
        difficulty,
        description: String::new(),
    };
    assert(r@.description =~= Seq::<char>::empty());
    r
}

fn keyword_fallback(title: &str, id: &str) -> (r: Vec<Video>)
    ensures
        video_views(r@) == seq![keyword_video(title@, id@)],
{
    let v = fallback_video(title, id, determine_difficulty(title));
    let r = vec![v];
    assert(video_views(r@) =~= seq![keyword_video(title@, id@)]);
    r
}

/// The fixed fallback for `query`: the video of the first keyword it holds, or
/// else the default video.
pub fn get_fallback_videos(query: &str) -> (r: Vec<Video>)
    ensures
        video_views(r@) == fallback_of(query@),
{
    let l = chars_of(lowercase(query).as_str());
    if contains_exec(&l, &chars_of("docker")) {
        keyword_fallback("Docker Tutorial for Beginners", "3c-iBn73dDE")
    } else if contains_exec(&l, &chars_of("rust programming")) {
        keyword_fallback("Rust Programming Course for Beginners", "MsocPEZBd-M")
    } else if contains_exec(&l, &chars_of("python")) {
        keyword_fallback("Python Tutorial for Beginners", "rfscVS0vtbw")
    } else if contains_exec(&l, &chars_of("javascript")) {
        keyword_fallback("JavaScript Tutorial for Beginners", "W6NZfCO5SIk")
    } else {
        let v = fallback_video("Learn the Basics", DEFAULT_VIDEO_ID, String::from_str("beginner"));
        let r = vec![v];
        assert(video_views(r@) =~= seq![default_video()]);
        r
    }
}

/// The videos a search answers with: those extracted from the results page, or the
/// fallback where fetching or extraction failed or found nothing.
pub fn videos_or_fallback(query: &str, extracted: Option<Vec<Video>>) -> (r: Vec<Video>)
    ensures
        match extracted {
            Some(v) => if v@.len() > 0 {
                r@ == v@
            } else {
                video_views(r@) == fallback_of(query@)
            },
            None => video_views(r@) == fallback_of(query@),
        },
        r@.len() > 0,
{
    let fallback_used = match &extracted {
        Some(v) => v.len() == 0,
        None => true,
    };
    if fallback_used {
        let r = get_fallback_videos(query);
        assert(video_views(r@).len() == r@.len());
        return r;
    }
    match extracted {
        Some(v) => v,
        None => get_fallback_videos(query),
    }
}

/// A query that names no fallback keyword, whose extraction failed, gets exactly
/// the default video.
pub proof fn lemma_default_fallback(query: Seq<char>)
    requires
        fallback_pick(lower_of(query)) is None,
    ensures
        fallback_of(query) == seq![default_video()],
        fallback_of(query)[0].video_id == DEFAULT_VIDEO_ID@,
{
}

} // verus!
