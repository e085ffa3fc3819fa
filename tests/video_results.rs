use careerscout::videos::{
    get_fallback_videos, initial_data_json, videos_from_items, videos_or_fallback,
    youtube_search_url, RawVideo,
};

fn item(id: Option<&str>, title: Option<&str>, thumb: Option<&str>) -> RawVideo {
    RawVideo {
        video_id: id.map(|s| s.to_string()),
        title: title.map(|s| s.to_string()),
        thumbnail: thumb.map(|s| s.to_string()),
    }
}

#[test]
fn video_fallback_default_record() {
    let v = videos_or_fallback("quantum basket weaving", None);
    assert_eq!(v.len(), 1);
    assert_eq!(v[0].video_id, "dQw4w9WgXcQ");
    assert_eq!(v[0].title, "Learn the Basics");
    assert_eq!(v[0].url, "https://www.youtube.com/watch?v=dQw4w9WgXcQ");
    assert_eq!(v[0].image, "https://i.ytimg.com/vi/dQw4w9WgXcQ/hqdefault.jpg");
    assert_eq!(v[0].difficulty, "beginner");
    assert_eq!(v[0].resource_type, "video");
    assert_eq!(v[0].source, "YouTube");
    assert!(v[0].free);
    assert_eq!(v[0].description, "");
}

#[test]
fn video_fallback_when_extraction_empty() {
    let v = videos_or_fallback("something", Some(Vec::new()));
    assert_eq!(v.len(), 1);
    assert_eq!(v[0].video_id, "dQw4w9WgXcQ");
}

#[test]
fn video_fallback_keywords_in_order() {
    let v = get_fallback_videos("Learn DOCKER and python");
    assert_eq!(v.len(), 1);
    assert_eq!(v[0].video_id, "3c-iBn73dDE");
    assert_eq!(v[0].title, "Docker Tutorial for Beginners");
    assert_eq!(v[0].difficulty, "beginner");
    assert_eq!(v[0].image, "https://i.ytimg.com/vi/3c-iBn73dDE/hqdefault.jpg");
    assert_eq!(get_fallback_videos("Rust Programming")[0].video_id, "MsocPEZBd-M");
    assert_eq!(get_fallback_videos("rust")[0].video_id, "dQw4w9WgXcQ");
    assert_eq!(get_fallback_videos("javascript")[0].video_id, "W6NZfCO5SIk");
    assert_eq!(get_fallback_videos("python")[0].video_id, "rfscVS0vtbw");
}

#[test]
fn extracted_videos_are_kept() {
    let items = vec![item(Some("abc"), Some("Rust 101"), None)];
    let extracted = videos_from_items(&items, 5);
    let v = videos_or_fallback("docker", Some(extracted));
    assert_eq!(v.len(), 1);
    assert_eq!(v[0].video_id, "abc");
}

#[test]
fn embedded_data_is_framed() {
    let html = "<html><script>var ytInitialData = {\"a\":[1,2]};</script><script>x;</script>";
    assert_eq!(initial_data_json(html).as_deref(), Some(" {\"a\":[1,2]}"));
}

#[test]
fn embedded_data_missing_markers() {
    assert_eq!(initial_data_json("<html>nothing</html>"), None);
    assert_eq!(initial_data_json("var ytInitialData = {\"a\":1}"), None);
    assert_eq!(initial_data_json(";</script> var ytInitialData = {}"), None);
}

#[test]
fn items_become_videos() {
    let items = vec![
        item(Some("id1"), Some("Advanced Rust"), Some("https://i.ytimg.com/a.jpg?sqp=1&x=2")),
        item(None, Some("No id"), None),
        item(Some("id2"), None, None),
        item(Some("id3"), Some("Rust for Beginners"), None),
        item(Some("id4"), Some("Rust Tips"), Some("plain.jpg")),
    ];
    let v = videos_from_items(&items, 10);
    assert_eq!(v.len(), 3);
    assert_eq!(v[0].url, "https://www.youtube.com/watch?v=id1");
    assert_eq!(v[0].image, "https://i.ytimg.com/a.jpg");
    assert_eq!(v[0].difficulty, "advanced");
    assert_eq!(v[1].video_id, "id3");
    assert_eq!(v[1].image, "");
    assert_eq!(v[1].difficulty, "beginner");
    assert_eq!(v[2].image, "plain.jpg");
    assert_eq!(v[2].difficulty, "intermediate");
    assert_eq!(videos_from_items(&items, 2).len(), 2);
    assert_eq!(videos_from_items(&items, 0).len(), 0);
}

#[test]
fn search_url_encodes_query() {
    assert_eq!(
        youtube_search_url("rust async/await"),
        "https://www.youtube.com/results?search_query=rust%20async%2Fawait+tutorial"
    );
}
