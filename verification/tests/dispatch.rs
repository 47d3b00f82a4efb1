use indelible::dispatch::{extract_youtube_video_id, infer_item_type_for_url, is_youtube_url, ItemType};

#[test]
fn youtube_shorts_use_the_video_dispatch_path() {
    let url = "https://www.youtube.com/shorts/abc123?feature=share";

    assert!(is_youtube_url(url));
    assert_eq!(extract_youtube_video_id(url).as_deref(), Some("abc123"));
    assert_eq!(infer_item_type_for_url(url), ItemType::Video);
}

#[test]
fn watch_urls_on_every_youtube_host_are_videos() {
    for host in ["www.youtube.com", "m.youtube.com", "music.youtube.com", "youtube.com"] {
        let url = format!("https://{host}/watch?v=dQw4w9WgXcQ");
        assert_eq!(extract_youtube_video_id(&url).as_deref(), Some("dQw4w9WgXcQ"), "{url}");
        assert_eq!(infer_item_type_for_url(&url), ItemType::Video);
    }
}

#[test]
fn watch_query_finds_v_among_other_parameters() {
    assert_eq!(
        extract_youtube_video_id("https://www.youtube.com/watch?feature=share&v=abc_-9&t=42#frag").as_deref(),
        Some("abc_-9")
    );
    assert_eq!(extract_youtube_video_id("https://www.youtube.com/watch?v=xyz#t=1").as_deref(), Some("xyz"));
}

#[test]
fn short_links_and_plain_http_are_recognised() {
    assert_eq!(extract_youtube_video_id("https://youtu.be/abc123").as_deref(), Some("abc123"));
    assert_eq!(extract_youtube_video_id("http://youtu.be/abc123?si=x").as_deref(), Some("abc123"));
}

#[test]
fn other_urls_are_articles() {
    for url in [
        "https://example.com/watch?v=abc",
        "https://www.youtube.com/channel/UC123",
        "https://www.youtube.com/watch?list=PL1",
        "https://www.youtube.com/watch?v=",
        "https://www.youtube.com/shorts/",
        "https://youtu.be/",
        "ftp://youtu.be/abc",
        "www.youtube.com/watch?v=abc",
        "https://www.youtube.com/watch?v=a%20b",
    ] {
        assert!(!is_youtube_url(url), "{url}");
        assert_eq!(extract_youtube_video_id(url), None, "{url}");
        assert_eq!(infer_item_type_for_url(url), ItemType::Article, "{url}");
    }
}
