use indelible::provider_candidates::{
    instance_for_url, youtube_candidates, youtube_rsshub_path_from_canonical, FeedProviderInstance,
    ProviderCandidate,
};

fn inst(id: u128, base: &str, kind: &str) -> FeedProviderInstance {
    FeedProviderInstance { id, base_url: base.to_string(), provider_type: kind.to_string() }
}

#[test]
fn youtube_candidates_use_rsshub_instances_only() {
    let instances = vec![
        inst(1, "https://rsshub.example.com/", "rsshub"),
        inst(2, "https://nitter.example.com", "nitter"),
        inst(3, "https://hub.example.org//", "rsshub"),
    ];
    let c = youtube_candidates("/youtube/user/@JFlaMusic", &instances);
    assert_eq!(
        c,
        vec![
            ProviderCandidate {
                url: "https://rsshub.example.com/youtube/user/@JFlaMusic".to_string(),
                provider_type: "rsshub".to_string(),
                instance_id: Some(1),
            },
            ProviderCandidate {
                url: "https://hub.example.org/youtube/user/@JFlaMusic".to_string(),
                provider_type: "rsshub".to_string(),
                instance_id: Some(3),
            },
        ]
    );
    assert!(youtube_candidates("/x", &[]).is_empty());
}

#[test]
fn the_longest_matching_base_wins() {
    let instances = vec![
        inst(1, "https://host.example/rss", "rsshub"),
        inst(2, "https://host.example/rss2/", "rsshub"),
        inst(3, "https://host.example", "rsshub"),
    ];
    assert_eq!(instance_for_url(&instances, "https://host.example/rss2/feed").map(|i| i.id), Some(2));
    assert_eq!(instance_for_url(&instances, "https://host.example/rss/feed").map(|i| i.id), Some(1));
    assert_eq!(instance_for_url(&instances, "https://host.example/rss").map(|i| i.id), Some(1));
    // `/rssfoo` is not under `/rss`, only under the bare host.
    assert_eq!(instance_for_url(&instances, "https://host.example/rssfoo").map(|i| i.id), Some(3));
}

#[test]
fn instances_must_share_the_origin() {
    let instances = vec![inst(1, "https://host.example:8443/rss", "rsshub"), inst(2, "http://host.example", "rsshub")];
    assert_eq!(instance_for_url(&instances, "https://host.example/rss/a").map(|i| i.id), None);
    assert_eq!(instance_for_url(&instances, "https://host.example:8443/rss/a").map(|i| i.id), Some(1));
    assert_eq!(instance_for_url(&instances, "http://host.example:80/a").map(|i| i.id), Some(2));
    assert_eq!(instance_for_url(&instances, "not a url").map(|i| i.id), None);
}

#[test]
fn ties_go_to_the_later_instance() {
    let instances = vec![inst(1, "https://host.example/a", "rsshub"), inst(2, "https://host.example/a/", "other")];
    assert_eq!(instance_for_url(&instances, "https://host.example/a/b").map(|i| i.id), Some(2));
}

#[test]
fn rsshub_paths_of_canonical_youtube_urls() {
    let p = |u: &str| youtube_rsshub_path_from_canonical(u);
    assert_eq!(p("https://www.youtube.com/@JFlaMusic").as_deref(), Some("/youtube/user/@JFlaMusic"));
    assert_eq!(p("https://www.youtube.com/@JFlaMusic/videos/").as_deref(), Some("/youtube/user/@JFlaMusic"));
    assert_eq!(p("https://www.youtube.com/channel/UC123").as_deref(), Some("/youtube/channel/UC123"));
    assert_eq!(p("https://youtube.com/user/someone/").as_deref(), Some("/youtube/user/someone"));
    assert_eq!(p("https://m.youtube.com//c/name").as_deref(), Some("/youtube/c/name"));
    assert_eq!(p("https://www.youtube.com/channel"), None);
    assert_eq!(p("https://www.youtube.com/watch?v=x"), None);
    assert_eq!(p("https://example.com/@x"), None);
}
