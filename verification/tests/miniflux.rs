use indelible::domain::{IntegrationConnection, IntegrationProvider, JsonValue};
use indelible::error::{AppError, DomainError};
use indelible::miniflux::{
    check_endpoint, entries_request_url, entry_origin_key, entry_tag_names, is_success_status,
    stale_library_entries, unread_entries_request_url, EndpointCheck, MappedEntry, MinifluxEntry,
    MinifluxFeed, MinifluxFeedCategory, MinifluxResponse,
};
use indelible::miniflux_sync::{
    ContentSource, DocumentOriginType, DocumentType, HttpOutcome, MinifluxPush, MinifluxSync,
    MinifluxSyncJob, PushAction, PushEvent, PushReadStateJob, SavedEntry, SyncAction, SyncEvent,
};

fn entry(id: i32, tags: Option<Vec<&str>>, category: Option<&str>) -> MinifluxEntry {
    MinifluxEntry {
        id,
        title: format!("Entry {id}"),
        url: format!("https://example.com/{id}"),
        tags: tags.map(|t| t.into_iter().map(String::from).collect()),
        feed: Some(MinifluxFeed {
            category: category.map(|c| MinifluxFeedCategory { title: c.to_string() }),
        }),
    }
}

fn config(url: &str, api_key: &str) -> JsonValue {
    JsonValue::Object(vec![
        ("url".to_string(), JsonValue::Text(url.to_string())),
        ("api_key".to_string(), JsonValue::Text(api_key.to_string())),
    ])
}

fn connection(provider: IntegrationProvider, config: JsonValue) -> IntegrationConnection {
    IntegrationConnection {
        id: 7,
        user_id: 1,
        provider,
        config,
        status: "connected".to_string(),
        last_sync_at: None,
        last_error: None,
        created_at: 0,
        updated_at: 0,
        version: 0,
    }
}

#[test]
fn tag_names_are_trimmed_sorted_and_deduplicated() {
    let e = entry(1, Some(vec![" tech ", "rust", "", "  ", "Technology", "rust"]), Some(" Technology "));
    assert_eq!(entry_tag_names(&e), vec!["Technology", "rust", "tech"]);
    let none = MinifluxEntry { id: 2, title: String::new(), url: String::new(), tags: None, feed: None };
    assert!(entry_tag_names(&none).is_empty());
    let blank_category = entry(3, Some(vec![]), Some("   "));
    assert!(entry_tag_names(&blank_category).is_empty());
}

#[test]
fn tag_names_do_not_depend_on_order() {
    let a = entry(1, Some(vec!["b", "a", "c", "a"]), Some("d"));
    let b = entry(1, Some(vec!["d", "c", "b", "a"]), None);
    assert_eq!(entry_tag_names(&a), entry_tag_names(&b));
}

#[test]
fn endpoint_settings_are_checked() {
    match check_endpoint(&config("https://mf.example.com/", "key")) {
        EndpointCheck::Ready { url, api_key } => {
            assert_eq!(url, "https://mf.example.com/");
            assert_eq!(api_key, "key");
        }
        _ => panic!("expected a usable endpoint"),
    }
    assert!(matches!(check_endpoint(&config("", "key")), EndpointCheck::Missing));
    assert!(matches!(check_endpoint(&config("https://x", "")), EndpointCheck::Missing));
    assert!(matches!(check_endpoint(&JsonValue::Null), EndpointCheck::Missing));
    assert!(matches!(check_endpoint(&config("ftp://x", "key")), EndpointCheck::BadScheme));
}

#[test]
fn request_urls_trim_trailing_slashes() {
    assert_eq!(
        unread_entries_request_url("https://mf.example.com//"),
        "https://mf.example.com/v1/entries?status=unread&limit=10000"
    );
    assert_eq!(entries_request_url("http://mf"), "http://mf/v1/entries");
    assert!(is_success_status(200) && is_success_status(299));
    assert!(!is_success_status(199) && !is_success_status(300) && !is_success_status(404));
}

#[test]
fn origin_keys_name_the_miniflux_entry() {
    assert_eq!(entry_origin_key(42), "miniflux:42");
    assert_eq!(entry_origin_key(0), "miniflux:0");
    assert_eq!(entry_origin_key(-5), "miniflux:-5");
    assert_eq!(entry_origin_key(i32::MIN), "miniflux:-2147483648");
}

#[test]
fn distinct_entries_have_distinct_origin_keys() {
    let ids = [-12, -1, 0, 1, 12, 21, 120, i32::MAX];
    for a in ids {
        for b in ids {
            assert_eq!(a == b, entry_origin_key(a) == entry_origin_key(b));
        }
    }
}

#[test]
fn stale_entries_are_those_no_longer_unread() {
    let entries = vec![entry(1, None, None), entry(3, None, None)];
    let mapped = vec![
        MappedEntry { library_entry_id: 10, miniflux_id: 1 },
        MappedEntry { library_entry_id: 20, miniflux_id: 2 },
        MappedEntry { library_entry_id: 30, miniflux_id: 3 },
        MappedEntry { library_entry_id: 40, miniflux_id: 4 },
    ];
    assert_eq!(stale_library_entries(&mapped, &entries), vec![20, 40]);
    assert_eq!(stale_library_entries(&mapped, &[]), vec![10, 20, 30, 40]);
}

#[test]
fn a_full_sync_saves_tags_maps_archives_and_records() {
    let mut sync = MinifluxSync::new(MinifluxSyncJob { user_id: 1, connection_id: 7 });
    assert!(matches!(sync.step(SyncEvent::Started), SyncAction::LoadConnection { user_id: 1, connection_id: 7 }));
    let c = connection(IntegrationProvider::Miniflux, config("https://mf/", "k"));
    match sync.step(SyncEvent::ConnectionLoaded(Ok(Some(c)))) {
        SyncAction::RequestUnreadEntries { url, api_key } => {
            assert_eq!(url, "https://mf/v1/entries?status=unread&limit=10000");
            assert_eq!(api_key, "k");
        }
        _ => panic!("expected the unread request"),
    }
    let ok = HttpOutcome::Responded { status: 200, status_text: "200 OK".to_string() };
    assert!(matches!(sync.step(SyncEvent::EntriesRequested(ok)), SyncAction::ParseEntries));
    let resp = MinifluxResponse {
        total: 2,
        entries: vec![entry(42, Some(vec!["rust", "tech"]), Some("Technology")), entry(43, Some(vec![]), None)],
    };
    match sync.step(SyncEvent::EntriesParsed(Ok(resp))) {
        SyncAction::SaveEntry(req) => {
            assert_eq!((req.user_id, req.origin_key.as_str()), (1, "miniflux:42"));
            assert_eq!((req.canonical_url.as_str(), req.title.as_str()), ("https://example.com/42", "Entry 42"));
            assert_eq!(req.original_url.as_deref(), Some("https://example.com/42"));
            assert_eq!(req.document_type, DocumentType::Article);
            assert_eq!(req.origin_type, DocumentOriginType::MinifluxItem);
            assert_eq!(req.source, ContentSource::Import);
            assert!(!req.hide_deliveries && req.enqueue_engaged_ai);
        }
        _ => panic!("expected the first save"),
    }
    let saved = SavedEntry { document_id: 100, library_entry_id: 200 };
    match sync.step(SyncEvent::EntrySaved(Ok(saved))) {
        SyncAction::ResolveTags { names, .. } => assert_eq!(names, vec!["Technology", "rust", "tech"]),
        _ => panic!("expected tag resolution"),
    }
    let resolved = vec![Ok(5), Err("boom".to_string()), Ok(6)];
    match sync.step(SyncEvent::TagsResolved(resolved)) {
        SyncAction::ReplaceEntryTags { library_entry_id, tag_ids, .. } => {
            assert_eq!(library_entry_id, 200);
            assert_eq!(tag_ids, vec![5, 6]);
        }
        _ => panic!("expected tag replacement"),
    }
    assert!(matches!(
        sync.step(SyncEvent::TagsReplaced(Err("x".to_string()))),
        SyncAction::RecordMapping { document_id: 100, miniflux_id: 42, .. }
    ));
    match sync.step(SyncEvent::MappingRecorded) {
        SyncAction::SaveEntry(req) => assert_eq!(req.origin_key, "miniflux:43"),
        _ => panic!("expected the second save"),
    }
    // A failed save skips the entry's tags and mapping.
    assert!(matches!(
        sync.step(SyncEvent::EntrySaved(Err("fail".to_string()))),
        SyncAction::ListMappedEntries { user_id: 1 }
    ));
    let rows = vec![
        MappedEntry { library_entry_id: 900, miniflux_id: 42 },
        MappedEntry { library_entry_id: 901, miniflux_id: 7 },
    ];
    match sync.step(SyncEvent::MappedEntriesListed(Ok(rows))) {
        SyncAction::ArchiveEntries { library_entry_ids, .. } => assert_eq!(library_entry_ids, vec![901]),
        _ => panic!("expected archiving"),
    }
    assert!(matches!(sync.step(SyncEvent::EntriesArchived), SyncAction::RecordLastSync { connection_id: 7, user_id: 1 }));
    assert!(matches!(sync.step(SyncEvent::LastSyncRecorded(Ok(()))), SyncAction::Finish(Ok(()))));
}

#[test]
fn entries_without_tags_go_straight_to_their_mapping() {
    let mut sync = MinifluxSync::new(MinifluxSyncJob { user_id: 1, connection_id: 7 });
    sync.step(SyncEvent::Started);
    sync.step(SyncEvent::ConnectionLoaded(Ok(Some(connection(IntegrationProvider::Miniflux, config("http://mf", "k"))))));
    sync.step(SyncEvent::EntriesRequested(HttpOutcome::Responded { status: 204, status_text: "204".into() }));
    sync.step(SyncEvent::EntriesParsed(Ok(MinifluxResponse { total: 1, entries: vec![entry(9, None, None)] })));
    let saved = SavedEntry { document_id: 1, library_entry_id: 2 };
    assert!(matches!(sync.step(SyncEvent::EntrySaved(Ok(saved))), SyncAction::RecordMapping { miniflux_id: 9, .. }));
    assert!(matches!(sync.step(SyncEvent::MappingRecorded), SyncAction::ListMappedEntries { .. }));
    // A failed listing archives nothing.
    assert!(matches!(sync.step(SyncEvent::MappedEntriesListed(Err("db".into()))), SyncAction::RecordLastSync { .. }));
    let err = AppError::Repository("down".into());
    assert!(matches!(sync.step(SyncEvent::LastSyncRecorded(Err(err.clone()))), SyncAction::Finish(Err(e)) if e == err));
}

fn finish_error(a: SyncAction) -> AppError {
    match a {
        SyncAction::Finish(Err(e)) => e,
        _ => panic!("expected a failed finish"),
    }
}

fn sync_with(conn: Option<IntegrationConnection>) -> AppError {
    let mut sync = MinifluxSync::new(MinifluxSyncJob { user_id: 1, connection_id: 0x67e5504410b1426f9247bb680e5fe0c8 });
    sync.step(SyncEvent::Started);
    finish_error(sync.step(SyncEvent::ConnectionLoaded(Ok(conn))))
}

#[test]
fn unusable_connections_fail_the_sync() {
    assert_eq!(
        sync_with(None),
        AppError::Domain(DomainError::NotFound {
            entity: "IntegrationConnection".into(),
            id: "67e55044-10b1-426f-9247-bb680e5fe0c8".into()
        })
    );
    assert_eq!(
        sync_with(Some(connection(IntegrationProvider::Logseq, config("https://mf", "k")))),
        AppError::Domain(DomainError::Validation { field: "provider".into(), message: "Expected Miniflux provider".into() })
    );
    assert_eq!(
        sync_with(Some(connection(IntegrationProvider::Miniflux, config("https://mf", "")))),
        AppError::Domain(DomainError::Validation { field: "config".into(), message: "Missing Miniflux URL or API key".into() })
    );
    assert_eq!(
        sync_with(Some(connection(IntegrationProvider::Miniflux, config("mf.example.com", "k")))),
        AppError::Domain(DomainError::Validation {
            field: "url".into(),
            message: "Miniflux URL must start with http:// or https://".into()
        })
    );
}

fn sync_after_request(o: HttpOutcome) -> SyncAction {
    let mut sync = MinifluxSync::new(MinifluxSyncJob { user_id: 1, connection_id: 7 });
    sync.step(SyncEvent::Started);
    sync.step(SyncEvent::ConnectionLoaded(Ok(Some(connection(IntegrationProvider::Miniflux, config("https://mf", "k"))))));
    sync.step(SyncEvent::EntriesRequested(o))
}

#[test]
fn failed_requests_fail_the_sync() {
    let ext = |m: &str| AppError::ExternalService { service: "miniflux".into(), message: m.into() };
    assert_eq!(finish_error(sync_after_request(HttpOutcome::ClientFailed("tls".into()))), ext("Failed to build HTTP client: tls"));
    assert_eq!(
        finish_error(sync_after_request(HttpOutcome::SendFailed("timeout".into()))),
        ext("Failed to fetch Miniflux entries: timeout")
    );
    assert_eq!(
        finish_error(sync_after_request(HttpOutcome::Responded { status: 401, status_text: "401 Unauthorized".into() })),
        ext("Miniflux API returned error status: 401 Unauthorized")
    );
    let mut sync = MinifluxSync::new(MinifluxSyncJob { user_id: 1, connection_id: 7 });
    sync.step(SyncEvent::Started);
    sync.step(SyncEvent::ConnectionLoaded(Ok(Some(connection(IntegrationProvider::Miniflux, config("https://mf", "k"))))));
    sync.step(SyncEvent::EntriesRequested(HttpOutcome::Responded { status: 200, status_text: "200 OK".into() }));
    assert_eq!(
        finish_error(sync.step(SyncEvent::EntriesParsed(Err("eof".into())))),
        ext("Failed to parse Miniflux response: eof")
    );
}

fn push_until_listed(conns: Vec<IntegrationConnection>) -> PushAction {
    let mut push = MinifluxPush::new(PushReadStateJob { user_id: 1, document_id: 2 });
    assert!(matches!(push.step(PushEvent::Started), PushAction::LookUpMapping { user_id: 1, document_id: 2 }));
    assert!(matches!(push.step(PushEvent::MappingFound(Ok(Some(42)))), PushAction::ListConnections { user_id: 1 }));
    push.step(PushEvent::ConnectionsListed(Ok(conns)))
}

#[test]
fn a_read_state_push_marks_the_entry_read() {
    let conns = vec![
        connection(IntegrationProvider::Logseq, config("https://other", "x")),
        connection(IntegrationProvider::Miniflux, config("https://mf/", "k")),
        connection(IntegrationProvider::Miniflux, config("https://second", "y")),
    ];
    let mut push = MinifluxPush::new(PushReadStateJob { user_id: 1, document_id: 2 });
    push.step(PushEvent::Started);
    push.step(PushEvent::MappingFound(Ok(Some(42))));
    match push.step(PushEvent::ConnectionsListed(Ok(conns))) {
        PushAction::SendReadState { url, api_key, miniflux_id } => {
            assert_eq!((url.as_str(), api_key.as_str(), miniflux_id), ("https://mf/v1/entries", "k", 42));
        }
        _ => panic!("expected the status update"),
    }
    let ok = HttpOutcome::Responded { status: 204, status_text: "204 No Content".into() };
    assert!(matches!(push.step(PushEvent::ReadStateSent(ok)), PushAction::Finish(Ok(()))));
}

#[test]
fn a_read_state_push_skips_what_it_cannot_push() {
    let mut push = MinifluxPush::new(PushReadStateJob { user_id: 1, document_id: 2 });
    push.step(PushEvent::Started);
    assert!(matches!(push.step(PushEvent::MappingFound(Ok(None))), PushAction::Finish(Ok(()))));
    assert!(matches!(push_until_listed(vec![]), PushAction::Finish(Ok(()))));
    assert!(matches!(
        push_until_listed(vec![connection(IntegrationProvider::Miniflux, config("", "k"))]),
        PushAction::Finish(Ok(()))
    ));
    assert!(matches!(
        push_until_listed(vec![connection(IntegrationProvider::Miniflux, config("mf", "k"))]),
        PushAction::Finish(Err(AppError::Domain(DomainError::Validation { .. })))
    ));
    let mut push = MinifluxPush::new(PushReadStateJob { user_id: 1, document_id: 2 });
    push.step(PushEvent::Started);
    assert_eq!(
        match push.step(PushEvent::MappingFound(Err("db down".into()))) {
            PushAction::Finish(Err(e)) => e,
            _ => panic!(),
        },
        AppError::Repository("db down".into())
    );
}

#[test]
fn a_failed_read_state_push_reports_the_service() {
    let mut push = MinifluxPush::new(PushReadStateJob { user_id: 1, document_id: 2 });
    push.step(PushEvent::Started);
    push.step(PushEvent::MappingFound(Ok(Some(1))));
    push.step(PushEvent::ConnectionsListed(Ok(vec![connection(IntegrationProvider::Miniflux, config("https://mf", "k"))])));
    match push.step(PushEvent::ReadStateSent(HttpOutcome::SendFailed("reset".into()))) {
        PushAction::Finish(Err(AppError::ExternalService { service, message })) => {
            assert_eq!(service, "miniflux");
            assert_eq!(message, "Failed to update Miniflux read state: reset");
        }
        _ => panic!("expected a failure"),
    }
}
