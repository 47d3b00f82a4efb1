//! The Miniflux sync and read-state push as state machines: the worker
//! performs each action and hands back what came of it; every decision is
//! made here.
use vstd::prelude::*;

use crate::domain::{IntegrationConnection, IntegrationProvider};
use crate::error::{external, is_external, is_not_found, is_validation, not_found, validation, AppError};
use crate::miniflux::{
    check_endpoint, config_text, entries_request_url, entries_url, entry_origin_key,
    entry_tag_names, has_http_scheme, is_success_status, kept_names, offered_names, origin_key,
    stale_entries, stale_library_entries, unread_entries_request_url, unread_entries_url,
    EndpointCheck, MappedEntry, MinifluxEntry, MinifluxResponse,
};
use crate::outside::{uuid_string, uuid_text};
use crate::tag_names::strictly_sorted;
use crate::text::{chars_of, concat_chars, has_prefix, string_of, trim_end_char};

verus! {

/// `prefix` followed by `text`.
pub fn prefixed(prefix: &str, text: &str) -> (r: String)
    ensures
        r@ == prefix@ + text@,
{
    string_of(&concat_chars(&chars_of(prefix), &chars_of(text)))
}

/// What came of an HTTP call to Miniflux.
pub enum HttpOutcome {
    /// The HTTP client could not be built; the text of the error.
    ClientFailed(String),
    /// The request could not be sent or answered; the text of the error.
    SendFailed(String),
    /// Miniflux answered with this status (its code and its display text).
    Responded { status: u16, status_text: String },
}

/// The error for a failed HTTP call, where `send_prefix` introduces a send
/// failure; `None` when Miniflux answered with success.
pub open spec fn http_error(o: HttpOutcome, send_prefix: Seq<char>) -> Option<(Seq<char>, Seq<char>)> {
    match o {
        HttpOutcome::ClientFailed(t) => Some(("miniflux"@, "Failed to build HTTP client: "@ + t@)),
        HttpOutcome::SendFailed(t) => Some(("miniflux"@, send_prefix + t@)),
        HttpOutcome::Responded { status, status_text } => if 200 <= status <= 299 {
            None
        } else {
            Some(("miniflux"@, "Miniflux API returned error status: "@ + status_text@))
        },
    }
}

fn http_failure(o: &HttpOutcome, send_prefix: &str) -> (r: Option<AppError>)
    ensures
        match http_error(*o, send_prefix@) {
            Some((service, message)) => r matches Some(e) && is_external(e, service, message),
            None => r is None,
        },
{
    match o {
        HttpOutcome::ClientFailed(t) => Some(
            external("miniflux", prefixed("Failed to build HTTP client: ", t.as_str())),
        ),
        HttpOutcome::SendFailed(t) => Some(external("miniflux", prefixed(send_prefix, t.as_str()))),
        HttpOutcome::Responded { status, status_text } => {
            if is_success_status(*status) {
                None
            } else {
                Some(
                    external(
                        "miniflux",
                        prefixed("Miniflux API returned error status: ", status_text.as_str()),
                    ),
                )
            }
        },
    }
}

// ---------------------------------------------------------------------------
// Sync of unread entries
// ---------------------------------------------------------------------------

/// A request to sync one Miniflux connection of a user.
#[derive(Clone, Copy, Debug)]
pub struct MinifluxSyncJob {
    pub user_id: u128,
    pub connection_id: u128,
}

/// The document and library entry that saving an entry produced.
#[derive(Clone, Copy, Debug)]
pub struct SavedEntry {
    pub document_id: u128,
    pub library_entry_id: u128,
}

/// The type of a document saved to the library.
#[derive(Clone, Copy, Debug, PartialEq, Eq, Structural)]
pub enum DocumentType {
    Article,
}

/// Where saved content came from.
#[derive(Clone, Copy, Debug, PartialEq, Eq, Structural)]
pub enum ContentSource {
    Import,
}

/// What a saved document is traced back to.
#[derive(Clone, Copy, Debug, PartialEq, Eq, Structural)]
pub enum DocumentOriginType {
    MinifluxItem,
}

/// A request to save a URL document to a user's library.
pub struct SaveToLibraryRequest {
    pub user_id: u128,
    pub canonical_url: String,
    pub original_url: Option<String>,
    pub title: String,
    pub document_type: DocumentType,
    /// The kind of the document's origin.
    pub origin_type: DocumentOriginType,
    /// The key from which the origin id is derived, deterministically for
    /// the user and the kind of origin, so that a second save of the same
    /// item finds the first.
    pub origin_key: String,
    pub source: ContentSource,
    /// Whether the new deliveries are hidden.
    pub hide_deliveries: bool,
    /// Whether AI enrichment of an engaged document is queued.
    pub enqueue_engaged_ai: bool,
}

/// What the worker reports after performing a sync action.
pub enum SyncEvent {
    /// The sync begins.
    Started,
    /// The connection lookup finished.
    ConnectionLoaded(Result<Option<IntegrationConnection>, AppError>),
    /// The request for unread entries finished.
    EntriesRequested(HttpOutcome),
    /// The response body was decoded, or the text of the decoding error.
    EntriesParsed(Result<MinifluxResponse, String>),
    /// Saving the current entry to the library finished.
    EntrySaved(Result<SavedEntry, String>),
    /// Each requested tag name was found or created (its id), or failed.
    TagsResolved(Vec<Result<u128, String>>),
    /// Replacing the entry's tags finished.
    TagsReplaced(Result<(), String>),
    /// The entry-to-document mapping was stored (its failure is ignored).
    MappingRecorded,
    /// The user's inbox and later entries that came from Miniflux were listed.
    MappedEntriesListed(Result<Vec<MappedEntry>, String>),
    /// The archive requests were made (their failures are ignored).
    EntriesArchived,
    /// Storing the time of the sync finished.
    LastSyncRecorded(Result<(), AppError>),
}

/// What the sync asks the worker to do next.
pub enum SyncAction {
    /// Look up the connection.
    LoadConnection { user_id: u128, connection_id: u128 },
    /// `GET url` with the header `X-Auth-Token: api_key`.
    RequestUnreadEntries { url: String, api_key: String },
    /// Decode the body of the response.
    ParseEntries,
    /// Save a URL document to the user's library.
    SaveEntry(SaveToLibraryRequest),
    /// Find or create each named tag for the user.
    ResolveTags { user_id: u128, names: Vec<String> },
    /// Replace the tags of a library entry (as imported tags).
    ReplaceEntryTags { user_id: u128, library_entry_id: u128, tag_ids: Vec<u128> },
    /// Store that the document came from this Miniflux entry.
    RecordMapping { user_id: u128, document_id: u128, miniflux_id: i32 },
    /// List the user's inbox and later entries that came from Miniflux.
    ListMappedEntries { user_id: u128 },
    /// Archive these library entries.
    ArchiveEntries { user_id: u128, library_entry_ids: Vec<u128> },
    /// Store the current time as the connection's last sync.
    RecordLastSync { connection_id: u128, user_id: u128 },
    /// The sync is over, with this outcome.
    Finish(Result<(), AppError>),
}

/// Where a sync stands.
#[derive(Clone, Copy, Debug, PartialEq, Eq, Structural)]
pub enum SyncPhase {
    Ready,
    LoadingConnection,
    RequestingEntries,
    ParsingEntries,
    SavingEntry,
    ResolvingTags,
    ReplacingTags,
    RecordingMapping,
    ListingMappedEntries,
    ArchivingEntries,
    RecordingLastSync,
    Finished,
}

/// The events that a phase expects.
pub open spec fn sync_accepts(phase: SyncPhase, event: SyncEvent) -> bool {
    match phase {
        SyncPhase::Ready => event is Started,
        SyncPhase::LoadingConnection => event is ConnectionLoaded,
        SyncPhase::RequestingEntries => event is EntriesRequested,
        SyncPhase::ParsingEntries => event is EntriesParsed,
        SyncPhase::SavingEntry => event is EntrySaved,
        SyncPhase::ResolvingTags => event is TagsResolved,
        SyncPhase::ReplacingTags => event is TagsReplaced,
        SyncPhase::RecordingMapping => event is MappingRecorded,
        SyncPhase::ListingMappedEntries => event is MappedEntriesListed,
        SyncPhase::ArchivingEntries => event is EntriesArchived,
        SyncPhase::RecordingLastSync => event is LastSyncRecorded,
        SyncPhase::Finished => false,
    }
}

/// The ids of the resolved tags, in order, without the failures.
pub open spec fn resolved_ids(results: Seq<Result<u128, String>>) -> Seq<u128>
    decreases results.len(),
{
    if results.len() == 0 {
        Seq::empty()
    } else {
        match results.last() {
            Ok(id) => resolved_ids(results.drop_last()).push(id),
            Err(_) => resolved_ids(results.drop_last()),
        }
    }
}

fn resolved_tag_ids(results: &Vec<Result<u128, String>>) -> (r: Vec<u128>)
    ensures
        r@ == resolved_ids(results@),
{
    let mut out: Vec<u128> = Vec::new();
    let mut i: usize = 0;
    while i < results.len()
        invariant
            i <= results.len(),
            out@ == resolved_ids(results@.take(i as int)),
        decreases results.len() - i,
    {
        assert(results@.take(i + 1).drop_last() =~= results@.take(i as int));
        match &results[i] {
            Ok(id) => out.push(*id),
            Err(_) => {},
        }
        i = i + 1;
    }
    assert(results@.take(results.len() as int) =~= results@);
    out
}

/// The sync of one Miniflux connection: fetch the unread entries, save each
/// to the library with its tags, archive the library entries whose Miniflux
/// entry is no longer unread, and record the time of the sync.
pub struct MinifluxSync {
    job: MinifluxSyncJob,
    phase: SyncPhase,
    entries: Vec<MinifluxEntry>,
    next: usize,
    saved: Option<SavedEntry>,
}

impl MinifluxSync {
    /// The job that this sync serves.
    pub closed spec fn job(&self) -> MinifluxSyncJob {
        self.job
    }

    /// Where the sync stands.
    pub closed spec fn phase(&self) -> SyncPhase {
        self.phase
    }

    /// The unread entries that Miniflux listed (empty before they arrive).
    pub closed spec fn entries(&self) -> Seq<MinifluxEntry> {
        self.entries@
    }

    /// The position of the entry being saved: entries before it are done.
    pub closed spec fn next(&self) -> int {
        self.next as int
    }

    /// The library entry of the entry being saved, once saved.
    pub closed spec fn saved(&self) -> Option<SavedEntry> {
        self.saved
    }

    /// The sync's internal consistency.
    pub closed spec fn wf(&self) -> bool {
        &&& self.next <= self.entries@.len()
        &&& (self.phase == SyncPhase::SavingEntry || self.phase == SyncPhase::ResolvingTags
            || self.phase == SyncPhase::ReplacingTags || self.phase == SyncPhase::RecordingMapping)
            ==> self.next < self.entries@.len()
        &&& (self.phase == SyncPhase::ResolvingTags || self.phase == SyncPhase::ReplacingTags
            || self.phase == SyncPhase::RecordingMapping) ==> self.saved is Some
    }

    /// A sync that has not started yet.
    pub fn new(job: MinifluxSyncJob) -> (s: Self)
        ensures
            s.wf(),
            s.job() == job,
            s.phase() == SyncPhase::Ready,
            s.entries().len() == 0,
    {
        MinifluxSync { job, phase: SyncPhase::Ready, entries: Vec::new(), next: 0, saved: None }
    }

    /// Whether the sync expects `event` now.
    pub fn accepts(&self, event: &SyncEvent) -> (b: bool)
        ensures
            b == sync_accepts(self.phase(), *event),
    {
        match self.phase {
            SyncPhase::Ready => matches!(event, SyncEvent::Started),
            SyncPhase::LoadingConnection => matches!(event, SyncEvent::ConnectionLoaded(..)),
            SyncPhase::RequestingEntries => matches!(event, SyncEvent::EntriesRequested(..)),
            SyncPhase::ParsingEntries => matches!(event, SyncEvent::EntriesParsed(..)),
            SyncPhase::SavingEntry => matches!(event, SyncEvent::EntrySaved(..)),
            SyncPhase::ResolvingTags => matches!(event, SyncEvent::TagsResolved(..)),
            SyncPhase::ReplacingTags => matches!(event, SyncEvent::TagsReplaced(..)),
            SyncPhase::RecordingMapping => matches!(event, SyncEvent::MappingRecorded),
            SyncPhase::ListingMappedEntries => matches!(event, SyncEvent::MappedEntriesListed(..)),
            SyncPhase::ArchivingEntries => matches!(event, SyncEvent::EntriesArchived),
            SyncPhase::RecordingLastSync => matches!(event, SyncEvent::LastSyncRecorded(..)),
            SyncPhase::Finished => false,
        }
    }

    fn finish(&mut self, outcome: Result<(), AppError>) -> (a: SyncAction)
        requires
            old(self).wf(),
        ensures
            final(self).wf(),
            final(self).phase() == SyncPhase::Finished,
            final(self).job() == old(self).job(),
            final(self).entries() == old(self).entries(),
            a == SyncAction::Finish(outcome),
    {
        self.phase = SyncPhase::Finished;
        SyncAction::Finish(outcome)
    }

    /// Offers the next unsaved entry for saving, or lists the mapped library
    /// entries once all are done.
    fn advance(&mut self) -> (a: SyncAction)
        requires
            old(self).wf(),
        ensures
            final(self).wf(),
            final(self).job() == old(self).job(),
            final(self).entries() == old(self).entries(),
            final(self).next() == old(self).next(),
            offers_next(final(self).job(), *final(self), a),
    {
        if self.next < self.entries.len() {
            let e = &self.entries[self.next];
            let a = SyncAction::SaveEntry(
                SaveToLibraryRequest {
                    user_id: self.job.user_id,
                    canonical_url: e.url.clone(),
                    original_url: Some(e.url.clone()),
                    title: e.title.clone(),
                    document_type: DocumentType::Article,
                    origin_type: DocumentOriginType::MinifluxItem,
                    origin_key: entry_origin_key(e.id),
                    source: ContentSource::Import,
                    hide_deliveries: false,
                    enqueue_engaged_ai: true,
                },
            );
            self.phase = SyncPhase::SavingEntry;
            self.saved = None;
            a
        } else {
            self.phase = SyncPhase::ListingMappedEntries;
            SyncAction::ListMappedEntries { user_id: self.job.user_id }
        }
    }

    /// Moves past the current entry.
    fn entry_done(&mut self) -> (a: SyncAction)
        requires
            old(self).wf(),
            old(self).next() < old(self).entries().len(),
        ensures
            final(self).wf(),
            final(self).job() == old(self).job(),
            final(self).entries() == old(self).entries(),
            final(self).next() == old(self).next() + 1,
            offers_next(final(self).job(), *final(self), a),
    {
        assert(self.next < self.entries.len());
        self.next = self.next + 1;
        self.saved = None;
        self.phase = SyncPhase::Ready;
        self.advance()
    }

    /// Asks to record the mapping of the current entry.
    fn record_mapping(&mut self) -> (a: SyncAction)
        requires
            old(self).wf(),
            old(self).next() < old(self).entries().len(),
            old(self).saved() is Some,
        ensures
            final(self).wf(),
            final(self).job() == old(self).job(),
            final(self).entries() == old(self).entries(),
            final(self).next() == old(self).next(),
            final(self).saved() == old(self).saved(),
            records_mapping(final(self).job(), *final(self), a),
    {
        let saved = match self.saved {
            Some(s) => s,
            None => SavedEntry { document_id: 0, library_entry_id: 0 },
        };
        self.phase = SyncPhase::RecordingMapping;
        SyncAction::RecordMapping {
            user_id: self.job.user_id,
            document_id: saved.document_id,
            miniflux_id: self.entries[self.next].id,
        }
    }

    /// Takes the outcome of the last action and decides the next one.
    pub fn step(&mut self, event: SyncEvent) -> (a: SyncAction)
        requires
            old(self).wf(),
            sync_accepts(old(self).phase(), event),
        ensures
            final(self).wf(),
            final(self).job() == old(self).job(),
            sync_transition(*old(self), event, *final(self), a),
    {
        match event {
            SyncEvent::Started => {
                self.phase = SyncPhase::LoadingConnection;
                SyncAction::LoadConnection {
                    user_id: self.job.user_id,
                    connection_id: self.job.connection_id,
                }
            },
            SyncEvent::ConnectionLoaded(r) => self.on_connection(r),
            SyncEvent::EntriesRequested(o) => {
                match http_failure(&o, "Failed to fetch Miniflux entries: ") {
                    Some(e) => self.finish(Err(e)),
                    None => {
                        self.phase = SyncPhase::ParsingEntries;
                        SyncAction::ParseEntries
                    },
                }
            },
            SyncEvent::EntriesParsed(r) => match r {
                Err(t) => {
                    let e = external(
                        "miniflux",
                        prefixed("Failed to parse Miniflux response: ", t.as_str()),
                    );
                    self.finish(Err(e))
                },
                Ok(resp) => {
                    self.entries = resp.entries;
                    self.next = 0;
                    self.saved = None;
                    self.phase = SyncPhase::Ready;
                    self.advance()
                },
            },
            SyncEvent::EntrySaved(r) => match r {
                Err(_) => self.entry_done(),
                Ok(saved) => {
                    self.saved = Some(saved);
                    let names = entry_tag_names(&self.entries[self.next]);
                    if names.len() == 0 {
                        proof {
                            assert(names@.map_values(|s: String| s@).to_set() =~= Set::empty());
                        }
                        self.record_mapping()
                    } else {
                        proof {
                            let v = names@.map_values(|s: String| s@);
                            assert(v.to_set().contains(v[0]));
                            vstd::seq_lib::seq_to_set_is_finite(v);
                            vstd::set_lib::lemma_set_empty_equivalency_len(v.to_set());
                            assert(v.to_set().len() > 0);
                        }
                        self.phase = SyncPhase::ResolvingTags;
                        SyncAction::ResolveTags { user_id: self.job.user_id, names }
                    }
                },
            },
            SyncEvent::TagsResolved(results) => {
                let ids = resolved_tag_ids(&results);
                if ids.len() == 0 {
                    self.record_mapping()
                } else {
                    let saved = match self.saved {
                        Some(s) => s,
                        None => SavedEntry { document_id: 0, library_entry_id: 0 },
                    };
                    self.phase = SyncPhase::ReplacingTags;
                    SyncAction::ReplaceEntryTags {
                        user_id: self.job.user_id,
                        library_entry_id: saved.library_entry_id,
                        tag_ids: ids,
                    }
                }
            },
            SyncEvent::TagsReplaced(_) => self.record_mapping(),
            SyncEvent::MappingRecorded => self.entry_done(),
            SyncEvent::MappedEntriesListed(r) => {
                let rows = match r {
                    Ok(rows) => rows,
                    Err(_) => Vec::new(),
                };
                let stale = stale_library_entries(&rows, &self.entries);
                if stale.len() == 0 {
                    self.phase = SyncPhase::RecordingLastSync;
                    SyncAction::RecordLastSync {
                        connection_id: self.job.connection_id,
                        user_id: self.job.user_id,
                    }
                } else {
                    self.phase = SyncPhase::ArchivingEntries;
                    SyncAction::ArchiveEntries { user_id: self.job.user_id, library_entry_ids: stale }
                }
            },
            SyncEvent::EntriesArchived => {
                self.phase = SyncPhase::RecordingLastSync;
                SyncAction::RecordLastSync {
                    connection_id: self.job.connection_id,
                    user_id: self.job.user_id,
                }
            },
            SyncEvent::LastSyncRecorded(r) => self.finish(r),
        }
    }

    fn on_connection(&mut self, r: Result<Option<IntegrationConnection>, AppError>) -> (a: SyncAction)
        requires
            old(self).wf(),
        ensures
            final(self).wf(),
            final(self).job() == old(self).job(),
            sync_after_connection(old(self).job(), r, final(self).phase(), a),
    {
        match r {
            Err(e) => self.finish(Err(e)),
            Ok(None) => {
                let e = not_found("IntegrationConnection", uuid_string(self.job.connection_id));
                self.finish(Err(e))
            },
            Ok(Some(c)) => {
                if c.provider != IntegrationProvider::Miniflux {
                    return self.finish(Err(validation("provider", "Expected Miniflux provider")));
                }
                match check_endpoint(&c.config) {
                    EndpointCheck::Missing => self.finish(
                        Err(validation("config", "Missing Miniflux URL or API key")),
                    ),
                    EndpointCheck::BadScheme => self.finish(
                        Err(validation("url", "Miniflux URL must start with http:// or https://")),
                    ),
                    EndpointCheck::Ready { url, api_key } => {
                        self.phase = SyncPhase::RequestingEntries;
                        SyncAction::RequestUnreadEntries {
                            url: unread_entries_request_url(url.as_str()),
                            api_key,
                        }
                    },
                }
            },
        }
    }
}

/// The save of a Miniflux entry for the job's user: a URL document at the
/// entry's URL with its title, an article imported from a Miniflux item
/// whose origin key names the entry, its deliveries shown and its AI
/// enrichment queued.
pub open spec fn saves_entry(job: MinifluxSyncJob, e: MinifluxEntry, req: SaveToLibraryRequest) -> bool {
    &&& req.user_id == job.user_id
    &&& req.canonical_url@ == e.url@
    &&& req.original_url matches Some(o) && o@ == e.url@
    &&& req.title@ == e.title@
    &&& req.document_type == DocumentType::Article
    &&& req.origin_type == DocumentOriginType::MinifluxItem
    &&& req.origin_key@ == origin_key(e.id)
    &&& req.source == ContentSource::Import
    &&& !req.hide_deliveries
    &&& req.enqueue_engaged_ai
}

/// The sync offers the entry at `next()` for saving, or, with every entry
/// done, asks for the mapped library entries.
pub open spec fn offers_next(job: MinifluxSyncJob, post: MinifluxSync, a: SyncAction) -> bool {
    if post.next() < post.entries().len() {
        let e = post.entries()[post.next()];
        &&& post.phase() == SyncPhase::SavingEntry
        &&& a matches SyncAction::SaveEntry(req)
        &&& saves_entry(job, e, req)
    } else {
        &&& post.next() == post.entries().len()
        &&& post.phase() == SyncPhase::ListingMappedEntries
        &&& a == SyncAction::ListMappedEntries { user_id: job.user_id }
    }
}

/// The sync asks to record that the saved document came from the current entry.
pub open spec fn records_mapping(job: MinifluxSyncJob, post: MinifluxSync, a: SyncAction) -> bool {
    &&& post.phase() == SyncPhase::RecordingMapping
    &&& post.saved() is Some
    &&& a == SyncAction::RecordMapping {
        user_id: job.user_id,
        document_id: post.saved()->0.document_id,
        miniflux_id: post.entries()[post.next()].id,
    }
}

/// What the sync does once the current entry is saved: resolve its tag
/// names, or, with none, record its mapping.
pub open spec fn sync_after_save(pre: MinifluxSync, saved: SavedEntry, post: MinifluxSync, a: SyncAction) -> bool {
    let names = kept_names(offered_names(pre.entries()[pre.next()]));
    &&& post.entries() == pre.entries()
    &&& post.next() == pre.next()
    &&& post.saved() == Some(saved)
    &&& names.len() == 0 ==> records_mapping(pre.job(), post, a)
    &&& names.len() > 0 ==> {
        &&& post.phase() == SyncPhase::ResolvingTags
        &&& a matches SyncAction::ResolveTags { user_id, names: ns }
        &&& user_id == pre.job().user_id
        &&& strictly_sorted(ns@.map_values(|s: String| s@))
        &&& ns@.map_values(|s: String| s@).to_set() == names
    }
}

/// What the sync does with the resolved tags: replace the saved entry's tags
/// with the ids that resolved, or, with none, record its mapping.
pub open spec fn sync_after_tags(pre: MinifluxSync, results: Seq<Result<u128, String>>, post: MinifluxSync, a: SyncAction) -> bool {
    let ids = resolved_ids(results);
    &&& post.entries() == pre.entries()
    &&& post.next() == pre.next()
    &&& post.saved() == pre.saved()
    &&& ids.len() == 0 ==> records_mapping(pre.job(), post, a)
    &&& ids.len() > 0 ==> {
        &&& post.phase() == SyncPhase::ReplacingTags
        &&& a matches SyncAction::ReplaceEntryTags { user_id, library_entry_id, tag_ids }
        &&& user_id == pre.job().user_id
        &&& library_entry_id == pre.saved()->0.library_entry_id
        &&& tag_ids@ == ids
    }
}

/// What the sync does with the mapped library entries: archive those whose
/// Miniflux entry is no longer unread (a failed listing counts as none),
/// then record the time of the sync.
pub open spec fn sync_after_listing(pre: MinifluxSync, r: Result<Vec<MappedEntry>, String>, post: MinifluxSync, a: SyncAction) -> bool {
    let rows = match r {
        Ok(rows) => rows@,
        Err(_) => Seq::<MappedEntry>::empty(),
    };
    let stale = stale_entries(rows, pre.entries());
    if stale.len() == 0 {
        post.phase() == SyncPhase::RecordingLastSync && a == SyncAction::RecordLastSync {
            connection_id: pre.job().connection_id,
            user_id: pre.job().user_id,
        }
    } else {
        &&& post.phase() == SyncPhase::ArchivingEntries
        &&& a matches SyncAction::ArchiveEntries { user_id, library_entry_ids }
        &&& user_id == pre.job().user_id
        &&& library_entry_ids@ == stale
    }
}

/// What one step of a sync does: the decision that each event leads to.
pub open spec fn sync_transition(pre: MinifluxSync, event: SyncEvent, post: MinifluxSync, a: SyncAction) -> bool {
    match event {
        SyncEvent::Started => post.phase() == SyncPhase::LoadingConnection && a
            == SyncAction::LoadConnection {
            user_id: pre.job().user_id,
            connection_id: pre.job().connection_id,
        },
        SyncEvent::ConnectionLoaded(r) => sync_after_connection(pre.job(), r, post.phase(), a),
        SyncEvent::EntriesRequested(o) => match http_error(o, "Failed to fetch Miniflux entries: "@) {
            Some((service, message)) => {
                &&& post.phase() == SyncPhase::Finished
                &&& a matches SyncAction::Finish(Err(e)) && is_external(e, service, message)
            },
            None => post.phase() == SyncPhase::ParsingEntries && a is ParseEntries,
        },
        SyncEvent::EntriesParsed(r) => match r {
            Err(t) => {
                &&& post.phase() == SyncPhase::Finished
                &&& a matches SyncAction::Finish(Err(e)) && is_external(
                    e,
                    "miniflux"@,
                    "Failed to parse Miniflux response: "@ + t@,
                )
            },
            Ok(resp) => post.entries() == resp.entries@ && post.next() == 0 && offers_next(
                pre.job(),
                post,
                a,
            ),
        },
        SyncEvent::EntrySaved(r) => match r {
            Err(_) => post.entries() == pre.entries() && post.next() == pre.next() + 1
                && offers_next(pre.job(), post, a),
            Ok(saved) => sync_after_save(pre, saved, post, a),
        },
        SyncEvent::TagsResolved(results) => sync_after_tags(pre, results@, post, a),
        SyncEvent::TagsReplaced(_) => post.entries() == pre.entries() && post.next() == pre.next()
            && records_mapping(pre.job(), post, a),
        SyncEvent::MappingRecorded => post.entries() == pre.entries() && post.next() == pre.next()
            + 1 && offers_next(pre.job(), post, a),
        SyncEvent::MappedEntriesListed(r) => sync_after_listing(pre, r, post, a),
        SyncEvent::EntriesArchived => post.phase() == SyncPhase::RecordingLastSync && a
            == SyncAction::RecordLastSync {
            connection_id: pre.job().connection_id,
            user_id: pre.job().user_id,
        },
        SyncEvent::LastSyncRecorded(r) => post.phase() == SyncPhase::Finished && a
            == SyncAction::Finish(r),
    }
}

/// What the sync does once the connection lookup is over: fail with the
/// lookup's error, with `NotFound` for a missing connection, with a
/// validation error for a connection of another provider or with unusable
/// settings; otherwise request the unread entries from the configured URL.
pub open spec fn sync_after_connection(
    job: MinifluxSyncJob,
    r: Result<Option<IntegrationConnection>, AppError>,
    phase: SyncPhase,
    a: SyncAction,
) -> bool {
    match r {
        Err(e) => phase == SyncPhase::Finished && a == SyncAction::Finish(Err(e)),
        Ok(None) => {
            &&& phase == SyncPhase::Finished
            &&& a matches SyncAction::Finish(Err(e)) && is_not_found(
                e,
                "IntegrationConnection"@,
                uuid_text(job.connection_id),
            )
        },
        Ok(Some(c)) => {
            let url = config_text(c.config, "url"@);
            let key = config_text(c.config, "api_key"@);
            if c.provider != IntegrationProvider::Miniflux {
                &&& phase == SyncPhase::Finished
                &&& a matches SyncAction::Finish(Err(e)) && is_validation(e, "provider"@, "Expected Miniflux provider"@)
            } else if url.len() == 0 || key.len() == 0 {
                &&& phase == SyncPhase::Finished
                &&& a matches SyncAction::Finish(Err(e)) && is_validation(e, "config"@, "Missing Miniflux URL or API key"@)
            } else if !has_http_scheme(url) {
                &&& phase == SyncPhase::Finished
                &&& a matches SyncAction::Finish(Err(e)) && is_validation(e, "url"@, "Miniflux URL must start with http:// or https://"@)
            } else {
                &&& phase == SyncPhase::RequestingEntries
                &&& a matches SyncAction::RequestUnreadEntries { url: u, api_key: k } && u@
                    == unread_entries_url(url) && k@ == key
            }
        },
    }
}

// ---------------------------------------------------------------------------
// Push of a read state
// ---------------------------------------------------------------------------

/// A request to mark the Miniflux entry of a read document as read.
#[derive(Clone, Copy, Debug)]
pub struct PushReadStateJob {
    pub user_id: u128,
    pub document_id: u128,
}

/// What the worker reports after performing a push action.
pub enum PushEvent {
    /// The push begins.
    Started,
    /// The Miniflux entry of the document was looked up; the text of a store error.
    MappingFound(Result<Option<i32>, String>),
    /// The user's connections were listed.
    ConnectionsListed(Result<Vec<IntegrationConnection>, AppError>),
    /// The status update was sent.
    ReadStateSent(HttpOutcome),
}

/// What the push asks the worker to do next.
pub enum PushAction {
    /// Look up the Miniflux entry that the document came from.
    LookUpMapping { user_id: u128, document_id: u128 },
    /// List the user's connections.
    ListConnections { user_id: u128 },
    /// `PUT url` with the header `X-Auth-Token: api_key` and the body
    /// `{"entry_ids": [miniflux_id], "status": "read"}`.
    SendReadState { url: String, api_key: String, miniflux_id: i32 },
    /// The push is over, with this outcome.
    Finish(Result<(), AppError>),
}

/// Where a push stands.
#[derive(Clone, Copy, Debug, PartialEq, Eq, Structural)]
pub enum PushPhase {
    Ready,
    LookingUpMapping,
    ListingConnections,
    SendingReadState,
    Finished,
}

/// The events that a phase expects.
pub open spec fn push_accepts(phase: PushPhase, event: PushEvent) -> bool {
    match phase {
        PushPhase::Ready => event is Started,
        PushPhase::LookingUpMapping => event is MappingFound,
        PushPhase::ListingConnections => event is ConnectionsListed,
        PushPhase::SendingReadState => event is ReadStateSent,
        PushPhase::Finished => false,
    }
}

/// The position of the first Miniflux connection.
pub open spec fn first_miniflux(conns: Seq<IntegrationConnection>) -> Option<int>
    decreases conns.len(),
{
    if conns.len() == 0 {
        None
    } else if conns[0].provider == IntegrationProvider::Miniflux {
        Some(0)
    } else {
        match first_miniflux(conns.drop_first()) {
            Some(i) => Some(i + 1),
            None => None,
        }
    }
}

fn first_miniflux_index(conns: &Vec<IntegrationConnection>) -> (r: Option<usize>)
    ensures
        r matches Some(i) ==> first_miniflux(conns@) == Some(i as int) && i < conns@.len(),
        r is None ==> first_miniflux(conns@) is None,
{
    let mut i: usize = 0;
    while i < conns.len()
        invariant
            i <= conns.len(),
            forall|j: int| 0 <= j < i ==> (#[trigger] conns@[j]).provider != IntegrationProvider::Miniflux,
        decreases conns.len() - i,
    {
        if conns[i].provider == IntegrationProvider::Miniflux {
            proof {
                lemma_first_miniflux(conns@, i as int);
            }
            return Some(i);
        }
        i = i + 1;
    }
    proof {
        lemma_first_miniflux(conns@, conns@.len() as int);
    }
    None
}

proof fn lemma_first_miniflux(conns: Seq<IntegrationConnection>, i: int)
    requires
        0 <= i <= conns.len(),
        forall|j: int| 0 <= j < i ==> (#[trigger] conns[j]).provider != IntegrationProvider::Miniflux,
    ensures
        i < conns.len() && conns[i].provider == IntegrationProvider::Miniflux ==> first_miniflux(conns) == Some(i),
        i == conns.len() ==> first_miniflux(conns) is None,
    decreases i,
{
    if i > 0 {
        assert forall|j: int| 0 <= j < i - 1 implies (#[trigger] conns.drop_first()[j]).provider
            != IntegrationProvider::Miniflux by {
            assert(conns.drop_first()[j] == conns[j + 1]);
        }
        lemma_first_miniflux(conns.drop_first(), i - 1);
    }
}

/// The push of a read state to Miniflux: find the document's Miniflux entry
/// and the user's Miniflux connection, then mark the entry read.
pub struct MinifluxPush {
    job: PushReadStateJob,
    phase: PushPhase,
    miniflux_id: i32,
}

impl MinifluxPush {
    /// The job that this push serves.
    pub closed spec fn job(&self) -> PushReadStateJob {
        self.job
    }

    /// Where the push stands.
    pub closed spec fn phase(&self) -> PushPhase {
        self.phase
    }

    /// The Miniflux entry of the document, once found.
    pub closed spec fn miniflux_id(&self) -> i32 {
        self.miniflux_id
    }

    /// A push that has not started yet.
    pub fn new(job: PushReadStateJob) -> (p: Self)
        ensures
            p.job() == job,
            p.phase() == PushPhase::Ready,
    {
        MinifluxPush { job, phase: PushPhase::Ready, miniflux_id: 0 }
    }

    /// Whether the push expects `event` now.
    pub fn accepts(&self, event: &PushEvent) -> (b: bool)
        ensures
            b == push_accepts(self.phase(), *event),
    {
        match self.phase {
            PushPhase::Ready => matches!(event, PushEvent::Started),
            PushPhase::LookingUpMapping => matches!(event, PushEvent::MappingFound(..)),
            PushPhase::ListingConnections => matches!(event, PushEvent::ConnectionsListed(..)),
            PushPhase::SendingReadState => matches!(event, PushEvent::ReadStateSent(..)),
            PushPhase::Finished => false,
        }
    }

    /// Takes the outcome of the last action and decides the next one.
    pub fn step(&mut self, event: PushEvent) -> (a: PushAction)
        requires
            push_accepts(old(self).phase(), event),
        ensures
            final(self).job() == old(self).job(),
            push_transition(*old(self), event, *final(self), a),
    {
        match event {
            PushEvent::Started => {
                self.phase = PushPhase::LookingUpMapping;
                PushAction::LookUpMapping {
                    user_id: self.job.user_id,
                    document_id: self.job.document_id,
                }
            },
            PushEvent::MappingFound(r) => match r {
                Err(t) => {
                    self.phase = PushPhase::Finished;
                    PushAction::Finish(Err(AppError::Repository(t)))
                },
                Ok(None) => {
                    self.phase = PushPhase::Finished;
                    PushAction::Finish(Ok(()))
                },
                Ok(Some(id)) => {
                    self.miniflux_id = id;
                    self.phase = PushPhase::ListingConnections;
                    PushAction::ListConnections { user_id: self.job.user_id }
                },
            },
            PushEvent::ConnectionsListed(r) => match r {
                Err(e) => {
                    self.phase = PushPhase::Finished;
                    PushAction::Finish(Err(e))
                },
                Ok(conns) => match first_miniflux_index(&conns) {
                    None => {
                        self.phase = PushPhase::Finished;
                        PushAction::Finish(Ok(()))
                    },
                    Some(k) => match check_endpoint(&conns[k].config) {
                        EndpointCheck::Missing => {
                            self.phase = PushPhase::Finished;
                            PushAction::Finish(Ok(()))
                        },
                        EndpointCheck::BadScheme => {
                            self.phase = PushPhase::Finished;
                            PushAction::Finish(
                                Err(
                                    validation(
                                        "url",
                                        "Miniflux URL must start with http:// or https://",
                                    ),
                                ),
                            )
                        },
                        EndpointCheck::Ready { url, api_key } => {
                            self.phase = PushPhase::SendingReadState;
                            PushAction::SendReadState {
                                url: entries_request_url(url.as_str()),
                                api_key,
                                miniflux_id: self.miniflux_id,
                            }
                        },
                    },
                },
            },
            PushEvent::ReadStateSent(o) => {
                self.phase = PushPhase::Finished;
                match http_failure(&o, "Failed to update Miniflux read state: ") {
                    Some(e) => PushAction::Finish(Err(e)),
                    None => PushAction::Finish(Ok(())),
                }
            },
        }
    }
}

/// What the push does with the user's connections: nothing without a
/// Miniflux connection or with one whose URL or API key is missing; a
/// validation error for a non-HTTP(S) URL; otherwise the status update.
pub open spec fn push_after_listing(pre: MinifluxPush, conns: Seq<IntegrationConnection>, post: MinifluxPush, a: PushAction) -> bool {
    match first_miniflux(conns) {
        None => post.phase() == PushPhase::Finished && a == PushAction::Finish(Ok(())),
        Some(k) => {
            let url = config_text(conns[k].config, "url"@);
            let key = config_text(conns[k].config, "api_key"@);
            if url.len() == 0 || key.len() == 0 {
                post.phase() == PushPhase::Finished && a == PushAction::Finish(Ok(()))
            } else if !has_http_scheme(url) {
                &&& post.phase() == PushPhase::Finished
                &&& a matches PushAction::Finish(Err(e)) && is_validation(
                    e,
                    "url"@,
                    "Miniflux URL must start with http:// or https://"@,
                )
            } else {
                &&& post.phase() == PushPhase::SendingReadState
                &&& a matches PushAction::SendReadState { url: u, api_key: k2, miniflux_id }
                &&& u@ == entries_url(url)
                &&& k2@ == key
                &&& miniflux_id == pre.miniflux_id()
            }
        },
    }
}

/// What one step of a push does: the decision that each event leads to.
pub open spec fn push_transition(pre: MinifluxPush, event: PushEvent, post: MinifluxPush, a: PushAction) -> bool {
    match event {
        PushEvent::Started => post.phase() == PushPhase::LookingUpMapping && a
            == PushAction::LookUpMapping {
            user_id: pre.job().user_id,
            document_id: pre.job().document_id,
        },
        PushEvent::MappingFound(r) => match r {
            Err(t) => {
                &&& post.phase() == PushPhase::Finished
                &&& a matches PushAction::Finish(Err(AppError::Repository(m))) && m@ == t@
            },
            Ok(None) => post.phase() == PushPhase::Finished && a == PushAction::Finish(Ok(())),
            Ok(Some(id)) => post.phase() == PushPhase::ListingConnections && post.miniflux_id()
                == id && a == PushAction::ListConnections { user_id: pre.job().user_id },
        },
        PushEvent::ConnectionsListed(r) => match r {
            Err(e) => post.phase() == PushPhase::Finished && a == PushAction::Finish(Err(e)),
            Ok(conns) => push_after_listing(pre, conns@, post, a),
        },
        PushEvent::ReadStateSent(o) => post.phase() == PushPhase::Finished && match http_error(
            o,
            "Failed to update Miniflux read state: "@,
        ) {
            Some((service, message)) => a matches PushAction::Finish(Err(e)) && is_external(
                e,
                service,
                message,
            ),
            None => a == PushAction::Finish(Ok(())),
        },
    }
}

/// A Miniflux connection with a URL and a non-empty API key is synced
/// exactly when the URL starts with `http://` or `https://` (plain HTTP
/// included): then the unread entries are requested from the URL less its
/// trailing `/` characters followed by `/v1/entries?status=unread&limit=10000`,
/// with that key; otherwise the sync fails on the `url` field.
pub proof fn lemma_sync_accepts_http_and_https(
    job: MinifluxSyncJob,
    c: IntegrationConnection,
    phase: SyncPhase,
    a: SyncAction,
    url: Seq<char>,
    key: Seq<char>,
)
    requires
        c.provider == IntegrationProvider::Miniflux,
        crate::domain::string_member(c.config, "url"@) == Some(url),
        crate::domain::string_member(c.config, "api_key"@) == Some(key),
        url.len() > 0,
        key.len() > 0,
        sync_after_connection(job, Ok(Some(c)), phase, a),
    ensures
        (has_prefix(url, "http://"@) || has_prefix(url, "https://"@)) ==> {
            &&& phase == SyncPhase::RequestingEntries
            &&& a matches SyncAction::RequestUnreadEntries { url: u, api_key: k }
            &&& u@ == trim_end_char(url, '/') + "/v1/entries?status=unread&limit=10000"@
            &&& k@ == key
        },
        !(has_prefix(url, "http://"@) || has_prefix(url, "https://"@)) ==> {
            &&& phase == SyncPhase::Finished
            &&& a matches SyncAction::Finish(Err(e))
            &&& is_validation(e, "url"@, "Miniflux URL must start with http:// or https://"@)
        },
{
}

/// The read-state push to the user's first Miniflux connection, with a URL
/// and a non-empty API key, is sent exactly when the URL starts with
/// `http://` or `https://`: then to the URL less its trailing `/`
/// characters followed by `/v1/entries`, with that key and the document's
/// Miniflux entry; otherwise the push fails on the `url` field.
pub proof fn lemma_push_accepts_http_and_https(
    pre: MinifluxPush,
    conns: Seq<IntegrationConnection>,
    post: MinifluxPush,
    a: PushAction,
    k: int,
    url: Seq<char>,
    key: Seq<char>,
)
    requires
        first_miniflux(conns) == Some(k),
        crate::domain::string_member(conns[k].config, "url"@) == Some(url),
        crate::domain::string_member(conns[k].config, "api_key"@) == Some(key),
        url.len() > 0,
        key.len() > 0,
        push_after_listing(pre, conns, post, a),
    ensures
        (has_prefix(url, "http://"@) || has_prefix(url, "https://"@)) ==> {
            &&& post.phase() == PushPhase::SendingReadState
            &&& a matches PushAction::SendReadState { url: u, api_key: k2, miniflux_id }
            &&& u@ == trim_end_char(url, '/') + "/v1/entries"@
            &&& k2@ == key
            &&& miniflux_id == pre.miniflux_id()
        },
        !(has_prefix(url, "http://"@) || has_prefix(url, "https://"@)) ==> {
            &&& post.phase() == PushPhase::Finished
            &&& a matches PushAction::Finish(Err(e))
            &&& is_validation(e, "url"@, "Miniflux URL must start with http:// or https://"@)
        },
{
}

/// A Miniflux connection whose settings hold a non-empty HTTP(S) URL and a
/// non-empty API key (as `setup_miniflux_connection` stores them) is synced
/// against that URL with that key.
pub proof fn lemma_sync_uses_the_connection_settings(
    job: MinifluxSyncJob,
    c: IntegrationConnection,
    phase: SyncPhase,
    a: SyncAction,
    url: Seq<char>,
    key: Seq<char>,
)
    requires
        c.provider == IntegrationProvider::Miniflux,
        crate::domain::string_member(c.config, "url"@) == Some(url),
        crate::domain::string_member(c.config, "api_key"@) == Some(key),
        url.len() > 0,
        key.len() > 0,
        has_http_scheme(url),
        sync_after_connection(job, Ok(Some(c)), phase, a),
    ensures
        phase == SyncPhase::RequestingEntries,
        a matches SyncAction::RequestUnreadEntries { url: u, api_key: k } && u@ == unread_entries_url(
            url,
        ) && k@ == key,
{
}

} // verus!
