//! Integration records and their enumerations.
//!
//! Identifiers are UUIDs held as their 128-bit value; instants are
//! milliseconds since the Unix epoch.
use vstd::prelude::*;

use crate::text::{chars_eq, chars_of};

verus! {

/// A service that a user can connect to their library.
#[derive(Clone, Copy, Debug, PartialEq, Eq, Structural, Hash)]
pub enum IntegrationProvider {
    Logseq,
    BrowserExtension,
    EmailIngest,
    Miniflux,
    Custom,
}

/// A provider connected through an OAuth grant.
#[derive(Clone, Copy, Debug, PartialEq, Eq, Structural, Hash)]
pub enum IntegrationOAuthProvider {
    Custom,
}

impl IntegrationOAuthProvider {
    /// The lowercase identifier of the provider.
    pub fn as_str(self) -> (s: &'static str)
        ensures
            s@ == oauth_provider_text(self),
    {
        match self {
            Self::Custom => "custom",
        }
    }
}

pub open spec fn oauth_provider_text(p: IntegrationOAuthProvider) -> Seq<char> {
    match p {
        IntegrationOAuthProvider::Custom => "custom"@,
    }
}

/// How an import reaches the library.
#[derive(Clone, Copy, Debug, PartialEq, Eq, Structural, Hash)]
pub enum ImportMethod {
    Oauth,
    Csv,
    Zip,
}

impl ImportMethod {
    /// The lowercase identifier of the method.
    pub fn as_str(self) -> (s: &'static str)
        ensures
            s@ == import_method_text(self),
    {
        match self {
            Self::Oauth => "oauth",
            Self::Csv => "csv",
            Self::Zip => "zip",
        }
    }
}

pub open spec fn import_method_text(m: ImportMethod) -> Seq<char> {
    match m {
        ImportMethod::Oauth => "oauth"@,
        ImportMethod::Csv => "csv"@,
        ImportMethod::Zip => "zip"@,
    }
}

/// The lifecycle state of an import job.
#[derive(Clone, Copy, Debug, PartialEq, Eq, Structural, Hash)]
pub enum ImportJobStatus {
    AwaitingProvider,
    Pending,
    Running,
    Completed,
    Failed,
    Partial,
    RolledBack,
}

impl ImportJobStatus {
    /// The snake_case identifier of the status.
    pub fn as_str(self) -> (s: &'static str)
        ensures
            s@ == import_job_status_text(self),
    {
        match self {
            Self::AwaitingProvider => "awaiting_provider",
            Self::Pending => "pending",
            Self::Running => "running",
            Self::Completed => "completed",
            Self::Failed => "failed",
            Self::Partial => "partial",
            Self::RolledBack => "rolled_back",
        }
    }
}

pub open spec fn import_job_status_text(s: ImportJobStatus) -> Seq<char> {
    match s {
        ImportJobStatus::AwaitingProvider => "awaiting_provider"@,
        ImportJobStatus::Pending => "pending"@,
        ImportJobStatus::Running => "running"@,
        ImportJobStatus::Completed => "completed"@,
        ImportJobStatus::Failed => "failed"@,
        ImportJobStatus::Partial => "partial"@,
        ImportJobStatus::RolledBack => "rolled_back"@,
    }
}

/// What became of one imported item.
#[derive(Clone, Copy, Debug, PartialEq, Eq, Structural, Hash)]
pub enum ImportItemOutcome {
    Imported,
    Updated,
    Duplicate,
    SkippedPrivate,
    Failed,
}

impl ImportItemOutcome {
    /// The snake_case identifier of the outcome.
    pub fn as_str(self) -> (s: &'static str)
        ensures
            s@ == import_item_outcome_text(self),
    {
        match self {
            Self::Imported => "imported",
            Self::Updated => "updated",
            Self::Duplicate => "duplicate",
            Self::SkippedPrivate => "skipped_private",
            Self::Failed => "failed",
        }
    }
}

pub open spec fn import_item_outcome_text(o: ImportItemOutcome) -> Seq<char> {
    match o {
        ImportItemOutcome::Imported => "imported"@,
        ImportItemOutcome::Updated => "updated"@,
        ImportItemOutcome::Duplicate => "duplicate"@,
        ImportItemOutcome::SkippedPrivate => "skipped_private"@,
        ImportItemOutcome::Failed => "failed"@,
    }
}

/// Distinct variants have distinct identifiers, for each of the four
/// enumerations that have one: the identifier names the variant.
pub proof fn lemma_identifiers_are_injective()
    ensures
        forall|a: ImportMethod, b: ImportMethod|
            import_method_text(a) == import_method_text(b) ==> a == b,
        forall|a: ImportJobStatus, b: ImportJobStatus|
            import_job_status_text(a) == import_job_status_text(b) ==> a == b,
        forall|a: ImportItemOutcome, b: ImportItemOutcome|
            import_item_outcome_text(a) == import_item_outcome_text(b) ==> a == b,
        forall|a: IntegrationOAuthProvider, b: IntegrationOAuthProvider|
            oauth_provider_text(a) == oauth_provider_text(b) ==> a == b,
{
    assert forall|a: ImportMethod, b: ImportMethod|
        import_method_text(a) == import_method_text(b) implies a == b by {
        reveal_strlit("oauth");
        reveal_strlit("csv");
        reveal_strlit("zip");
        assert(import_method_text(a).len() == import_method_text(b).len());
        if import_method_text(a).len() > 0 {
            assert(import_method_text(a)[0] == import_method_text(b)[0]);
        }
    }
    assert forall|a: ImportJobStatus, b: ImportJobStatus|
        import_job_status_text(a) == import_job_status_text(b) implies a == b by {
        reveal_strlit("awaiting_provider");
        reveal_strlit("pending");
        reveal_strlit("running");
        reveal_strlit("completed");
        reveal_strlit("failed");
        reveal_strlit("partial");
        reveal_strlit("rolled_back");
        assert(import_job_status_text(a).len() == import_job_status_text(b).len());
        if import_job_status_text(a).len() > 1 {
            assert(import_job_status_text(a)[0] == import_job_status_text(b)[0]);
            assert(import_job_status_text(a)[1] == import_job_status_text(b)[1]);
        }
    }
    assert forall|a: ImportItemOutcome, b: ImportItemOutcome|
        import_item_outcome_text(a) == import_item_outcome_text(b) implies a == b by {
        reveal_strlit("imported");
        reveal_strlit("updated");
        reveal_strlit("duplicate");
        reveal_strlit("skipped_private");
        reveal_strlit("failed");
        assert(import_item_outcome_text(a).len() == import_item_outcome_text(b).len());
    }
}

/// Per-outcome counter increments for an import job.
#[derive(Clone, Copy, Debug)]
pub struct ImportJobCountsDelta {
    pub imported: i32,
    pub updated: i32,
    pub duplicate: i32,
    pub skipped_private: i32,
    pub failed: i32,
}

impl Default for ImportJobCountsDelta {
    fn default() -> (d: Self)
        ensures
            d.imported == 0 && d.updated == 0 && d.duplicate == 0 && d.skipped_private == 0
                && d.failed == 0,
    {
        ImportJobCountsDelta { imported: 0, updated: 0, duplicate: 0, skipped_private: 0, failed: 0 }
    }
}

/// A JSON document. Numbers keep the text that they were written with.
#[derive(Debug)]
pub enum JsonValue {
    Null,
    Bool(bool),
    Number(String),
    Text(String),
    Array(Vec<JsonValue>),
    /// Members in document order; keys are distinct.
    Object(Vec<(String, JsonValue)>),
}

/// The position of the first member of `members` named `key`.
pub open spec fn member_index(members: Seq<(String, JsonValue)>, key: Seq<char>) -> Option<int>
    decreases members.len(),
{
    if members.len() == 0 {
        None
    } else if members.last().0@ == key && member_index(members.drop_last(), key) is None {
        Some(members.len() - 1)
    } else {
        member_index(members.drop_last(), key)
    }
}

/// The text held under `key` when `v` is an object with a string member `key`
/// (what `v.get(key).and_then(|v| v.as_str())` gives).
pub open spec fn string_member(v: JsonValue, key: Seq<char>) -> Option<Seq<char>> {
    match v {
        JsonValue::Object(members) => match member_index(members@, key) {
            Some(i) => match members@[i].1 {
                JsonValue::Text(s) => Some(s@),
                _ => None,
            },
            None => None,
        },
        _ => None,
    }
}

/// The text held under `key` when `v` is an object with a string member `key`.
pub fn string_field(v: &JsonValue, key: &str) -> (r: Option<String>)
    ensures
        r matches Some(s) ==> string_member(*v, key@) == Some(s@),
        r is None ==> string_member(*v, key@) is None,
{
    match v {
        JsonValue::Object(members) => {
            let k = chars_of(key);
            let mut i: usize = 0;
            while i < members.len()
                invariant
                    i <= members.len(),
                    *v == JsonValue::Object(*members),
                    k@ == key@,
                    member_index(members@.take(i as int), key@) is None,
                decreases members.len() - i,
            {
                let name = chars_of(members[i].0.as_str());
                assert(members@.take(i + 1).drop_last() =~= members@.take(i as int));
                if chars_eq(&name, &k) {
                    proof {
                        lemma_member_index_prefix(members@, key@, i as int);
                    }
                    return match &members[i].1 {
                        JsonValue::Text(s) => Some(s.clone()),
                        _ => None,
                    };
                }
                i = i + 1;
            }
            assert(members@.take(members.len() as int) =~= members@);
            None
        },
        _ => None,
    }
}

proof fn lemma_member_index_prefix(members: Seq<(String, JsonValue)>, key: Seq<char>, i: int)
    requires
        0 <= i < members.len(),
        members[i].0@ == key,
        member_index(members.take(i), key) is None,
    ensures
        member_index(members, key) == Some(i),
    decreases members.len(),
{
    if i == members.len() - 1 {
        assert(members.drop_last() =~= members.take(i));
    } else {
        assert(members.drop_last().take(i) =~= members.take(i));
        lemma_member_index_prefix(members.drop_last(), key, i);
    }
}

/// An object with the given string members, in order.
pub fn object_of_strings(members: Vec<(String, String)>) -> (v: JsonValue)
    ensures
        v matches JsonValue::Object(m) && m@.len() == members@.len() && forall|i: int|
            0 <= i < members@.len() ==> (#[trigger] m@[i]).0 == members@[i].0 && m@[i].1
                == JsonValue::Text(members@[i].1),
{
    let mut out: Vec<(String, JsonValue)> = Vec::new();
    let mut i: usize = 0;
    while i < members.len()
        invariant
            i <= members.len(),
            out@.len() == i,
            forall|j: int|
                0 <= j < i ==> (#[trigger] out@[j]).0 == members@[j].0 && out@[j].1
                    == JsonValue::Text(members@[j].1),
        decreases members.len() - i,
    {
        let (k, s) = (members[i].0.clone(), members[i].1.clone());
        out.push((k, JsonValue::Text(s)));
        i = i + 1;
    }
    JsonValue::Object(out)
}

/// A user's connection to an integration provider.
#[derive(Debug)]
pub struct IntegrationConnection {
    pub id: u128,
    pub user_id: u128,
    pub provider: IntegrationProvider,
    pub config: JsonValue,
    pub status: String,
    pub last_sync_at: Option<i64>,
    pub last_error: Option<String>,
    pub created_at: i64,
    pub updated_at: i64,
    /// Optimistic-locking version, incremented on every config change.
    pub version: i64,
}

/// The OAuth grant stored for a user and provider; tokens are sealed.
#[derive(Debug)]
pub struct IntegrationOAuthToken {
    pub id: u128,
    pub user_id: u128,
    pub provider: IntegrationOAuthProvider,
    pub access_token_enc: Vec<u8>,
    pub refresh_token_enc: Option<Vec<u8>>,
    pub token_expires_at: Option<i64>,
    pub extra: JsonValue,
    pub created_at: i64,
    pub updated_at: i64,
}

/// An import of a user's items from another service, with its counts.
pub struct ImportJob {
    pub id: u128,
    pub user_id: u128,
    /// The identifier of the service imported from.
    pub import_source: String,
    pub import_method: ImportMethod,
    pub status: ImportJobStatus,
    pub imported_count: i32,
    pub updated_count: i32,
    pub duplicate_count: i32,
    pub skipped_private_count: i32,
    pub failed_count: i32,
    pub raw_artifact_key: Option<String>,
    pub provider_report: Option<JsonValue>,
    pub error: Option<String>,
    pub created_at: i64,
    pub started_at: Option<i64>,
    pub finished_at: Option<i64>,
}

/// One item of an import job and its outcome.
#[derive(Clone, Debug)]
pub struct ImportJobItem {
    pub id: u128,
    pub import_job_id: u128,
    pub external_id: String,
    pub title: Option<String>,
    pub outcome: ImportItemOutcome,
    pub error: Option<String>,
    pub created_at: i64,
}

/// How far a library entry has been exported through a connection.
#[derive(Clone, Debug)]
pub struct ExportCursor {
    pub connection_id: u128,
    pub library_entry_id: u128,
    pub last_synced_at: Option<i64>,
    pub last_attempted_at: Option<i64>,
    pub cursor_version: i32,
    pub last_error: Option<String>,
    pub remote_page_id: Option<String>,
    pub last_exported_highlight_created_at: Option<i64>,
    pub last_exported_highlight_id: Option<u128>,
    pub created_at: i64,
    pub updated_at: i64,
}

} // verus!
