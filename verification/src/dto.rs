//! The shapes that the HTTP API exchanges about integrations and onboarding.
use vstd::prelude::*;

use crate::domain::{string_field, string_member, IntegrationConnection, IntegrationProvider, JsonValue};
use crate::outside::{url_parse, uuid_string, uuid_text, validate_length, validate_url};

verus! {

/// A connection as the API shows it.
pub struct IntegrationConnectionDto {
    pub id: String,
    pub provider: IntegrationProvider,
    pub status: String,
    pub last_sync_at: Option<i64>,
    pub last_error: Option<String>,
    pub config: IntegrationConnectionConfigDto,
    /// Count of queued integration jobs for this connection (sync + export).
    /// Frontend uses this to render a "pending" pill alongside connection status.
    pub pending_jobs: u32,
    pub created_at: i64,
}

/// The connections of a user and the OAuth providers that can be connected.
pub struct IntegrationListResponse {
    pub connections: Vec<IntegrationConnectionDto>,
    /// Lowercase ids of OAuth providers this instance holds credentials for.
    /// A provider absent here cannot be connected until an administrator
    /// configures it.
    pub available_oauth_providers: Vec<String>,
}

/// Provider-shaped configuration payload, tagged by provider.
pub enum IntegrationConnectionConfigDto {
    EmailIngest { address: String },
    /// Catch-all for providers that don't have first-class structured config
    /// on this surface yet.
    Other { provider_name: String },
}

/// The configuration payload that a connection's settings show, as spec values.
pub open spec fn config_dto_of(provider: IntegrationProvider, raw: JsonValue) -> (bool, Seq<char>) {
    match provider {
        IntegrationProvider::EmailIngest => (
            true,
            match string_member(raw, "address"@) {
                Some(a) => a,
                None => Seq::empty(),
            },
        ),
        IntegrationProvider::Custom => (false, "custom"@),
        IntegrationProvider::Logseq => (false, "logseq"@),
        IntegrationProvider::BrowserExtension => (false, "browser_extension"@),
        IntegrationProvider::Miniflux => (false, "miniflux"@),
    }
}

/// A configuration payload as spec values: whether it is the email-ingest
/// variant, and its text.
pub open spec fn config_dto_view(d: IntegrationConnectionConfigDto) -> (bool, Seq<char>) {
    match d {
        IntegrationConnectionConfigDto::EmailIngest { address } => (true, address@),
        IntegrationConnectionConfigDto::Other { provider_name } => (false, provider_name@),
    }
}

impl IntegrationConnectionConfigDto {
    /// The payload for a connection's settings: the ingest address of an
    /// email connection (empty when absent), the provider's name otherwise.
    pub fn from_domain(provider: &IntegrationProvider, raw: &JsonValue) -> (d: IntegrationConnectionConfigDto)
        ensures
            config_dto_view(d) == config_dto_of(*provider, *raw),
    {
        match provider {
            IntegrationProvider::EmailIngest => IntegrationConnectionConfigDto::EmailIngest {
                address: match string_field(raw, "address") {
                    Some(a) => a,
                    None => String::new(),
                },
            },
            IntegrationProvider::Custom => IntegrationConnectionConfigDto::Other {
                provider_name: "custom".to_owned(),
            },
            IntegrationProvider::Logseq => IntegrationConnectionConfigDto::Other {
                provider_name: "logseq".to_owned(),
            },
            IntegrationProvider::BrowserExtension => IntegrationConnectionConfigDto::Other {
                provider_name: "browser_extension".to_owned(),
            },
            IntegrationProvider::Miniflux => IntegrationConnectionConfigDto::Other {
                provider_name: "miniflux".to_owned(),
            },
        }
    }
}

impl IntegrationConnectionDto {
    /// The view of a connection with its count of queued jobs.
    pub fn from_with_pending(c: IntegrationConnection, pending_jobs: u32) -> (d: Self)
        ensures
            d.id@ == uuid_text(c.id),
            d.provider == c.provider,
            d.status == c.status,
            d.last_sync_at == c.last_sync_at,
            d.last_error == c.last_error,
            config_dto_view(d.config) == config_dto_of(c.provider, c.config),
            d.pending_jobs == pending_jobs,
            d.created_at == c.created_at,
    {
        let config = IntegrationConnectionConfigDto::from_domain(&c.provider, &c.config);
        IntegrationConnectionDto {
            id: uuid_string(c.id),
            provider: c.provider,
            status: c.status,
            last_sync_at: c.last_sync_at,
            last_error: c.last_error,
            config,
            pending_jobs,
            created_at: c.created_at,
        }
    }

    /// The view of a connection with no queued jobs.
    pub fn from_connection(c: IntegrationConnection) -> (d: Self)
        ensures
            d.id@ == uuid_text(c.id),
            d.provider == c.provider,
            d.status == c.status,
            d.last_sync_at == c.last_sync_at,
            d.last_error == c.last_error,
            config_dto_view(d.config) == config_dto_of(c.provider, c.config),
            d.pending_jobs == 0,
            d.created_at == c.created_at,
    {
        Self::from_with_pending(c, 0)
    }
}

/// The body of an authorisation request.
pub struct AuthorizeIntegrationRequest {
    pub redirect_after: Option<String>,
}

/// Where to send the user to authorise a provider.
pub struct AuthorizeIntegrationResponse {
    pub authorize_url: String,
}

/// OAuth callback query string. Code/state are absent when the provider
/// reports an error or when the user navigates to the URL manually.
pub struct CallbackQuery {
    pub code: Option<String>,
    pub state: Option<String>,
    pub error: Option<String>,
    pub error_description: Option<String>,
}

/// The job that a sync request enqueued.
pub struct SyncIntegrationResponse {
    pub job_id: String,
}

/// The body of a request to connect a Miniflux instance.
pub struct ConnectMinifluxRequest {
    /// A valid URL of 1 to 2048 characters.
    pub url: String,
    /// An API key of 1 to 512 characters.
    pub api_key: String,
}

/// A rule that a request field breaks.
#[derive(Clone, Copy, Debug, PartialEq, Eq, Structural)]
pub enum FieldViolation {
    /// `url` is not a valid URL ("must be a valid URL").
    UrlInvalid,
    /// `url` is empty or longer than 2048 characters.
    UrlLength,
    /// `api_key` is empty or longer than 512 characters ("cannot be empty").
    ApiKeyLength,
}

impl FieldViolation {
    /// The field that the rule is about.
    pub fn field(&self) -> (s: &'static str)
        ensures
            s@ == (match *self {
                FieldViolation::ApiKeyLength => "api_key"@,
                _ => "url"@,
            }),
    {
        match self {
            FieldViolation::ApiKeyLength => "api_key",
            _ => "url",
        }
    }

    /// The rule's code.
    pub fn code(&self) -> (s: &'static str)
        ensures
            s@ == (match *self {
                FieldViolation::UrlInvalid => "url"@,
                _ => "length"@,
            }),
    {
        match self {
            FieldViolation::UrlInvalid => "url",
            _ => "length",
        }
    }

    /// The rule's message, where it has one.
    pub fn message(&self) -> (s: Option<&'static str>)
        ensures
            match *self {
                FieldViolation::UrlInvalid => s matches Some(m) && m@ == "must be a valid URL"@,
                FieldViolation::UrlLength => s is None,
                FieldViolation::ApiKeyLength => s matches Some(m) && m@ == "cannot be empty"@,
            },
    {
        match self {
            FieldViolation::UrlInvalid => Some("must be a valid URL"),
            FieldViolation::UrlLength => None,
            FieldViolation::ApiKeyLength => Some("cannot be empty"),
        }
    }
}

/// The rules that a Miniflux connect request breaks, in field order.
pub open spec fn connect_violations(url: Seq<char>, api_key: Seq<char>) -> Seq<FieldViolation> {
    let a = if url_parse(url) is Some {
        Seq::empty()
    } else {
        seq![FieldViolation::UrlInvalid]
    };
    let b = if 1 <= url.len() <= 2048 {
        Seq::empty()
    } else {
        seq![FieldViolation::UrlLength]
    };
    let c = if 1 <= api_key.len() <= 512 {
        Seq::empty()
    } else {
        seq![FieldViolation::ApiKeyLength]
    };
    a + b + c
}

/// A connect request passes exactly when its URL parses as a URL and has 1
/// to 2048 characters and its API key has 1 to 512 characters; the URL rule
/// is broken exactly when the URL does not parse, whatever its scheme.
pub proof fn lemma_connect_rules(url: Seq<char>, api_key: Seq<char>)
    ensures
        connect_violations(url, api_key).len() == 0 <==> (url_parse(url) is Some && 1 <= url.len()
            <= 2048 && 1 <= api_key.len() <= 512),
        connect_violations(url, api_key).contains(FieldViolation::UrlInvalid) <==> url_parse(url) is None,
        connect_violations(url, api_key).contains(FieldViolation::UrlLength) <==> !(1 <= url.len() <= 2048),
        connect_violations(url, api_key).contains(FieldViolation::ApiKeyLength) <==> !(1 <= api_key.len()
            <= 512),
{
    let v = connect_violations(url, api_key);
    if url_parse(url) is None {
        assert(v[0] == FieldViolation::UrlInvalid);
    }
    if !(1 <= url.len() <= 2048) {
        let k = if url_parse(url) is Some { 0int } else { 1int };
        assert(v[k] == FieldViolation::UrlLength);
    }
    if !(1 <= api_key.len() <= 512) {
        assert(v[v.len() - 1] == FieldViolation::ApiKeyLength);
    }
}

impl ConnectMinifluxRequest {
    /// Checks the request: `Ok` exactly when it breaks no rule.
    pub fn validate(&self) -> (r: Result<(), Vec<FieldViolation>>)
        ensures
            r is Ok <==> connect_violations(self.url@, self.api_key@).len() == 0,
            r matches Err(v) ==> v@ == connect_violations(self.url@, self.api_key@),
    {
        let mut v: Vec<FieldViolation> = Vec::new();
        if !validate_url(self.url.as_str()) {
            v.push(FieldViolation::UrlInvalid);
        }
        if !validate_length(self.url.as_str(), 1, 2048) {
            v.push(FieldViolation::UrlLength);
        }
        if !validate_length(self.api_key.as_str(), 1, 512) {
            v.push(FieldViolation::ApiKeyLength);
        }
        assert(v@ =~= connect_violations(self.url@, self.api_key@));
        if v.len() == 0 {
            Ok(())
        } else {
            Err(v)
        }
    }
}

/// One onboarding step and whether it is done.
pub struct OnboardingStepInfo {
    pub step: i16,
    pub name: String,
    pub completed: bool,
}

/// Where a user stands in onboarding.
pub struct OnboardingStatus {
    pub current_step: i16,
    pub completed: bool,
    pub steps: Vec<OnboardingStepInfo>,
}

/// One onboarding step as the API shows it.
pub struct OnboardingStepResponse {
    pub step: i16,
    pub name: String,
    pub completed: bool,
}

/// A user's onboarding as the API shows it.
pub struct OnboardingResponse {
    pub current_step: i16,
    pub completed: bool,
    pub steps: Vec<OnboardingStepResponse>,
}

impl From<OnboardingStepInfo> for OnboardingStepResponse {
    fn from(s: OnboardingStepInfo) -> (r: Self) {
        OnboardingStepResponse { step: s.step, name: s.name, completed: s.completed }
    }
}

impl vstd::std_specs::convert::FromSpecImpl<OnboardingStepInfo> for OnboardingStepResponse {
    open spec fn obeys_from_spec() -> bool {
        true
    }

    open spec fn from_spec(s: OnboardingStepInfo) -> Self {
        OnboardingStepResponse { step: s.step, name: s.name, completed: s.completed }
    }
}

/// The response for one step, as spec values.
pub open spec fn step_view(s: OnboardingStepResponse) -> (i16, Seq<char>, bool) {
    (s.step, s.name@, s.completed)
}

/// The step info, as spec values.
pub open spec fn step_info_view(s: OnboardingStepInfo) -> (i16, Seq<char>, bool) {
    (s.step, s.name@, s.completed)
}

impl OnboardingResponse {
    /// The view of a user's onboarding status, step by step.
    pub fn from_status(status: OnboardingStatus) -> (r: Self)
        ensures
            r.current_step == status.current_step,
            r.completed == status.completed,
            r.steps@.map_values(|s: OnboardingStepResponse| step_view(s)) == status.steps@.map_values(
                |s: OnboardingStepInfo| step_info_view(s),
            ),
    {
        let OnboardingStatus { current_step, completed, steps } = status;
        let ghost infos = steps@.map_values(|s: OnboardingStepInfo| step_info_view(s));
        let mut rest = steps;
        let mut out: Vec<OnboardingStepResponse> = Vec::new();
        while rest.len() > 0
            invariant
                out@.len() + rest@.len() == infos.len(),
                forall|k: int| 0 <= k < out@.len() ==> step_view(#[trigger] out@[k]) == infos[k],
                forall|k: int|
                    0 <= k < rest@.len() ==> step_info_view(#[trigger] rest@[k]) == infos[out@.len()
                        + k],
            decreases rest.len(),
        {
            let ghost before = rest@;
            let s = rest.remove(0);
            assert forall|k: int| 0 <= k < rest@.len() implies step_info_view(#[trigger] rest@[k])
                == infos[out@.len() + 1 + k] by {
                assert(rest@[k] == before[k + 1]);
            }
            assert(step_info_view(s) == infos[out@.len() as int]);
            out.push(OnboardingStepResponse::from(s));
        }
        assert(out@.map_values(|s: OnboardingStepResponse| step_view(s)) =~= infos);
        OnboardingResponse { current_step, completed, steps: out }
    }
}

/// The body of a request to complete an onboarding step.
pub struct CompleteStepRequest {
    pub data: JsonValue,
}

/// The data that an onboarding step may carry.
pub struct StepData {
    pub display_name: Option<String>,
    pub theme: Option<String>,
    pub source: Option<String>,
    pub feed_urls: Option<Vec<String>>,
    pub chat_provider: Option<String>,
    pub chat_api_key: Option<String>,
    pub chat_endpoint: Option<String>,
    pub chat_model: Option<String>,
    pub embedding_provider: Option<String>,
    pub embedding_api_key: Option<String>,
    pub embedding_endpoint: Option<String>,
    pub embedding_model: Option<String>,
    pub embedding_dim: Option<i32>,
}

/// An opaque position in a paged listing.
pub struct Cursor(pub String);

/// One page of a listing and where the next one starts.
pub struct Page<T> {
    pub items: Vec<T>,
    pub next_cursor: Option<Cursor>,
}

} // verus!
