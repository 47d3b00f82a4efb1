//! The integration operations: which OAuth providers are connectable, how an
//! OAuth callback becomes a connection, and the order in which a connection
//! is taken down.
use vstd::prelude::*;

use crate::domain::{
    IntegrationConnection, IntegrationOAuthProvider, IntegrationOAuthToken, IntegrationProvider,
    JsonValue,
};
use crate::error::{external, is_external, is_not_found, not_found, AppError};
use crate::outside::{utf8_text, uuid_string, uuid_text};

verus! {

/// The tokens that a provider granted.
pub struct ProviderTokens {
    pub access_token: String,
    pub refresh_token: Option<String>,
    pub expires_at: Option<i64>,
    pub extra: JsonValue,
}

/// A finished OAuth flow: who authorised which provider, and the tokens.
pub struct CompletedFlow {
    pub user_id: u128,
    pub provider: IntegrationOAuthProvider,
    pub tokens: ProviderTokens,
}

/// The settings of the connection that a provider's tokens open
/// (for the custom provider: the token's extra data).
pub fn integration_connection_config_from_tokens<'a>(
    provider: IntegrationOAuthProvider,
    extra: &'a JsonValue,
) -> (r: &'a JsonValue)
    ensures
        r == extra,
{
    match provider {
        IntegrationOAuthProvider::Custom => extra,
    }
}

/// The connection provider that an OAuth provider's grant is stored under.
pub fn connection_provider_for(provider: IntegrationOAuthProvider) -> (p: IntegrationProvider)
    ensures
        p == oauth_connection_provider(provider),
{
    match provider {
        IntegrationOAuthProvider::Custom => IntegrationProvider::Custom,
    }
}

pub open spec fn oauth_connection_provider(provider: IntegrationOAuthProvider) -> IntegrationProvider {
    match provider {
        IntegrationOAuthProvider::Custom => IntegrationProvider::Custom,
    }
}

/// The OAuth provider whose grant a connection holds, if any.
pub open spec fn grant_provider(p: IntegrationProvider) -> Option<IntegrationOAuthProvider> {
    match p {
        IntegrationProvider::Custom => Some(IntegrationOAuthProvider::Custom),
        _ => None,
    }
}

fn grant_provider_of(p: IntegrationProvider) -> (r: Option<IntegrationOAuthProvider>)
    ensures
        r == grant_provider(p),
{
    match p {
        IntegrationProvider::Custom => Some(IntegrationOAuthProvider::Custom),
        _ => None,
    }
}

/// A connection to create or update for a user: its provider, settings and status.
pub struct ConnectionUpsert {
    pub user_id: u128,
    pub provider: IntegrationProvider,
    pub config: JsonValue,
    pub status: String,
}

/// The error for an OAuth flow without a credential cipher.
pub open spec fn missing_cipher(e: AppError) -> bool {
    is_external(
        e,
        "integration_oauth"@,
        "auth.credential_key is required for integration OAuth flows"@,
    )
}

/// The error for a stored token that cannot be opened.
pub open spec fn unreadable_token(e: AppError) -> bool {
    is_external(e, "integration_oauth"@, "stored provider token could not be decrypted"@)
}

/// The decisions of the integration operations, over the instance's
/// configuration: whether a credential cipher seals provider tokens, and
/// which OAuth providers the OAuth service holds credentials for.
pub struct IntegrationOperationsService {
    credential_cipher: bool,
    oauth_providers: Vec<IntegrationOAuthProvider>,
}

impl IntegrationOperationsService {
    /// Whether a credential cipher is configured.
    pub closed spec fn has_cipher(&self) -> bool {
        self.credential_cipher
    }

    /// The providers that the OAuth service is configured for.
    pub closed spec fn oauth_providers(&self) -> Seq<IntegrationOAuthProvider> {
        self.oauth_providers@
    }

    pub fn new(credential_cipher: bool, oauth_providers: Vec<IntegrationOAuthProvider>) -> (s: Self)
        ensures
            s.has_cipher() == credential_cipher,
            s.oauth_providers() == oauth_providers@,
    {
        IntegrationOperationsService { credential_cipher, oauth_providers }
    }

    fn require_cipher(&self) -> (r: Result<(), AppError>)
        ensures
            self.has_cipher() <==> r is Ok,
            r matches Err(e) ==> missing_cipher(e),
    {
        if self.credential_cipher {
            Ok(())
        } else {
            Err(
                external(
                    "integration_oauth",
                    "auth.credential_key is required for integration OAuth flows".to_owned(),
                ),
            )
        }
    }

    /// The OAuth providers that can be connected: none without a credential
    /// cipher (the callback could never store the tokens), otherwise those the
    /// OAuth service is configured for.
    pub fn configured_oauth_providers(&self) -> (r: Vec<IntegrationOAuthProvider>)
        ensures
            !self.has_cipher() ==> r@.len() == 0,
            self.has_cipher() ==> r@ == self.oauth_providers(),
    {
        if !self.credential_cipher {
            return Vec::new();
        }
        let mut r: Vec<IntegrationOAuthProvider> = Vec::new();
        let mut i: usize = 0;
        while i < self.oauth_providers.len()
            invariant
                i <= self.oauth_providers.len(),
                r@ == self.oauth_providers@.take(i as int),
            decreases self.oauth_providers.len() - i,
        {
            r.push(self.oauth_providers[i]);
            i = i + 1;
            assert(r@ =~= self.oauth_providers@.take(i as int));
        }
        assert(self.oauth_providers@.take(self.oauth_providers.len() as int) =~= self.oauth_providers@);
        r
    }

    /// The OAuth callback for `provider` with the code and state it returned.
    pub fn callback(&self, provider: IntegrationOAuthProvider, code: &str, state: &str) -> (c: OAuthCallback)
        ensures
            c.wf(),
            c.phase() == CallbackPhase::Ready,
            c.has_cipher() == self.has_cipher(),
            c.provider() == provider,
            c.code() == code@,
            c.state() == state@,
    {
        OAuthCallback {
            credential_cipher: self.credential_cipher,
            provider,
            code: code.to_owned(),
            state: state.to_owned(),
            phase: CallbackPhase::Ready,
            completed: None,
        }
    }

    /// The removal of a user's connection.
    pub fn delete_connection(&self, user_id: u128, connection_id: u128) -> (d: ConnectionDeletion)
        ensures
            d.phase() == DeletionPhase::Ready,
            d.has_cipher() == self.has_cipher(),
            d.user_id() == user_id,
            d.connection_id() == connection_id,
            d.ordered(),
            !d.revoked() && !d.token_deleted(),
    {
        ConnectionDeletion {
            credential_cipher: self.credential_cipher,
            user_id,
            connection_id,
            grant: None,
            token_found: false,
            revoked: false,
            token_deleted: false,
            phase: DeletionPhase::Ready,
        }
    }

    /// The connection that connecting a Miniflux instance stores for the user:
    /// provider
    /// Miniflux, settings holding the URL and API key, status `connected`.
    pub fn setup_miniflux_connection(&self, user_id: u128, url: String, api_key: String) -> (c: ConnectionUpsert)
        ensures
            c.user_id == user_id,
            c.provider == IntegrationProvider::Miniflux,
            crate::domain::string_member(c.config, "url"@) == Some(url@),
            crate::domain::string_member(c.config, "api_key"@) == Some(api_key@),
            c.config matches JsonValue::Object(m) && m@.len() == 2,
            c.status@ == "connected"@,
    {
        let mut members: Vec<(String, String)> = Vec::new();
        members.push(("url".to_owned(), url));
        members.push(("api_key".to_owned(), api_key));
        assert(members@[0].0@ == "url"@);
        assert(members@[1].0@ == "api_key"@);
        let v = crate::domain::object_of_strings(members);
        proof {
            reveal_strlit("url");
            reveal_strlit("api_key");
            match &v {
                JsonValue::Object(m) => {
                    assert(m@.take(1).drop_last() =~= m@.take(0));
                    assert(m@.drop_last() =~= m@.take(1));
                    assert(crate::domain::member_index(m@.take(0), "url"@) is None);
                    assert(crate::domain::member_index(m@.take(1), "url"@) == Some(0int));
                    assert(m@[1].0@ != "url"@);
                    assert(crate::domain::member_index(m@, "url"@) == Some(0int));
                    assert(m@[0].0@ != "api_key"@);
                    assert(m@.take(1).last().0@ == "url"@);
                    assert("url"@ != "api_key"@);
                    assert(crate::domain::member_index(m@.take(0), "api_key"@) is None);
                    assert(crate::domain::member_index(m@.take(1), "api_key"@) is None);
                    assert(crate::domain::member_index(m@, "api_key"@) == Some(1int));
                },
                _ => {},
            }
        }
        ConnectionUpsert { user_id, provider: IntegrationProvider::Miniflux, config: v, status: "connected".to_owned() }
    }
}

// ---------------------------------------------------------------------------
// OAuth callback
// ---------------------------------------------------------------------------

/// What the API reports after performing a callback action.
pub enum CallbackEvent {
    Started,
    /// The OAuth service finished the flow (its errors already mapped).
    FlowCompleted(Result<CompletedFlow, AppError>),
    /// The sealed tokens were stored.
    TokensStored(Result<(), AppError>),
    /// The connection was created or updated.
    ConnectionStored(Result<IntegrationConnection, AppError>),
}

/// What the callback asks the API to do next.
pub enum CallbackAction {
    /// Have the OAuth service complete the flow.
    CompleteFlow { provider: IntegrationOAuthProvider, code: String, state: String },
    /// Seal the completed flow's tokens with the credential cipher and store
    /// them for this user and provider.
    StoreTokens { user_id: u128, provider: IntegrationOAuthProvider },
    /// Create or update the user's connection for this provider, with the
    /// settings of `integration_connection_config_from_tokens` and this status.
    StoreConnection { user_id: u128, provider: IntegrationProvider, status: String },
    /// The callback is over.
    Finish(Result<IntegrationConnection, AppError>),
}

#[derive(Clone, Copy, Debug, PartialEq, Eq, Structural)]
pub enum CallbackPhase {
    Ready,
    CompletingFlow,
    StoringTokens,
    StoringConnection,
    Finished,
}

pub open spec fn callback_accepts(phase: CallbackPhase, event: CallbackEvent) -> bool {
    match phase {
        CallbackPhase::Ready => event is Started,
        CallbackPhase::CompletingFlow => event is FlowCompleted,
        CallbackPhase::StoringTokens => event is TokensStored,
        CallbackPhase::StoringConnection => event is ConnectionStored,
        CallbackPhase::Finished => false,
    }
}

/// An OAuth callback: complete the flow, store the sealed tokens, then create
/// or update the connection (status `active`).
pub struct OAuthCallback {
    credential_cipher: bool,
    provider: IntegrationOAuthProvider,
    code: String,
    state: String,
    phase: CallbackPhase,
    completed: Option<CompletedFlow>,
}

impl OAuthCallback {
    pub closed spec fn has_cipher(&self) -> bool {
        self.credential_cipher
    }

    pub closed spec fn provider(&self) -> IntegrationOAuthProvider {
        self.provider
    }

    pub closed spec fn code(&self) -> Seq<char> {
        self.code@
    }

    pub closed spec fn state(&self) -> Seq<char> {
        self.state@
    }

    pub closed spec fn phase(&self) -> CallbackPhase {
        self.phase
    }

    pub closed spec fn completed_flow(&self) -> Option<CompletedFlow> {
        self.completed
    }

    /// The callback's internal consistency: once the flow is completed, it
    /// is kept for the steps that store its tokens and connection.
    pub closed spec fn wf(&self) -> bool {
        (self.phase == CallbackPhase::StoringTokens || self.phase == CallbackPhase::StoringConnection)
            ==> self.completed is Some
    }

    /// The completed flow, once the OAuth service has finished it.
    pub fn completed(&self) -> (r: Option<&CompletedFlow>)
        ensures
            r == (match self.completed_flow() {
                Some(f) => Some(&f),
                None => None::<&CompletedFlow>,
            }),
    {
        match &self.completed {
            Some(f) => Some(f),
            None => None,
        }
    }

    /// Whether the callback expects `event` now.
    pub fn accepts(&self, event: &CallbackEvent) -> (b: bool)
        ensures
            b == callback_accepts(self.phase(), *event),
    {
        match self.phase {
            CallbackPhase::Ready => matches!(event, CallbackEvent::Started),
            CallbackPhase::CompletingFlow => matches!(event, CallbackEvent::FlowCompleted(..)),
            CallbackPhase::StoringTokens => matches!(event, CallbackEvent::TokensStored(..)),
            CallbackPhase::StoringConnection => matches!(event, CallbackEvent::ConnectionStored(..)),
            CallbackPhase::Finished => false,
        }
    }

    /// Takes the outcome of the last action and decides the next one.
    pub fn step(&mut self, event: CallbackEvent) -> (a: CallbackAction)
        requires
            old(self).wf(),
            callback_accepts(old(self).phase(), event),
        ensures
            final(self).wf(),
            final(self).has_cipher() == old(self).has_cipher(),
            final(self).provider() == old(self).provider(),
            callback_transition(*old(self), event, *final(self), a),
    {
        match event {
            CallbackEvent::Started => {
                if !self.credential_cipher {
                    self.phase = CallbackPhase::Finished;
                    return CallbackAction::Finish(
                        Err(
                            external(
                                "integration_oauth",
                                "auth.credential_key is required for integration OAuth flows".to_owned(),
                            ),
                        ),
                    );
                }
                self.phase = CallbackPhase::CompletingFlow;
                CallbackAction::CompleteFlow {
                    provider: self.provider,
                    code: self.code.clone(),
                    state: self.state.clone(),
                }
            },
            CallbackEvent::FlowCompleted(r) => match r {
                Err(e) => {
                    self.phase = CallbackPhase::Finished;
                    CallbackAction::Finish(Err(e))
                },
                Ok(flow) => {
                    let user_id = flow.user_id;
                    let provider = flow.provider;
                    self.completed = Some(flow);
                    self.phase = CallbackPhase::StoringTokens;
                    CallbackAction::StoreTokens { user_id, provider }
                },
            },
            CallbackEvent::TokensStored(r) => match r {
                Err(e) => {
                    self.phase = CallbackPhase::Finished;
                    CallbackAction::Finish(Err(e))
                },
                Ok(()) => {
                    let (user_id, provider) = match &self.completed {
                        Some(f) => (f.user_id, f.provider),
                        None => (0, self.provider),
                    };
                    self.phase = CallbackPhase::StoringConnection;
                    CallbackAction::StoreConnection {
                        user_id,
                        provider: connection_provider_for(provider),
                        status: "active".to_owned(),
                    }
                },
            },
            CallbackEvent::ConnectionStored(r) => {
                self.phase = CallbackPhase::Finished;
                CallbackAction::Finish(r)
            },
        }
    }
}

/// What one step of a callback does.
pub open spec fn callback_transition(pre: OAuthCallback, event: CallbackEvent, post: OAuthCallback, a: CallbackAction) -> bool {
    match event {
        CallbackEvent::Started => if pre.has_cipher() {
            &&& post.phase() == CallbackPhase::CompletingFlow
            &&& a matches CallbackAction::CompleteFlow { provider, code, state }
            &&& provider == pre.provider()
            &&& code@ == pre.code()
            &&& state@ == pre.state()
        } else {
            &&& post.phase() == CallbackPhase::Finished
            &&& a matches CallbackAction::Finish(Err(e)) && missing_cipher(e)
        },
        CallbackEvent::FlowCompleted(r) => match r {
            Err(e) => post.phase() == CallbackPhase::Finished && a == CallbackAction::Finish(Err(e)),
            Ok(flow) => {
                &&& post.phase() == CallbackPhase::StoringTokens
                &&& post.completed_flow() == Some(flow)
                &&& a == CallbackAction::StoreTokens { user_id: flow.user_id, provider: flow.provider }
            },
        },
        CallbackEvent::TokensStored(r) => match r {
            Err(e) => post.phase() == CallbackPhase::Finished && a == CallbackAction::Finish(Err(e)),
            Ok(()) => {
                &&& post.phase() == CallbackPhase::StoringConnection
                &&& post.completed_flow() == pre.completed_flow()
                &&& pre.completed_flow() is Some
                &&& a matches CallbackAction::StoreConnection { user_id, provider, status }
                &&& user_id == pre.completed_flow()->0.user_id
                &&& provider == oauth_connection_provider(pre.completed_flow()->0.provider)
                &&& status@ == "active"@
            },
        },
        CallbackEvent::ConnectionStored(r) => post.phase() == CallbackPhase::Finished && a
            == CallbackAction::Finish(r),
    }
}

/// A flow that the OAuth service refuses to complete (as it refuses a state
/// that was already used) ends the callback with the service's error: no
/// token and no connection is written, and the finished callback takes no
/// further event.
pub proof fn lemma_refused_flow_writes_nothing(
    pre: OAuthCallback,
    e: AppError,
    post: OAuthCallback,
    a: CallbackAction,
)
    requires
        callback_accepts(pre.phase(), CallbackEvent::FlowCompleted(Err(e))),
        callback_transition(pre, CallbackEvent::FlowCompleted(Err(e)), post, a),
    ensures
        a == CallbackAction::Finish(Err(e)),
        post.phase() == CallbackPhase::Finished,
        forall|ev: CallbackEvent| !callback_accepts(post.phase(), ev),
{
}

// ---------------------------------------------------------------------------
// Connection removal
// ---------------------------------------------------------------------------

/// What the API reports after performing a removal action.
pub enum DeletionEvent {
    Started,
    ConnectionFound(Result<Option<IntegrationConnection>, AppError>),
    TokenFound(Result<Option<IntegrationOAuthToken>, AppError>),
    /// The sealed access token was opened with the credential cipher, or could not be.
    TokenOpened(Option<Vec<u8>>),
    /// The provider revoked the grant (its errors already mapped).
    GrantRevoked(Result<(), AppError>),
    TokenDeleted(Result<(), AppError>),
    ConnectionDeleted(Result<(), AppError>),
}

/// What the removal asks the API to do next.
pub enum DeletionAction {
    FindConnection { user_id: u128, connection_id: u128 },
    FindToken { user_id: u128, provider: IntegrationOAuthProvider },
    /// Open these sealed bytes with the credential cipher.
    OpenToken { sealed: Vec<u8> },
    /// Have the provider revoke the grant of this access token.
    RevokeGrant { provider: IntegrationOAuthProvider, access_token: String },
    DeleteToken { user_id: u128, provider: IntegrationOAuthProvider },
    DeleteConnection { connection_id: u128, user_id: u128 },
    Finish(Result<(), AppError>),
}

#[derive(Clone, Copy, Debug, PartialEq, Eq, Structural)]
pub enum DeletionPhase {
    Ready,
    FindingConnection,
    FindingToken,
    OpeningToken,
    RevokingGrant,
    DeletingToken,
    DeletingConnection,
    Finished,
}

pub open spec fn deletion_accepts(phase: DeletionPhase, event: DeletionEvent) -> bool {
    match phase {
        DeletionPhase::Ready => event is Started,
        DeletionPhase::FindingConnection => event is ConnectionFound,
        DeletionPhase::FindingToken => event is TokenFound,
        DeletionPhase::OpeningToken => event is TokenOpened,
        DeletionPhase::RevokingGrant => event is GrantRevoked,
        DeletionPhase::DeletingToken => event is TokenDeleted,
        DeletionPhase::DeletingConnection => event is ConnectionDeleted,
        DeletionPhase::Finished => false,
    }
}

/// The removal of a connection. The upstream grant is revoked before anything
/// local is deleted, and the token row before the connection, so that a
/// failure at any point leaves what a retry needs.
pub struct ConnectionDeletion {
    credential_cipher: bool,
    user_id: u128,
    connection_id: u128,
    grant: Option<IntegrationOAuthProvider>,
    token_found: bool,
    revoked: bool,
    token_deleted: bool,
    phase: DeletionPhase,
}

impl ConnectionDeletion {
    pub closed spec fn has_cipher(&self) -> bool {
        self.credential_cipher
    }

    pub closed spec fn user_id(&self) -> u128 {
        self.user_id
    }

    pub closed spec fn connection_id(&self) -> u128 {
        self.connection_id
    }

    /// The OAuth provider whose grant the connection holds, once known.
    pub closed spec fn grant(&self) -> Option<IntegrationOAuthProvider> {
        self.grant
    }

    /// Whether a stored token was found for the grant.
    pub closed spec fn token_found(&self) -> bool {
        self.token_found
    }

    /// Whether the provider has revoked the grant.
    pub closed spec fn revoked(&self) -> bool {
        self.revoked
    }

    /// Whether the token row has been deleted.
    pub closed spec fn token_deleted(&self) -> bool {
        self.token_deleted
    }

    pub closed spec fn phase(&self) -> DeletionPhase {
        self.phase
    }

    /// The order that the removal keeps: no token deletion while a found
    /// token's grant is unrevoked, and no connection deletion while a grant's
    /// token row remains.
    pub open spec fn ordered(&self) -> bool {
        &&& self.phase() == DeletionPhase::DeletingToken ==> self.grant() is Some && (
        !self.token_found() || self.revoked())
        &&& self.phase() == DeletionPhase::DeletingConnection ==> (self.grant() is None
            || self.token_deleted())
        &&& self.phase() == DeletionPhase::RevokingGrant || self.phase() == DeletionPhase::OpeningToken
            || self.phase() == DeletionPhase::FindingToken ==> self.grant() is Some
        &&& self.phase() == DeletionPhase::FindingToken || self.phase() == DeletionPhase::Ready
            || self.phase() == DeletionPhase::FindingConnection ==> !self.token_found()
        &&& self.phase() != DeletionPhase::DeletingConnection && self.phase() != DeletionPhase::Finished
            ==> !self.token_deleted()
    }

    /// Whether the removal expects `event` now.
    pub fn accepts(&self, event: &DeletionEvent) -> (b: bool)
        ensures
            b == deletion_accepts(self.phase(), *event),
    {
        match self.phase {
            DeletionPhase::Ready => matches!(event, DeletionEvent::Started),
            DeletionPhase::FindingConnection => matches!(event, DeletionEvent::ConnectionFound(..)),
            DeletionPhase::FindingToken => matches!(event, DeletionEvent::TokenFound(..)),
            DeletionPhase::OpeningToken => matches!(event, DeletionEvent::TokenOpened(..)),
            DeletionPhase::RevokingGrant => matches!(event, DeletionEvent::GrantRevoked(..)),
            DeletionPhase::DeletingToken => matches!(event, DeletionEvent::TokenDeleted(..)),
            DeletionPhase::DeletingConnection => matches!(event, DeletionEvent::ConnectionDeleted(..)),
            DeletionPhase::Finished => false,
        }
    }

    fn delete_token_or_connection(&mut self) -> (a: DeletionAction)
        requires
            old(self).ordered(),
            old(self).grant() is Some ==> !old(self).token_found() || old(self).revoked(),
            !old(self).token_deleted(),
        ensures
            final(self).ordered(),
            final(self).has_cipher() == old(self).has_cipher(),
            final(self).user_id() == old(self).user_id(),
            final(self).connection_id() == old(self).connection_id(),
            final(self).grant() == old(self).grant(),
            final(self).token_found() == old(self).token_found(),
            final(self).revoked() == old(self).revoked(),
            final(self).token_deleted() == old(self).token_deleted(),
            removes_next(*final(self), a),
    {
        match self.grant {
            Some(p) => {
                self.phase = DeletionPhase::DeletingToken;
                DeletionAction::DeleteToken { user_id: self.user_id, provider: p }
            },
            None => {
                self.phase = DeletionPhase::DeletingConnection;
                DeletionAction::DeleteConnection {
                    connection_id: self.connection_id,
                    user_id: self.user_id,
                }
            },
        }
    }

    fn fail(&mut self, e: AppError) -> (a: DeletionAction)
        requires
            old(self).ordered(),
        ensures
            final(self).ordered(),
            final(self).has_cipher() == old(self).has_cipher(),
            final(self).user_id() == old(self).user_id(),
            final(self).connection_id() == old(self).connection_id(),
            final(self).grant() == old(self).grant(),
            final(self).token_found() == old(self).token_found(),
            final(self).revoked() == old(self).revoked(),
            final(self).token_deleted() == old(self).token_deleted(),
            final(self).phase() == DeletionPhase::Finished,
            a == DeletionAction::Finish(Err(e)),
    {
        self.phase = DeletionPhase::Finished;
        DeletionAction::Finish(Err(e))
    }

    /// Takes the outcome of the last action and decides the next one.
    pub fn step(&mut self, event: DeletionEvent) -> (a: DeletionAction)
        requires
            old(self).ordered(),
            deletion_accepts(old(self).phase(), event),
        ensures
            final(self).ordered(),
            final(self).has_cipher() == old(self).has_cipher(),
            final(self).user_id() == old(self).user_id(),
            final(self).connection_id() == old(self).connection_id(),
            deletion_transition(*old(self), event, *final(self), a),
    {
        match event {
            DeletionEvent::Started => {
                self.phase = DeletionPhase::FindingConnection;
                DeletionAction::FindConnection {
                    user_id: self.user_id,
                    connection_id: self.connection_id,
                }
            },
            DeletionEvent::ConnectionFound(r) => match r {
                Err(e) => self.fail(e),
                Ok(None) => {
                    let e = not_found("IntegrationConnection", uuid_string(self.connection_id));
                    self.fail(e)
                },
                Ok(Some(c)) => {
                    let grant = grant_provider_of(c.provider);
                    self.grant = grant;
                    match grant {
                        Some(p) => {
                            self.phase = DeletionPhase::FindingToken;
                            DeletionAction::FindToken { user_id: self.user_id, provider: p }
                        },
                        None => self.delete_token_or_connection(),
                    }
                },
            },
            DeletionEvent::TokenFound(r) => match r {
                Err(e) => self.fail(e),
                Ok(None) => self.delete_token_or_connection(),
                Ok(Some(row)) => {
                    if !self.credential_cipher {
                        let e = external(
                            "integration_oauth",
                            "auth.credential_key is required for integration OAuth flows".to_owned(),
                        );
                        return self.fail(e);
                    }
                    self.token_found = true;
                    self.phase = DeletionPhase::OpeningToken;
                    DeletionAction::OpenToken { sealed: row.access_token_enc }
                },
            },
            DeletionEvent::TokenOpened(opened) => {
                let text = match opened {
                    Some(bytes) => utf8_text(bytes),
                    None => None,
                };
                match text {
                    None => {
                        let e = external(
                            "integration_oauth",
                            "stored provider token could not be decrypted".to_owned(),
                        );
                        self.fail(e)
                    },
                    Some(access_token) => {
                        let p = match self.grant {
                            Some(p) => p,
                            None => IntegrationOAuthProvider::Custom,
                        };
                        self.phase = DeletionPhase::RevokingGrant;
                        DeletionAction::RevokeGrant { provider: p, access_token }
                    },
                }
            },
            DeletionEvent::GrantRevoked(r) => match r {
                Err(e) => self.fail(e),
                Ok(()) => {
                    self.revoked = true;
                    self.delete_token_or_connection()
                },
            },
            DeletionEvent::TokenDeleted(r) => match r {
                Err(e) => self.fail(e),
                Ok(()) => {
                    self.token_deleted = true;
                    self.phase = DeletionPhase::DeletingConnection;
                    DeletionAction::DeleteConnection {
                        connection_id: self.connection_id,
                        user_id: self.user_id,
                    }
                },
            },
            DeletionEvent::ConnectionDeleted(r) => {
                self.phase = DeletionPhase::Finished;
                DeletionAction::Finish(r)
            },
        }
    }
}

/// The removal deletes the grant's token row if the connection holds a
/// grant, otherwise the connection itself.
pub open spec fn removes_next(post: ConnectionDeletion, a: DeletionAction) -> bool {
    match post.grant() {
        Some(p) => post.phase() == DeletionPhase::DeletingToken && a == DeletionAction::DeleteToken {
            user_id: post.user_id(),
            provider: p,
        },
        None => post.phase() == DeletionPhase::DeletingConnection && a
            == DeletionAction::DeleteConnection {
            connection_id: post.connection_id(),
            user_id: post.user_id(),
        },
    }
}

/// What the removal does once the connection is found: look up the stored
/// token of its grant, or, without a grant, delete the connection.
pub open spec fn removal_after_lookup(pre: ConnectionDeletion, r: Result<Option<IntegrationConnection>, AppError>, post: ConnectionDeletion, a: DeletionAction) -> bool {
    match r {
        Err(e) => post.phase() == DeletionPhase::Finished && a == DeletionAction::Finish(Err(e)),
        Ok(None) => {
            &&& post.phase() == DeletionPhase::Finished
            &&& a matches DeletionAction::Finish(Err(e)) && is_not_found(
                e,
                "IntegrationConnection"@,
                uuid_text(pre.connection_id()),
            )
        },
        Ok(Some(c)) => {
            &&& post.grant() == grant_provider(c.provider)
            &&& match grant_provider(c.provider) {
                Some(p) => post.phase() == DeletionPhase::FindingToken && a
                    == DeletionAction::FindToken { user_id: pre.user_id(), provider: p },
                None => removes_next(post, a),
            }
        },
    }
}

/// What the removal does with the grant's stored token: delete the token row
/// when there is none; refuse without a cipher; otherwise open it.
pub open spec fn removal_after_token(pre: ConnectionDeletion, r: Result<Option<IntegrationOAuthToken>, AppError>, post: ConnectionDeletion, a: DeletionAction) -> bool {
    match r {
        Err(e) => post.phase() == DeletionPhase::Finished && a == DeletionAction::Finish(Err(e)),
        Ok(None) => removes_next(post, a),
        Ok(Some(row)) => if pre.has_cipher() {
            &&& post.phase() == DeletionPhase::OpeningToken
            &&& a matches DeletionAction::OpenToken { sealed }
            &&& sealed@ == row.access_token_enc@
        } else {
            &&& post.phase() == DeletionPhase::Finished
            &&& a matches DeletionAction::Finish(Err(e)) && missing_cipher(e)
        },
    }
}

/// What one step of a removal does.
pub open spec fn deletion_transition(pre: ConnectionDeletion, event: DeletionEvent, post: ConnectionDeletion, a: DeletionAction) -> bool {
    &&& post.has_cipher() == pre.has_cipher()
    &&& post.user_id() == pre.user_id()
    &&& post.connection_id() == pre.connection_id()
    &&& !(event is ConnectionFound) ==> post.grant() == pre.grant()
    &&& post.token_found() == (pre.token_found() || (pre.has_cipher()
        && event matches DeletionEvent::TokenFound(Ok(Some(_)))))
    &&& post.revoked() == (pre.revoked() || event matches DeletionEvent::GrantRevoked(Ok(_)))
    &&& post.token_deleted() == (pre.token_deleted() || event matches DeletionEvent::TokenDeleted(Ok(_)))
    &&& match event {
        DeletionEvent::Started => post.phase() == DeletionPhase::FindingConnection && a
            == DeletionAction::FindConnection {
            user_id: pre.user_id(),
            connection_id: pre.connection_id(),
        },
        DeletionEvent::ConnectionFound(r) => removal_after_lookup(pre, r, post, a),
        DeletionEvent::TokenFound(r) => removal_after_token(pre, r, post, a),
        DeletionEvent::TokenOpened(opened) => match opened {
            Some(bytes) if vstd::utf8::valid_utf8(bytes@) => {
                &&& post.phase() == DeletionPhase::RevokingGrant
                &&& a matches DeletionAction::RevokeGrant { provider, access_token }
                &&& pre.grant() == Some(provider)
                &&& access_token@ == vstd::utf8::decode_utf8(bytes@)
            },
            _ => {
                &&& post.phase() == DeletionPhase::Finished
                &&& a matches DeletionAction::Finish(Err(e)) && unreadable_token(e)
            },
        },
        DeletionEvent::GrantRevoked(r) => match r {
            Err(e) => post.phase() == DeletionPhase::Finished && a == DeletionAction::Finish(Err(e)),
            Ok(()) => post.revoked() && removes_next(post, a),
        },
        DeletionEvent::TokenDeleted(r) => match r {
            Err(e) => post.phase() == DeletionPhase::Finished && a == DeletionAction::Finish(Err(e)),
            Ok(()) => post.token_deleted() && post.phase() == DeletionPhase::DeletingConnection && a
                == DeletionAction::DeleteConnection {
                connection_id: pre.connection_id(),
                user_id: pre.user_id(),
            },
        },
        DeletionEvent::ConnectionDeleted(r) => post.phase() == DeletionPhase::Finished && a
            == DeletionAction::Finish(r),
    }
}

/// A removal that fails before its last step has deleted nothing local: the
/// token row and the connection are both still there for a retry.
pub proof fn lemma_failure_keeps_rows(
    pre: ConnectionDeletion,
    event: DeletionEvent,
    post: ConnectionDeletion,
    a: DeletionAction,
    e: AppError,
)
    requires
        pre.ordered(),
        deletion_accepts(pre.phase(), event),
        deletion_transition(pre, event, post, a),
        a == DeletionAction::Finish(Err(e)),
        pre.phase() != DeletionPhase::DeletingConnection,
    ensures
        !post.token_deleted(),
{
}

/// A removal never deletes a grant's token row before the grant is revoked
/// (when a token was stored), and never deletes a connection that holds a
/// grant before the grant's token row is deleted; the grant is the one that
/// the connection held at lookup, kept to the end. A revocation is followed
/// by the deletion of that grant's token row, and a failed token deletion
/// ends the removal with its error, the connection left in place.
pub proof fn lemma_removal_order(
    pre: ConnectionDeletion,
    event: DeletionEvent,
    post: ConnectionDeletion,
    a: DeletionAction,
)
    requires
        pre.ordered(),
        deletion_accepts(pre.phase(), event),
        deletion_transition(pre, event, post, a),
    ensures
        post.ordered(),
        a is DeleteToken ==> !post.token_found() || post.revoked(),
        a is DeleteConnection ==> post.grant() is None || post.token_deleted(),
        !(event is ConnectionFound) ==> post.grant() == pre.grant(),
        (event matches DeletionEvent::GrantRevoked(Ok(_))) && pre.grant() is Some ==> (a
            == (DeletionAction::DeleteToken { user_id: pre.user_id(), provider: pre.grant()->0 })),
        (event matches DeletionEvent::TokenDeleted(Err(e)) ==> a == DeletionAction::Finish(Err(e))),
{
}

} // verus!
