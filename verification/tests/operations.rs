use indelible::domain::{
    string_field, IntegrationConnection, IntegrationOAuthProvider, IntegrationOAuthToken,
    IntegrationProvider, JsonValue,
};
use indelible::error::{AppError, DomainError};
use indelible::operations::{
    integration_connection_config_from_tokens, CallbackAction,
    CallbackEvent, CompletedFlow, DeletionAction, DeletionEvent, IntegrationOperationsService,
    ProviderTokens,
};

fn connection(provider: IntegrationProvider) -> IntegrationConnection {
    IntegrationConnection {
        id: 5,
        user_id: 1,
        provider,
        config: JsonValue::Null,
        status: "active".into(),
        last_sync_at: None,
        last_error: None,
        created_at: 0,
        updated_at: 0,
        version: 0,
    }
}

fn token() -> IntegrationOAuthToken {
    IntegrationOAuthToken {
        id: 9,
        user_id: 1,
        provider: IntegrationOAuthProvider::Custom,
        access_token_enc: vec![1, 2, 3],
        refresh_token_enc: None,
        token_expires_at: None,
        extra: JsonValue::Null,
        created_at: 0,
        updated_at: 0,
    }
}

fn missing_cipher() -> AppError {
    AppError::ExternalService {
        service: "integration_oauth".into(),
        message: "auth.credential_key is required for integration OAuth flows".into(),
    }
}

#[test]
fn providers_need_a_cipher() {
    let with = IntegrationOperationsService::new(true, vec![IntegrationOAuthProvider::Custom]);
    assert_eq!(with.configured_oauth_providers(), vec![IntegrationOAuthProvider::Custom]);
    let without = IntegrationOperationsService::new(false, vec![IntegrationOAuthProvider::Custom]);
    assert!(without.configured_oauth_providers().is_empty());
}

#[test]
fn miniflux_settings_hold_url_and_key() {
    let svc = IntegrationOperationsService::new(false, Vec::new());
    let c = svc.setup_miniflux_connection(9, "https://mf".into(), "k".into());
    assert_eq!((c.user_id, c.provider, c.status.as_str()), (9, IntegrationProvider::Miniflux, "connected"));
    assert_eq!(string_field(&c.config, "url").as_deref(), Some("https://mf"));
    assert_eq!(string_field(&c.config, "api_key").as_deref(), Some("k"));
    let extra = JsonValue::Text("x".into());
    assert!(std::ptr::eq(integration_connection_config_from_tokens(IntegrationOAuthProvider::Custom, &extra), &extra));
}

#[test]
fn a_callback_stores_tokens_then_the_connection() {
    let svc = IntegrationOperationsService::new(true, vec![IntegrationOAuthProvider::Custom]);
    let mut cb = svc.callback(IntegrationOAuthProvider::Custom, "code", "state");
    match cb.step(CallbackEvent::Started) {
        CallbackAction::CompleteFlow { provider, code, state } => {
            assert_eq!(provider, IntegrationOAuthProvider::Custom);
            assert_eq!((code.as_str(), state.as_str()), ("code", "state"));
        }
        _ => panic!("expected the flow to complete"),
    }
    let flow = CompletedFlow {
        user_id: 3,
        provider: IntegrationOAuthProvider::Custom,
        tokens: ProviderTokens { access_token: "a".into(), refresh_token: None, expires_at: None, extra: JsonValue::Null },
    };
    assert!(matches!(cb.step(CallbackEvent::FlowCompleted(Ok(flow))), CallbackAction::StoreTokens { user_id: 3, .. }));
    assert_eq!(cb.completed().map(|f| f.tokens.access_token.as_str()), Some("a"));
    match cb.step(CallbackEvent::TokensStored(Ok(()))) {
        CallbackAction::StoreConnection { user_id, provider, status } => {
            assert_eq!((user_id, provider, status.as_str()), (3, IntegrationProvider::Custom, "active"));
        }
        _ => panic!("expected the connection to be stored"),
    }
    assert!(matches!(cb.step(CallbackEvent::ConnectionStored(Ok(connection(IntegrationProvider::Custom)))), CallbackAction::Finish(Ok(_))));
}

#[test]
fn a_callback_without_cipher_fails_before_the_flow() {
    let svc = IntegrationOperationsService::new(false, vec![]);
    let mut cb = svc.callback(IntegrationOAuthProvider::Custom, "c", "s");
    match cb.step(CallbackEvent::Started) {
        CallbackAction::Finish(Err(e)) => assert_eq!(e, missing_cipher()),
        _ => panic!("expected a failure"),
    }
}

#[test]
fn removal_revokes_then_deletes_token_then_connection() {
    let svc = IntegrationOperationsService::new(true, vec![IntegrationOAuthProvider::Custom]);
    let mut d = svc.delete_connection(1, 5);
    assert!(matches!(d.step(DeletionEvent::Started), DeletionAction::FindConnection { user_id: 1, connection_id: 5 }));
    assert!(matches!(
        d.step(DeletionEvent::ConnectionFound(Ok(Some(connection(IntegrationProvider::Custom))))),
        DeletionAction::FindToken { user_id: 1, provider: IntegrationOAuthProvider::Custom }
    ));
    match d.step(DeletionEvent::TokenFound(Ok(Some(token())))) {
        DeletionAction::OpenToken { sealed } => assert_eq!(sealed, vec![1, 2, 3]),
        _ => panic!("expected the token to be opened"),
    }
    match d.step(DeletionEvent::TokenOpened(Some("secret".as_bytes().to_vec()))) {
        DeletionAction::RevokeGrant { access_token, .. } => assert_eq!(access_token, "secret"),
        _ => panic!("expected the grant to be revoked"),
    }
    assert!(matches!(d.step(DeletionEvent::GrantRevoked(Ok(()))), DeletionAction::DeleteToken { user_id: 1, .. }));
    assert!(matches!(d.step(DeletionEvent::TokenDeleted(Ok(()))), DeletionAction::DeleteConnection { connection_id: 5, user_id: 1 }));
    assert!(matches!(d.step(DeletionEvent::ConnectionDeleted(Ok(()))), DeletionAction::Finish(Ok(()))));
}

#[test]
fn removal_without_grant_deletes_the_connection_only() {
    let svc = IntegrationOperationsService::new(false, vec![]);
    let mut d = svc.delete_connection(1, 5);
    d.step(DeletionEvent::Started);
    assert!(matches!(
        d.step(DeletionEvent::ConnectionFound(Ok(Some(connection(IntegrationProvider::Miniflux))))),
        DeletionAction::DeleteConnection { .. }
    ));
    let mut d = svc.delete_connection(1, 5);
    d.step(DeletionEvent::Started);
    d.step(DeletionEvent::ConnectionFound(Ok(Some(connection(IntegrationProvider::Custom)))));
    assert!(matches!(d.step(DeletionEvent::TokenFound(Ok(None))), DeletionAction::DeleteToken { .. }));
}

#[test]
fn removal_failures_keep_what_a_retry_needs() {
    let svc = IntegrationOperationsService::new(true, vec![]);
    let mut d = svc.delete_connection(1, 0x1);
    d.step(DeletionEvent::Started);
    match d.step(DeletionEvent::ConnectionFound(Ok(None))) {
        DeletionAction::Finish(Err(e)) => assert_eq!(
            e,
            AppError::Domain(DomainError::NotFound {
                entity: "IntegrationConnection".into(),
                id: "00000000-0000-0000-0000-000000000001".into()
            })
        ),
        _ => panic!("expected not found"),
    }
    let mut d = svc.delete_connection(1, 5);
    d.step(DeletionEvent::Started);
    d.step(DeletionEvent::ConnectionFound(Ok(Some(connection(IntegrationProvider::Custom)))));
    d.step(DeletionEvent::TokenFound(Ok(Some(token()))));
    match d.step(DeletionEvent::TokenOpened(Some(vec![0xff, 0xfe]))) {
        DeletionAction::Finish(Err(AppError::ExternalService { message, .. })) => {
            assert_eq!(message, "stored provider token could not be decrypted")
        }
        _ => panic!("expected an unreadable token"),
    }
    let mut d = svc.delete_connection(1, 5);
    d.step(DeletionEvent::Started);
    d.step(DeletionEvent::ConnectionFound(Ok(Some(connection(IntegrationProvider::Custom)))));
    d.step(DeletionEvent::TokenFound(Ok(Some(token()))));
    d.step(DeletionEvent::TokenOpened(Some(b"t".to_vec())));
    let err = AppError::ExternalService { service: "custom".into(), message: "revoke failed".into() };
    assert!(matches!(d.step(DeletionEvent::GrantRevoked(Err(err.clone()))), DeletionAction::Finish(Err(e)) if e == err));
    let no_cipher = IntegrationOperationsService::new(false, vec![]);
    let mut d = no_cipher.delete_connection(1, 5);
    d.step(DeletionEvent::Started);
    d.step(DeletionEvent::ConnectionFound(Ok(Some(connection(IntegrationProvider::Custom)))));
    assert!(matches!(d.step(DeletionEvent::TokenFound(Ok(Some(token())))), DeletionAction::Finish(Err(e)) if e == missing_cipher()));
}
