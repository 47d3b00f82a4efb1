use indelible::domain::{IntegrationConnection, IntegrationProvider, JsonValue};
use indelible::dto::{
    ConnectMinifluxRequest, FieldViolation, IntegrationConnectionConfigDto, IntegrationConnectionDto,
    OnboardingResponse, OnboardingStatus, OnboardingStepInfo, OnboardingStepResponse,
};

fn connection(provider: IntegrationProvider, config: JsonValue) -> IntegrationConnection {
    IntegrationConnection {
        id: 0x67e5504410b1426f9247bb680e5fe0c8,
        user_id: 1,
        provider,
        config,
        status: "connected".into(),
        last_sync_at: Some(5),
        last_error: Some("e".into()),
        created_at: 9,
        updated_at: 10,
        version: 2,
    }
}

fn payload(d: &IntegrationConnectionConfigDto) -> (bool, String) {
    match d {
        IntegrationConnectionConfigDto::EmailIngest { address } => (true, address.clone()),
        IntegrationConnectionConfigDto::Other { provider_name } => (false, provider_name.clone()),
    }
}

#[test]
fn connection_views_carry_the_connection() {
    let d = IntegrationConnectionDto::from_with_pending(connection(IntegrationProvider::Miniflux, JsonValue::Null), 3);
    assert_eq!(d.id, "67e55044-10b1-426f-9247-bb680e5fe0c8");
    assert_eq!((d.provider, d.status.as_str(), d.pending_jobs), (IntegrationProvider::Miniflux, "connected", 3));
    assert_eq!((d.last_sync_at, d.last_error.as_deref(), d.created_at), (Some(5), Some("e"), 9));
    assert_eq!(payload(&d.config), (false, "miniflux".to_string()));
    let d0 = IntegrationConnectionDto::from_connection(connection(IntegrationProvider::Custom, JsonValue::Null));
    assert_eq!((d0.pending_jobs, payload(&d0.config)), (0, (false, "custom".to_string())));
}

#[test]
fn config_payloads_by_provider() {
    let raw = JsonValue::Object(vec![("address".into(), JsonValue::Text("in@x.test".into()))]);
    let p = |prov| payload(&IntegrationConnectionConfigDto::from_domain(&prov, &raw));
    assert_eq!(p(IntegrationProvider::EmailIngest), (true, "in@x.test".into()));
    assert_eq!(p(IntegrationProvider::Logseq), (false, "logseq".into()));
    assert_eq!(p(IntegrationProvider::BrowserExtension), (false, "browser_extension".into()));
    assert_eq!(
        payload(&IntegrationConnectionConfigDto::from_domain(&IntegrationProvider::EmailIngest, &JsonValue::Null)),
        (true, String::new())
    );
}

fn req(url: &str, key: &str) -> ConnectMinifluxRequest {
    ConnectMinifluxRequest { url: url.into(), api_key: key.into() }
}

#[test]
fn connect_requests_are_validated() {
    assert_eq!(req("https://miniflux.example.com", "secret-api-key-123").validate(), Ok(()));
    assert_eq!(req("not-a-valid-url", "secret-api-key-123").validate(), Err(vec![FieldViolation::UrlInvalid]));
    assert_eq!(req("https://miniflux.example.com", "").validate(), Err(vec![FieldViolation::ApiKeyLength]));
    assert_eq!(
        req("", "").validate(),
        Err(vec![FieldViolation::UrlInvalid, FieldViolation::UrlLength, FieldViolation::ApiKeyLength])
    );
    let long = format!("https://x.test/{}", "a".repeat(2040));
    assert_eq!(req(&long, "k").validate(), Err(vec![FieldViolation::UrlLength]));
    assert_eq!(req("https://x.test", &"k".repeat(513)).validate(), Err(vec![FieldViolation::ApiKeyLength]));
    assert_eq!(req("https://x.test", &"é".repeat(512)).validate(), Ok(()));
    let v = FieldViolation::ApiKeyLength;
    assert_eq!((v.field(), v.code(), v.message()), ("api_key", "length", Some("cannot be empty")));
    let u = FieldViolation::UrlInvalid;
    assert_eq!((u.field(), u.code(), u.message()), ("url", "url", Some("must be a valid URL")));
}

#[test]
fn onboarding_views_keep_every_step_in_order() {
    let status = OnboardingStatus {
        current_step: 2,
        completed: false,
        steps: vec![
            OnboardingStepInfo { step: 1, name: "profile".into(), completed: true },
            OnboardingStepInfo { step: 2, name: "sources".into(), completed: false },
        ],
    };
    let r = OnboardingResponse::from_status(status);
    assert_eq!((r.current_step, r.completed, r.steps.len()), (2, false, 2));
    assert_eq!((r.steps[0].step, r.steps[0].name.as_str(), r.steps[0].completed), (1, "profile", true));
    assert_eq!((r.steps[1].step, r.steps[1].name.as_str(), r.steps[1].completed), (2, "sources", false));
    let one = OnboardingStepResponse::from(OnboardingStepInfo { step: 3, name: "ai".into(), completed: true });
    assert_eq!((one.step, one.name.as_str(), one.completed), (3, "ai", true));
}
