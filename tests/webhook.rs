use automated_deployments::deploy::{automation_arguments, automation_program, DeploymentOutcome, DeploymentStatus};
use automated_deployments::error::WebhookError;
use automated_deployments::handler::{deployment_report, handle_webhook, DispatcherConfig, WebhookDecision, WebhookRequest};
use automated_deployments::signature::hex_encode;
use automated_deployments::targets::TargetMapping;
use hmac::{Hmac, Mac};
use sha2::Sha256;

const SECRET: &str = "shared webhook secret";

fn sign(secret: &str, body: &[u8]) -> String {
    let mut mac = Hmac::<Sha256>::new_from_slice(secret.as_bytes()).unwrap();
    mac.update(body);
    let digest = mac.finalize().into_bytes().to_vec();
    String::from_utf8(hex_encode(&digest)).unwrap()
}

fn config() -> DispatcherConfig {
    DispatcherConfig {
        secret: Some(SECRET.as_bytes().to_vec()),
        targets: TargetMapping::from_config("org/app=app_tag").unwrap(),
        recipients: "ops@example.org,dev@example.org".to_string(),
    }
}

fn payload(action: &str, merged: &str, repository: &str) -> Vec<u8> {
    format!(
        "{{\"action\":\"{}\",\"pull_request\":{{\"merged\":{}}},\"repository\":{{\"full_name\":\"{}\"}}}}",
        action, merged, repository
    )
    .into_bytes()
}

fn signed(body: Vec<u8>) -> WebhookRequest {
    let header = format!("sha256={}", sign(SECRET, &body));
    WebhookRequest { signature: Some(header.into_bytes()), body }
}

#[test]
fn merged_pull_request_of_configured_repository_deploys() {
    let cfg = config();
    let d = handle_webhook(&cfg, &signed(payload("closed", "true", "org/app")));
    assert_eq!(
        d,
        WebhookDecision::Deploy { repository: "org/app".to_string(), target: "app_tag".to_string() }
    );
    assert_eq!(d.status_code(), 200);
    assert_eq!(
        d.response_text(&cfg.recipients),
        "Redeployment will be attempted - results will be emailed to ops@example.org,dev@example.org."
    );
    let args = automation_arguments(&"app_tag".to_string());
    assert_eq!(automation_program(), "ansible-playbook");
    assert_eq!(
        args,
        vec!["playbook.yml", "-i", "inventories/from_controller.yaml", "-u", "controller", "--tags", "app_tag"]
    );
    let outcome = DeploymentOutcome::from_exit("app_tag".to_string(), true, "ok\n".to_string(), String::new());
    let report = deployment_report(&cfg, &"org/app".to_string(), &outcome);
    assert!(report.body.contains("success"));
    assert_eq!(report.body, "Attempt to redeploy org/app: successok\n");
    assert_eq!(report.recipients, vec!["ops@example.org", "dev@example.org"]);
    assert_eq!(report.subject, "Result from automated deployment API");
}

#[test]
fn unmerged_pull_request_sends_one_skip_notification() {
    let cfg = config();
    let d = handle_webhook(&cfg, &signed(payload("closed", "false", "org/app")));
    assert_eq!(d.status_code(), 200);
    assert_eq!(d.response_text(&cfg.recipients), "Not merged, no deployment attempted.");
    match d {
        WebhookDecision::NotMerged(m) => {
            assert_eq!(m.body, "Pull request on org/app was not merged, no deployment attempted.");
            assert_eq!(m.subject, "Result from automated deployment API");
            assert_eq!(m.recipients, vec!["ops@example.org", "dev@example.org"]);
        }
        other => panic!("unexpected decision {:?}", other),
    }
}

#[test]
fn missing_signature_is_forbidden() {
    let cfg = config();
    let req = WebhookRequest { signature: None, body: payload("closed", "true", "org/app") };
    let d = handle_webhook(&cfg, &req);
    assert_eq!(d, WebhookDecision::Rejected(WebhookError::MissingSignature));
    assert_eq!(d.status_code(), 403);
    assert_eq!(d.response_text(&cfg.recipients), "Required header not provided.");
}

#[test]
fn bad_signature_on_malformed_body_is_forbidden() {
    let cfg = config();
    let req = WebhookRequest { signature: Some(b"sha256=0000".to_vec()), body: b"{not json".to_vec() };
    let d = handle_webhook(&cfg, &req);
    assert_eq!(d, WebhookDecision::Rejected(WebhookError::SignatureMismatch));
    assert_eq!(d.status_code(), 403);
    assert_eq!(d.response_text(&cfg.recipients), "Invalid token.");
}

#[test]
fn bad_signature_on_well_formed_body_is_forbidden() {
    let cfg = config();
    let body = payload("closed", "true", "org/app");
    let header = format!("sha256={}", sign("another secret", &body));
    let d = handle_webhook(&cfg, &WebhookRequest { signature: Some(header.into_bytes()), body });
    assert_eq!(d, WebhookDecision::Rejected(WebhookError::SignatureMismatch));
}

#[test]
fn flipped_body_byte_fails_verification() {
    let cfg = config();
    let body = payload("closed", "true", "org/app");
    let header = format!("sha256={}", sign(SECRET, &body));
    let mut flipped = body.clone();
    flipped[3] ^= 1;
    let d = handle_webhook(&cfg, &WebhookRequest { signature: Some(header.into_bytes()), body: flipped });
    assert_eq!(d.status_code(), 403);
}

#[test]
fn signature_without_marker_and_with_blanks_is_accepted() {
    let cfg = config();
    let body = payload("opened", "false", "org/app");
    let header = format!(" \t{}  ", sign(SECRET, &body));
    let d = handle_webhook(&cfg, &WebhookRequest { signature: Some(header.into_bytes()), body });
    assert_eq!(d, WebhookDecision::NothingToDo);
}

#[test]
fn undecodable_signature_is_forbidden() {
    let cfg = config();
    let req = WebhookRequest { signature: Some(vec![0x73, 0x80, 0x61]), body: b"{}".to_vec() };
    let d = handle_webhook(&cfg, &req);
    assert_eq!(d, WebhookDecision::Rejected(WebhookError::UndecodableSignature));
    assert_eq!(d.status_code(), 403);
    assert_eq!(d.response_text(&cfg.recipients), "Unable to decode signature header.");
}

#[test]
fn missing_secret_is_a_server_error() {
    let mut cfg = config();
    cfg.secret = None;
    let d = handle_webhook(&cfg, &signed(payload("closed", "true", "org/app")));
    assert_eq!(d, WebhookDecision::Rejected(WebhookError::SecretUnavailable));
    assert_eq!(d.status_code(), 500);
    assert_eq!(d.response_text(&cfg.recipients), "Unable to verify token.");
}

#[test]
fn opened_pull_request_needs_nothing() {
    let cfg = config();
    let d = handle_webhook(&cfg, &signed(payload("opened", "true", "org/app")));
    assert_eq!(d, WebhookDecision::NothingToDo);
    assert_eq!(d.status_code(), 200);
    assert_eq!(d.response_text(&cfg.recipients), "Nothing to do.");
}

#[test]
fn unconfigured_repository_is_a_bad_request() {
    let cfg = config();
    let d = handle_webhook(&cfg, &signed(payload("closed", "true", "org/other")));
    assert_eq!(d, WebhookDecision::Rejected(WebhookError::UnconfiguredRepository("org/other".to_string())));
    assert_eq!(d.status_code(), 400);
    assert_eq!(d.response_text(&cfg.recipients), "org/other is not configured for automated deployment.");
}

#[test]
fn absent_merged_flag_counts_as_not_merged() {
    let cfg = config();
    let body = b"{\"action\":\"closed\",\"pull_request\":{},\"repository\":{\"full_name\":\"org/app\"}}".to_vec();
    let d = handle_webhook(&cfg, &signed(body));
    assert!(matches!(d, WebhookDecision::NotMerged(_)));
}

#[test]
fn malformed_json_is_a_bad_request() {
    let cfg = config();
    let d = handle_webhook(&cfg, &signed(b"{\"action\":".to_vec()));
    assert_eq!(d, WebhookDecision::Rejected(WebhookError::MalformedJson));
    assert_eq!(d.status_code(), 400);
    assert_eq!(d.response_text(&cfg.recipients), "Unable to get body of request as json.");
}

#[test]
fn missing_action_is_a_bad_request() {
    let cfg = config();
    let body = b"{\"pull_request\":{\"merged\":true},\"repository\":{\"full_name\":\"org/app\"}}".to_vec();
    let d = handle_webhook(&cfg, &signed(body));
    assert_eq!(d, WebhookDecision::Rejected(WebhookError::MissingAction));
    assert_eq!(d.response_text(&cfg.recipients), "Unable to get 'action' field from webhook body.");
}

#[test]
fn non_string_action_is_a_bad_request() {
    let cfg = config();
    let body = b"{\"action\":7,\"pull_request\":{\"merged\":true},\"repository\":{\"full_name\":\"org/app\"}}".to_vec();
    let d = handle_webhook(&cfg, &signed(body));
    assert_eq!(d, WebhookDecision::Rejected(WebhookError::MissingAction));
}

#[test]
fn missing_pull_request_is_a_bad_request() {
    let cfg = config();
    let body = b"{\"action\":\"closed\",\"repository\":{\"full_name\":\"org/app\"}}".to_vec();
    let d = handle_webhook(&cfg, &signed(body));
    assert_eq!(d, WebhookDecision::Rejected(WebhookError::MissingPullRequest));
    assert_eq!(d.status_code(), 400);
    assert_eq!(
        d.response_text(&cfg.recipients),
        "Unable to get 'pull_request' field from webhook body."
    );
}

#[test]
fn missing_repository_is_a_bad_request() {
    let cfg = config();
    let body = b"{\"action\":\"closed\",\"pull_request\":{\"merged\":true},\"repository\":{}}".to_vec();
    let d = handle_webhook(&cfg, &signed(body));
    assert_eq!(d, WebhookDecision::Rejected(WebhookError::MissingRepository));
    assert_eq!(d.status_code(), 400);
    assert_eq!(d.response_text(&cfg.recipients), "Unable to get repository field from webhook.");
    let body = b"{\"action\":\"closed\",\"pull_request\":{\"merged\":true}}".to_vec();
    let d = handle_webhook(&cfg, &signed(body));
    assert_eq!(d, WebhookDecision::Rejected(WebhookError::MissingRepository));
}

#[test]
fn failed_and_unstartable_runs_are_reported() {
    let cfg = config();
    let failed = DeploymentOutcome::from_exit("app_tag".to_string(), false, "out".to_string(), "err".to_string());
    assert_eq!(failed.status, DeploymentStatus::Failure);
    let report = deployment_report(&cfg, &"org/app".to_string(), &failed);
    assert_eq!(report.body, "Attempt to redeploy org/app: failureouterr");
    let broken = DeploymentOutcome::from_spawn_error("app_tag".to_string(), "No such file or directory".to_string());
    assert_eq!(broken.status_text(), "No such file or directory");
    assert_eq!(broken.standard_output, None);
    let report = deployment_report(&cfg, &"org/app".to_string(), &broken);
    assert_eq!(report.body, "Attempt to redeploy org/app: No such file or directory");
}
