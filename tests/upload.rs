use windows_agent::auth::TokenStore;
use windows_agent::config::UsageConfigStore;
use windows_agent::models::{UploadFailureReason, UploadResult, UsageBatch, UsageSession};
use windows_agent::storage::UsageBatchStore;
use windows_agent::uploader::{
    classify_status, next_backoff, upload_config, AttemptOutcome, FollowUp, RetryDecision,
    RetryState, UploadRun, UploadStep,
};

const NOW: i64 = 1_700_000_000_000;

fn one_batch() -> UsageBatch {
    UsageBatch {
        device_id: 7,
        sent_at: NOW,
        sessions: vec![UsageSession {
            package: "a".to_string(),
            window_start: 0,
            window_end: 5_000,
            total_ms: 5_000,
            foreground: true,
        }],
        network_deltas: Vec::new(),
        status: None,
    }
}

fn fresh_tokens() -> TokenStore {
    let mut t = TokenStore::new(None);
    t.save_tokens("old-access".to_string(), "refresh-1".to_string(), 3_600, NOW);
    t
}

fn queue_with(n: usize) -> UsageBatchStore {
    let mut q = UsageBatchStore::new(Vec::new());
    for _ in 0..n {
        assert!(q.enqueue(one_batch()));
    }
    q
}

fn expect_post(step: UploadStep) -> (String, String) {
    match step {
        UploadStep::Post { body, token } => (body, token),
        other => panic!("expected a post, got {:?}", other),
    }
}

#[test]
fn refresh_after_401_then_success() {
    let mut q = queue_with(1);
    let mut tokens = fresh_tokens();
    let mut run = UploadRun::new();
    let (body, token) = expect_post(run.advance(&q, &tokens, NOW).unwrap());
    assert_eq!(token, "old-access");
    assert_eq!(body, one_batch().to_json_string().unwrap());
    let f = run.on_posted(Some(UploadFailureReason::Unauthorized), &mut q, &mut tokens);
    assert_eq!(f, FollowUp::Refresh);
    let ok = tokens.apply_refresh(200, Some("new-access".to_string()), None, None, NOW);
    assert!(ok);
    assert_eq!(run.on_refreshed(ok, &mut tokens), FollowUp::Continue);
    let (_, token) = expect_post(run.advance(&q, &tokens, NOW).unwrap());
    assert_eq!(token, "new-access");
    assert_eq!(run.on_posted(None, &mut q, &mut tokens), FollowUp::Continue);
    match run.advance(&q, &tokens, NOW).unwrap() {
        UploadStep::Finish(r) => {
            assert_eq!(r, UploadResult { uploaded_batches: 1, failure_reason: None })
        },
        other => panic!("expected finish, got {:?}", other),
    }
    assert_eq!(q.queue_size(), 0);
    assert_eq!(tokens.access_token(), Some("new-access".to_string()));
    assert_eq!(tokens.refresh_token(), Some("refresh-1".to_string()));
}

#[test]
fn second_401_after_refresh_clears_tokens() {
    let mut q = queue_with(1);
    let mut tokens = fresh_tokens();
    let mut run = UploadRun::new();
    expect_post(run.advance(&q, &tokens, NOW).unwrap());
    assert_eq!(
        run.on_posted(Some(UploadFailureReason::Unauthorized), &mut q, &mut tokens),
        FollowUp::Refresh
    );
    let ok = tokens.apply_refresh(200, Some("new-access".to_string()), None, None, NOW);
    assert_eq!(run.on_refreshed(ok, &mut tokens), FollowUp::Continue);
    expect_post(run.advance(&q, &tokens, NOW).unwrap());
    let f = run.on_posted(Some(UploadFailureReason::Unauthorized), &mut q, &mut tokens);
    assert_eq!(
        f,
        FollowUp::Finish(UploadResult {
            uploaded_batches: 0,
            failure_reason: Some(UploadFailureReason::Unauthorized)
        })
    );
    assert!(!tokens.has_tokens());
    assert_eq!(q.queue_size(), 1);
}

#[test]
fn server_error_keeps_the_batch() {
    let mut q = queue_with(2);
    let mut tokens = fresh_tokens();
    let mut run = UploadRun::new();
    expect_post(run.advance(&q, &tokens, NOW).unwrap());
    assert_eq!(run.on_posted(None, &mut q, &mut tokens), FollowUp::Continue);
    expect_post(run.advance(&q, &tokens, NOW).unwrap());
    let f = run.on_posted(Some(UploadFailureReason::ServerError), &mut q, &mut tokens);
    assert_eq!(
        f,
        FollowUp::Finish(UploadResult {
            uploaded_batches: 1,
            failure_reason: Some(UploadFailureReason::ServerError)
        })
    );
    assert_eq!(q.queue_size(), 1);
    assert!(tokens.has_tokens());
}

#[test]
fn missing_token_stops_without_consuming() {
    let q = queue_with(1);
    let tokens = TokenStore::new(None);
    let mut run = UploadRun::new();
    match run.advance(&q, &tokens, NOW).unwrap() {
        UploadStep::Finish(r) => assert_eq!(r.failure_reason, Some(UploadFailureReason::MissingToken)),
        other => panic!("expected finish, got {:?}", other),
    }
    assert_eq!(q.queue_size(), 1);
}

#[test]
fn expired_token_refreshes_once() {
    let q = queue_with(1);
    let mut tokens = TokenStore::new(None);
    tokens.save_tokens("a".to_string(), "r".to_string(), 100, 0);
    let mut run = UploadRun::new();
    assert!(matches!(run.advance(&q, &tokens, NOW).unwrap(), UploadStep::Refresh));
    let ok = tokens.apply_refresh(500, None, None, None, NOW);
    assert!(!ok);
    assert!(tokens.has_tokens());
    assert_eq!(
        run.on_refreshed(ok, &mut tokens),
        FollowUp::Finish(UploadResult {
            uploaded_batches: 0,
            failure_reason: Some(UploadFailureReason::TokenExpired)
        })
    );
}

#[test]
fn empty_queue_finishes_at_once() {
    let q = queue_with(0);
    let tokens = fresh_tokens();
    let mut run = UploadRun::new();
    match run.advance(&q, &tokens, NOW).unwrap() {
        UploadStep::Finish(r) => assert_eq!(r, UploadResult { uploaded_batches: 0, failure_reason: None }),
        other => panic!("expected finish, got {:?}", other),
    }
}

#[test]
fn missing_config_result() {
    let r = upload_config(&UsageConfigStore::new(None));
    assert_eq!(
        r.err(),
        Some(UploadResult { uploaded_batches: 0, failure_reason: Some(UploadFailureReason::MissingConfig) })
    );
}

#[test]
fn transient_503_then_success() {
    let mut s = RetryState::new();
    assert_eq!(s.on_attempt(AttemptOutcome::Response(503)), RetryDecision::RetryAfter(1_000));
    assert_eq!(s.on_attempt(AttemptOutcome::Response(503)), RetryDecision::RetryAfter(2_000));
    assert_eq!(s.on_attempt(AttemptOutcome::Response(200)), RetryDecision::Done(None));
}

#[test]
fn persistent_500_gives_up_after_three_attempts() {
    let mut s = RetryState::new();
    assert_eq!(s.on_attempt(AttemptOutcome::Response(500)), RetryDecision::RetryAfter(1_000));
    assert_eq!(s.on_attempt(AttemptOutcome::Response(500)), RetryDecision::RetryAfter(2_000));
    assert_eq!(
        s.on_attempt(AttemptOutcome::Response(500)),
        RetryDecision::Done(Some(UploadFailureReason::NetworkError))
    );
}

#[test]
fn non_transient_statuses_stop_at_once() {
    let mut s = RetryState::new();
    assert_eq!(
        s.on_attempt(AttemptOutcome::Response(401)),
        RetryDecision::Done(Some(UploadFailureReason::Unauthorized))
    );
    let mut s = RetryState::new();
    assert_eq!(
        s.on_attempt(AttemptOutcome::Response(404)),
        RetryDecision::Done(Some(UploadFailureReason::ServerError))
    );
    let mut s = RetryState::new();
    assert_eq!(s.on_attempt(AttemptOutcome::TransportError), RetryDecision::RetryAfter(1_000));
    assert_eq!(s.on_attempt(AttemptOutcome::TransportError), RetryDecision::RetryAfter(2_000));
    assert_eq!(
        s.on_attempt(AttemptOutcome::TransportError),
        RetryDecision::Done(Some(UploadFailureReason::NetworkError))
    );
}

#[test]
fn status_classification() {
    assert_eq!(classify_status(200), None);
    assert_eq!(classify_status(204), None);
    assert_eq!(classify_status(401), Some(UploadFailureReason::Unauthorized));
    assert_eq!(classify_status(408), Some(UploadFailureReason::NetworkError));
    assert_eq!(classify_status(504), Some(UploadFailureReason::NetworkError));
    assert_eq!(classify_status(505), Some(UploadFailureReason::ServerError));
    assert_eq!(classify_status(400), Some(UploadFailureReason::ServerError));
}

#[test]
fn backoff_doubles_up_to_ten_seconds() {
    assert_eq!(next_backoff(1_000), 2_000);
    assert_eq!(next_backoff(4_000), 8_000);
    assert_eq!(next_backoff(8_000), 10_000);
    assert_eq!(next_backoff(10_000), 10_000);
    assert_eq!(next_backoff(u64::MAX), 10_000);
}

#[test]
fn retryable_reasons() {
    assert!(UploadFailureReason::MissingConfig.retryable());
    assert!(UploadFailureReason::MissingToken.retryable());
    assert!(UploadFailureReason::TokenExpired.retryable());
    assert!(!UploadFailureReason::Unauthorized.retryable());
    assert!(!UploadFailureReason::NetworkError.retryable());
    assert!(!UploadFailureReason::ServerError.retryable());
}
