use openai_codex_proxy::accounts;
use openai_codex_proxy::accounts::AccountHandle;
use openai_codex_proxy::accounts::AccountState;
use openai_codex_proxy::accounts::AccountUsageSnapshot;
use openai_codex_proxy::accounts::AuthFacts;
use openai_codex_proxy::accounts::CreateAccountRequest;
use openai_codex_proxy::accounts::RateLimits;
use openai_codex_proxy::accounts::ResolveAuthError;
use openai_codex_proxy::accounts::RouteError;
use openai_codex_proxy::accounts::StoredAccount;
use openai_codex_proxy::accounts::TokenFacts;
use openai_codex_proxy::accounts::UsageWindow;
use openai_codex_proxy::accounts::UsedPercent;
use openai_codex_proxy::clock;

fn account(state: AccountState, used_percent: Option<u8>, preference: i32) -> AccountHandle {
    AccountHandle::new(StoredAccount {
        id: "a".to_string(),
        state,
        used_percent,
        resets_at: None,
        preference,
        codex_home: "/home/a".to_string(),
    })
}

fn failures(handle: &AccountHandle) -> u32 {
    handle.summary_at(accounts::auth_snapshot(None), None, 0).recent_failures
}

fn percent(value: f64) -> UsedPercent {
    UsedPercent {
        bits: value.to_bits(),
        rounded: value.round() as u8,
        tenths: (value * 10.0) as i64,
        display: format!("{value:.0}%"),
    }
}

fn usage(primary: Option<f64>, resets_at: Option<i64>) -> AccountUsageSnapshot {
    AccountUsageSnapshot {
        limit_id: None,
        plan_type: None,
        primary_used_percent: primary.map(percent),
        primary_window_minutes: None,
        primary_resets_at: resets_at,
        secondary_used_percent: None,
        secondary_window_minutes: None,
        secondary_resets_at: None,
    }
}

#[test]
fn new_accounts_are_healthy() {
    assert_eq!(accounts::default_account_state(), AccountState::Healthy);
    assert_eq!(CreateAccountRequest::default().preference, 0);
    assert!(AccountState::Healthy.is_candidate());
    assert!(AccountState::CoolingDown.is_candidate());
    assert!(!AccountState::RateLimited.is_candidate());
    assert!(!AccountState::NeedsReauth.is_candidate());
    assert!(!AccountState::Disabled.is_candidate());
}

#[test]
fn state_names_are_those_of_debug() {
    for state in [
        AccountState::Healthy,
        AccountState::CoolingDown,
        AccountState::RateLimited,
        AccountState::NeedsReauth,
        AccountState::Disabled,
    ] {
        assert_eq!(state.name_str(), format!("{state:?}"));
    }
}

#[test]
fn tells_id_and_record() {
    let handle = account(AccountState::Healthy, Some(3), 4);
    assert_eq!(handle.id(), "a");
    let record = handle.record();
    assert_eq!(record.id, "a");
    assert_eq!(record.used_percent, Some(3));
    assert_eq!(record.preference, 4);
    assert_eq!(record.codex_home, "/home/a");
}

#[test]
fn scores_by_headroom_and_preference() {
    assert_eq!(account(AccountState::Healthy, None, 0).score_at(0), Some(100));
    assert_eq!(account(AccountState::Healthy, Some(40), 7).score_at(0), Some(67));
    assert_eq!(account(AccountState::CoolingDown, Some(40), 0).score_at(0), Some(40));
    assert_eq!(account(AccountState::Healthy, Some(84), 0).score_at(0), Some(16));
    assert_eq!(account(AccountState::Healthy, Some(85), 0).score_at(0), Some(-10));
    assert_eq!(account(AccountState::Healthy, Some(94), 0).score_at(0), Some(-19));
}

#[test]
fn takes_no_requests_near_the_limit() {
    assert_eq!(account(AccountState::Healthy, Some(95), 0).score_at(0), None);
    assert_eq!(account(AccountState::Healthy, Some(255), 0).score_at(0), None);
}

#[test]
fn takes_no_requests_in_a_bad_state() {
    for state in [AccountState::NeedsReauth, AccountState::Disabled] {
        let mut handle = account(state, None, 0);
        assert!(!handle.accepting_new_requests_at(i64::MAX));
        assert_eq!(handle.score_at(0), None);
        assert_eq!(handle.record().state, state);
    }
}

#[test]
fn failures_lower_the_score_until_a_success() {
    let mut handle = account(AccountState::Healthy, None, 0);
    handle.note_failure();
    handle.note_failure();
    assert_eq!(failures(&handle), 2);
    assert_eq!(handle.score_at(0), Some(60));
    handle.note_success();
    assert_eq!(failures(&handle), 0);
    assert_eq!(handle.score_at(0), Some(100));
}

#[test]
fn limited_accounts_rest_until_their_reset() {
    let mut handle = account(AccountState::Healthy, Some(10), 0);
    handle.note_rate_limited_at(Some(1000), Some(50), 5);
    assert_eq!(handle.record().state, AccountState::RateLimited);
    assert_eq!(handle.record().used_percent, Some(50));
    assert_eq!(handle.record().resets_at, Some(1000));
    assert!(!handle.accepting_new_requests_at(999));
    assert_eq!(handle.record().state, AccountState::RateLimited);
    assert!(handle.accepting_new_requests_at(1000));
    assert_eq!(handle.record().state, AccountState::Healthy);
    assert_eq!(handle.score_at(1000), Some(50));
}

#[test]
fn limited_accounts_rest_five_minutes_without_word() {
    let mut handle = account(AccountState::Healthy, Some(10), 0);
    handle.note_rate_limited_at(None, None, 1000);
    assert_eq!(handle.record().used_percent, Some(10));
    assert_eq!(handle.record().resets_at, Some(1300));
    assert!(!handle.accepting_new_requests_at(1299));
    assert!(handle.accepting_new_requests_at(1300));
}

#[test]
fn limits_are_noted_by_the_clock() {
    let mut handle = account(AccountState::Healthy, None, 0);
    let before = clock::current_unix_seconds();
    handle.note_rate_limited(None, None);
    let after = clock::current_unix_seconds();
    let end = handle.record().resets_at.unwrap();
    assert!(before + 300 <= end && end <= after + 300);
    assert!(!handle.accepting_new_requests());
    assert_eq!(handle.score(), None);
    handle.note_rate_limited(Some(1), None);
    assert!(handle.accepting_new_requests());
    assert_eq!(handle.score(), Some(100));
}

#[test]
fn clock_tells_the_time() {
    let by_chrono = clock::current_unix_seconds();
    let by_std = std::time::SystemTime::now()
        .duration_since(std::time::UNIX_EPOCH)
        .unwrap()
        .as_secs();
    assert!(by_chrono > 1_700_000_000);
    assert!((by_std as i64 - by_chrono).abs() <= 1);
}

#[test]
fn success_ends_a_rest() {
    let mut handle = account(AccountState::Healthy, None, 0);
    handle.note_rate_limited_at(Some(1000), None, 0);
    handle.note_success();
    assert_eq!(handle.record().state, AccountState::Healthy);
    assert!(handle.accepting_new_requests_at(0));
}

#[test]
fn success_does_not_heal_other_states() {
    let mut handle = account(AccountState::Disabled, None, 0);
    handle.note_success();
    assert_eq!(handle.record().state, AccountState::Disabled);
}

#[test]
fn lifting_a_limit_changes_no_score() {
    let mut handle = account(AccountState::Healthy, None, 3);
    handle.note_rate_limited_at(Some(10), None, 0);
    let first = handle.score_at(10);
    handle.clear_expired_rate_limit(10);
    assert_eq!(handle.score_at(10), first);
}

#[test]
fn knows_which_scores_fit() {
    assert!(account(AccountState::Healthy, None, i32::MAX - 100).can_score());
    assert!(!account(AccountState::Healthy, None, i32::MAX - 99).can_score());
    assert!(!account(AccountState::Healthy, None, i32::MAX - 99).can_score_at(0));
    assert!(account(AccountState::Healthy, Some(95), i32::MAX).can_score());
    assert!(account(AccountState::Disabled, None, i32::MAX).can_score());
    assert!(account(AccountState::CoolingDown, None, i32::MIN).can_score());
    let mut resting = account(AccountState::Healthy, None, i32::MAX);
    resting.note_rate_limited_at(Some(10), None, 0);
    assert!(resting.can_score_at(9));
    assert!(!resting.can_score_at(10));
    assert!(!resting.can_score());
}

#[test]
fn takes_over_looked_up_usage() {
    let mut handle = account(AccountState::Healthy, Some(1), 0);
    assert!(!handle.refresh_usage_state_at(None, 0));
    assert_eq!(handle.record().used_percent, Some(1));
    assert!(handle.refresh_usage_state_at(Some(&usage(Some(41.5), Some(77))), 0));
    assert_eq!(handle.record().used_percent, Some(42));
    assert_eq!(handle.record().resets_at, Some(77));
    assert!(handle.refresh_usage_state(Some(&usage(None, None))));
    assert_eq!(handle.record().used_percent, None);
    assert_eq!(handle.record().resets_at, None);
}

#[test]
fn usage_does_not_end_a_rest_early() {
    let mut handle = account(AccountState::Healthy, None, 0);
    handle.note_rate_limited_at(Some(100), None, 0);
    handle.refresh_usage_state_at(Some(&usage(Some(1.0), None)), 99);
    assert_eq!(handle.record().state, AccountState::RateLimited);
    handle.refresh_usage_state_at(Some(&usage(Some(1.0), None)), 100);
    assert_eq!(handle.record().state, AccountState::Healthy);
}

#[test]
fn summaries_tell_how_an_account_is_doing() {
    let mut handle = account(AccountState::Healthy, Some(5), 0);
    handle.note_failure();
    handle.note_rate_limited_at(Some(50), None, 0);
    let summary = handle.summary_at(accounts::auth_snapshot(None), None, 49);
    assert_eq!(summary.id, "a");
    assert_eq!(summary.state, AccountState::RateLimited);
    assert_eq!(summary.used_percent, Some(5));
    assert_eq!(summary.resets_at, Some(50));
    assert_eq!(summary.cooldown_until, Some(50));
    assert_eq!(summary.inflight, 0);
    assert_eq!(summary.recent_failures, 1);
    assert_eq!(summary.codex_home, "/home/a");
    assert!(summary.usage.is_none());
    let later = handle.summary_at(accounts::auth_snapshot(None), Some(usage(None, None)), 50);
    assert_eq!(later.cooldown_until, None);
    assert!(later.usage.is_some());
}

#[test]
fn snapshots_tell_who_is_logged_in() {
    let none = accounts::auth_snapshot(None);
    assert!(!none.authenticated);
    assert_eq!(none.auth_mode, None);
    assert_eq!(none.email, None);
    assert!(!none.fedramp);
    let some = accounts::auth_snapshot(Some(AuthFacts {
        auth_mode: "ChatGPT".to_string(),
        account_id: Some("ws".to_string()),
        email: Some("a@b".to_string()),
        user_id: None,
        plan_type_json: Some("\"plus\"".to_string()),
        fedramp: true,
    }));
    assert!(some.authenticated);
    assert_eq!(some.auth_mode, Some("chatgpt".to_string()));
    assert_eq!(some.account_id, Some("ws".to_string()));
    assert_eq!(some.email, Some("a@b".to_string()));
    assert_eq!(some.user_id, None);
    assert_eq!(some.plan_type, Some("plus".to_string()));
    assert!(some.fedramp);
}

#[test]
fn snapshots_tell_usage() {
    let snapshot = accounts::usage_snapshot(RateLimits {
        limit_id: Some("codex".to_string()),
        plan_type_json: Some("\"pro\"".to_string()),
        primary: Some(UsageWindow {
            used_percent: percent(12.34),
            window_minutes: Some(300),
            resets_at: Some(9),
        }),
        secondary: None,
    });
    assert_eq!(snapshot.limit_id, Some("codex".to_string()));
    assert_eq!(snapshot.plan_type, Some("pro".to_string()));
    let used = snapshot.primary_used_percent.unwrap();
    assert_eq!(f64::from_bits(used.bits), 12.34);
    assert_eq!(used.tenths, 123);
    assert_eq!(snapshot.primary_window_minutes, Some(300));
    assert_eq!(snapshot.primary_resets_at, Some(9));
    assert!(snapshot.secondary_used_percent.is_none());
    assert_eq!(snapshot.secondary_window_minutes, None);
    assert_eq!(snapshot.secondary_resets_at, None);
}

#[test]
fn resolves_tokens() {
    let none = accounts::resolve_upstream_auth(None);
    assert!(matches!(none, Err(ResolveAuthError::NotAuthenticated)));
    let failed = accounts::resolve_upstream_auth(Some(TokenFacts {
        token: Err("gone".to_string()),
        account_id: None,
        fedramp: false,
    }));
    match failed {
        Err(err) => assert_eq!(err.message(), "failed to resolve bearer token: gone"),
        Ok(_) => panic!("resolved"),
    }
    let auth = accounts::resolve_upstream_auth(Some(TokenFacts {
        token: Ok("tok".to_string()),
        account_id: Some("ws".to_string()),
        fedramp: true,
    }))
    .unwrap();
    assert_eq!(auth.bearer_token, "tok");
    assert_eq!(auth.chatgpt_account_id, Some("ws".to_string()));
    assert!(auth.is_fedramp_account);
}

#[test]
fn errors_say_what_is_wrong() {
    assert_eq!(ResolveAuthError::NotAuthenticated.message(), "account is not authenticated");
    assert_eq!(
        RouteError::NoAccountsConfigured.message(),
        "no upstream accounts are configured"
    );
    assert_eq!(
        RouteError::AccountAuthFailed { account_id: "x".to_string() }.message(),
        "failed to resolve auth for account x"
    );
    assert_eq!(
        RouteError::NoEligibleAccounts { requested_account_id: None }.message(),
        "no eligible authenticated account found for account id None"
    );
    assert_eq!(
        RouteError::NoEligibleAccounts { requested_account_id: Some("q\"".to_string()) }.message(),
        "no eligible authenticated account found for account id Some(\"q\\\"\")"
    );
}
