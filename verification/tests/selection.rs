use openai_codex_proxy::accounts::AccountState;
use openai_codex_proxy::accounts::AccountUsageSnapshot;
use openai_codex_proxy::accounts::CreateAccountRequest;
use openai_codex_proxy::accounts::ResolveAuthError;
use openai_codex_proxy::accounts::ResolvedUpstreamAuth;
use openai_codex_proxy::accounts::RouteError;
use openai_codex_proxy::accounts::StoredAccount;
use openai_codex_proxy::accounts::UsedPercent;
use openai_codex_proxy::accounts::auth_snapshot;
use openai_codex_proxy::ids;
use openai_codex_proxy::registry::AccountRegistry;
use openai_codex_proxy::selection::SelectedAccount;
use openai_codex_proxy::selection::SelectionStep;
use openai_codex_proxy::selection::resume_with_usage;

fn stored(id: &str, preference: i32) -> StoredAccount {
    StoredAccount {
        id: id.to_string(),
        state: AccountState::Healthy,
        used_percent: None,
        resets_at: None,
        preference,
        codex_home: format!("/homes/{id}"),
    }
}

fn registry(items: &[(&str, i32)]) -> AccountRegistry {
    AccountRegistry::load_or_create(items.iter().map(|(id, p)| stored(id, *p)).collect())
}

fn token() -> ResolvedUpstreamAuth {
    ResolvedUpstreamAuth {
        bearer_token: "tok".to_string(),
        chatgpt_account_id: None,
        is_fedramp_account: false,
    }
}

fn usage(tenths: i64, resets_at: Option<i64>) -> AccountUsageSnapshot {
    AccountUsageSnapshot {
        limit_id: None,
        plan_type: None,
        primary_used_percent: None,
        primary_window_minutes: None,
        primary_resets_at: None,
        secondary_used_percent: Some(UsedPercent {
            bits: 0,
            rounded: 0,
            tenths,
            display: String::new(),
        }),
        secondary_window_minutes: None,
        secondary_resets_at: resets_at,
    }
}

struct World {
    asleep: Vec<usize>,
    broken: Vec<usize>,
    usages: Vec<Option<AccountUsageSnapshot>>,
    asked: Vec<String>,
}

fn world() -> World {
    World { asleep: Vec::new(), broken: Vec::new(), usages: Vec::new(), asked: Vec::new() }
}

fn pick(
    registry: &mut AccountRegistry,
    world: &mut World,
    requested: Option<&str>,
    session: Option<&str>,
    excluded: &[&str],
) -> Result<SelectedAccount, RouteError> {
    let excluded: Vec<String> = excluded.iter().map(|s| s.to_string()).collect();
    let mut step = registry.select_account(requested, session, &excluded).unwrap();
    loop {
        step = match step {
            SelectionStep::Done(result) => return result,
            SelectionStep::ResolveAuth(wait) => {
                let account = wait.account();
                world.asked.push(format!("auth {account}"));
                let auth = if world.asleep.contains(&account) {
                    Err(ResolveAuthError::NotAuthenticated)
                } else if world.broken.contains(&account) {
                    Err(ResolveAuthError::Token("io".to_string()))
                } else {
                    Ok(token())
                };
                registry.resume_with_auth(wait, auth)
            }
            SelectionStep::FetchUsage(wait) => {
                let account = wait.account();
                world.asked.push(format!("usage {account}"));
                let usage = world.usages.get(account).and_then(|usage| usage.as_ref());
                resume_with_usage(wait, usage)
            }
        };
    }
}

#[test]
fn without_accounts_nothing_is_chosen() {
    let mut registry = registry(&[]);
    let result = pick(&mut registry, &mut world(), None, None, &[]);
    assert!(matches!(result, Err(RouteError::NoAccountsConfigured)));
}

#[test]
fn highest_score_is_chosen() {
    let mut registry = registry(&[("b", 1), ("a", 5), ("c", 3)]);
    let chosen = pick(&mut registry, &mut world(), None, None, &[]).unwrap();
    assert_eq!(chosen.lease.account_id(), "a");
    assert_eq!(chosen.lease.score(), 105);
    assert_eq!(chosen.auth.bearer_token, "tok");
}

#[test]
fn equal_scores_go_by_id() {
    let mut registry = registry(&[("c", 0), ("a", 0), ("b", 0)]);
    let chosen = pick(&mut registry, &mut world(), None, None, &[]).unwrap();
    assert_eq!(chosen.lease.account_id(), "a");
}

#[test]
fn load_is_spread_over_accounts() {
    let mut registry = registry(&[("a", 0), ("b", 0)]);
    let first = pick(&mut registry, &mut world(), None, None, &[]).unwrap();
    let second = pick(&mut registry, &mut world(), None, None, &[]).unwrap();
    assert_eq!(first.lease.account_id(), "a");
    assert_eq!(second.lease.account_id(), "b");
    let third = pick(&mut registry, &mut world(), None, None, &[]).unwrap();
    assert_eq!(third.lease.account_id(), "a");
    assert_eq!(third.lease.score(), 90);
}

#[test]
fn returned_leases_leave_no_trace() {
    let mut registry = registry(&[("a", 0)]);
    let chosen = pick(&mut registry, &mut world(), None, None, &[]).unwrap();
    assert_eq!(registry.summary(0, auth_snapshot(None), None).unwrap().inflight, 1);
    chosen.lease.release(&mut registry);
    assert_eq!(registry.summary(0, auth_snapshot(None), None).unwrap().inflight, 0);
    let again = pick(&mut registry, &mut world(), None, None, &[]).unwrap();
    assert_eq!(again.lease.score(), 100);
}

#[test]
fn leases_tell_the_account_of_the_outcome() {
    let mut registry = registry(&[("a", 0)]);
    let chosen = pick(&mut registry, &mut world(), None, None, &[]).unwrap();
    chosen.lease.note_failure(&mut registry);
    assert_eq!(registry.summary(0, auth_snapshot(None), None).unwrap().recent_failures, 1);
    chosen.lease.note_success(&mut registry);
    assert_eq!(registry.summary(0, auth_snapshot(None), None).unwrap().recent_failures, 0);
}

#[test]
fn accounts_that_are_not_logged_in_are_passed_over() {
    let mut registry = registry(&[("a", 9), ("b", 0)]);
    let mut world = world();
    world.asleep = vec![0];
    let chosen = pick(&mut registry, &mut world, None, None, &[]).unwrap();
    assert_eq!(chosen.lease.account_id(), "b");
    assert_eq!(world.asked, vec!["auth 0", "auth 1"]);
}

#[test]
fn a_broken_token_fails_the_request() {
    let mut registry = registry(&[("a", 9), ("b", 0)]);
    let mut world = world();
    world.broken = vec![0];
    match pick(&mut registry, &mut world, None, None, &[]) {
        Err(RouteError::AccountAuthFailed { account_id }) => assert_eq!(account_id, "a"),
        _ => panic!("unexpected"),
    }
}

#[test]
fn nobody_logged_in_is_an_error() {
    let mut registry = registry(&[("a", 9), ("b", 0)]);
    let mut world = world();
    world.asleep = vec![0, 1];
    match pick(&mut registry, &mut world, None, None, &[]) {
        Err(RouteError::NoEligibleAccounts { requested_account_id }) => {
            assert_eq!(requested_account_id, None)
        }
        _ => panic!("unexpected"),
    }
}

#[test]
fn the_requested_account_is_chosen() {
    let mut registry = registry(&[("a", 9), ("b", 0)]);
    let chosen = pick(&mut registry, &mut world(), Some("b"), None, &[]).unwrap();
    assert_eq!(chosen.lease.account_id(), "b");
    match pick(&mut registry, &mut world(), Some("z"), None, &[]) {
        Err(RouteError::NoEligibleAccounts { requested_account_id }) => {
            assert_eq!(requested_account_id, Some("z".to_string()))
        }
        _ => panic!("unexpected"),
    }
}

#[test]
fn a_requested_account_that_turned_away_is_not_chosen() {
    let mut registry = registry(&[("a", 9), ("b", 0)]);
    let result = pick(&mut registry, &mut world(), Some("a"), None, &["a"]);
    assert!(matches!(result, Err(RouteError::NoEligibleAccounts { .. })));
}

#[test]
fn a_request_that_all_turned_away_finds_none() {
    let mut registry = registry(&[("a", 9), ("b", 0)]);
    registry.bind_session_affinity("s", "a");
    let mut world = world();
    let result = pick(&mut registry, &mut world, None, Some("s"), &["b", "a"]);
    assert!(matches!(
        result,
        Err(RouteError::NoEligibleAccounts { requested_account_id: None })
    ));
    assert!(world.asked.is_empty());
}

#[test]
fn the_choice_goes_by_the_given_time() {
    let mut registry = registry(&[("a", 9), ("b", 0)]);
    registry.mark_rate_limited_at("a", None, Some(100), None, 0);
    let none = Vec::new();
    match registry.select_account_at(None, None, &none, 99).unwrap() {
        SelectionStep::ResolveAuth(wait) => assert_eq!(wait.account(), 1),
        _ => panic!("unexpected"),
    }
    match registry.select_account_at(None, None, &none, 100).unwrap() {
        SelectionStep::ResolveAuth(wait) => {
            assert_eq!(wait.account(), 0);
            let err = Err(ResolveAuthError::NotAuthenticated);
            match registry.resume_with_auth(wait, err) {
                SelectionStep::ResolveAuth(wait) => assert_eq!(wait.account(), 1),
                _ => panic!("unexpected"),
            }
        }
        _ => panic!("unexpected"),
    }
}

#[test]
fn excluded_accounts_are_not_chosen() {
    let mut registry = registry(&[("a", 9), ("b", 0)]);
    let mut world = world();
    let chosen = pick(&mut registry, &mut world, None, None, &["a"]).unwrap();
    assert_eq!(chosen.lease.account_id(), "b");
    assert_eq!(world.asked, vec!["usage 1", "auth 1"]);
}

#[test]
fn after_a_refusal_the_soonest_reset_is_chosen() {
    let mut registry = registry(&[("a", 0), ("b", 50), ("c", 0), ("d", 0), ("e", 0)]);
    let mut world = world();
    world.usages = vec![
        None,
        Some(usage(100, None)),
        Some(usage(100, Some(500))),
        Some(usage(300, Some(500))),
        Some(usage(900, Some(501))),
    ];
    let chosen = pick(&mut registry, &mut world, None, None, &["a"]).unwrap();
    assert_eq!(chosen.lease.account_id(), "d");
    assert_eq!(world.asked, vec!["usage 1", "usage 2", "usage 3", "usage 4", "auth 3"]);
}

#[test]
fn usage_is_not_looked_up_for_a_requested_account() {
    let mut registry = registry(&[("a", 0), ("b", 0)]);
    let mut world = world();
    pick(&mut registry, &mut world, Some("b"), None, &["a"]).unwrap();
    assert_eq!(world.asked, vec!["auth 1"]);
}

#[test]
fn sessions_do_not_stick_to_an_account() {
    let mut registry = registry(&[("a", 0), ("b", 0)]);
    for expected in ["a", "b", "a", "b"] {
        let chosen = pick(&mut registry, &mut world(), None, Some("s"), &[]).unwrap();
        assert_eq!(chosen.lease.account_id(), expected);
        assert_eq!(registry.bound_account_id("s"), Some(expected.to_string()));
    }
}

#[test]
fn the_best_account_is_chosen_wherever_the_session_was_before() {
    for before in [None, Some("a"), Some("b"), Some("gone")] {
        for session in [None, Some("s"), Some("t")] {
            let mut registry = registry(&[("a", 0), ("b", 7)]);
            if let Some(before) = before {
                registry.bind_session_affinity("s", before);
            }
            let mut world = world();
            let chosen = pick(&mut registry, &mut world, None, session, &[]).unwrap();
            assert_eq!(chosen.lease.account_id(), "b");
            assert_eq!(chosen.lease.score(), 107);
            assert_eq!(world.asked, vec!["auth 1"]);
        }
    }
}

#[test]
fn it_is_noted_where_a_request_of_a_session_went() {
    let mut registry = registry(&[("a", 0), ("b", 0)]);
    pick(&mut registry, &mut world(), None, Some("s"), &[]).unwrap();
    assert_eq!(registry.bound_account_id("s"), Some("a".to_string()));
    pick(&mut registry, &mut world(), Some("b"), Some("s"), &[]).unwrap();
    assert_eq!(registry.bound_account_id("s"), Some("b".to_string()));
    let mut nobody = world();
    nobody.asleep = vec![0, 1];
    pick(&mut registry, &mut nobody, None, Some("s"), &[]).unwrap_err();
    assert_eq!(registry.bound_account_id("s"), None);
}

#[test]
fn limited_accounts_are_passed_over() {
    let mut registry = registry(&[("a", 9), ("b", 0)]);
    registry.bind_session_affinity("s", "a");
    registry.mark_rate_limited("a", Some("s"), Some(i64::MAX), Some(40));
    assert_eq!(registry.bound_account_id("s"), None);
    let chosen = pick(&mut registry, &mut world(), None, Some("s"), &[]).unwrap();
    assert_eq!(chosen.lease.account_id(), "b");
    registry.mark_rate_limited_at("a", None, Some(1), None, 0);
    let chosen = pick(&mut registry, &mut world(), Some("a"), None, &[]).unwrap();
    assert_eq!(chosen.lease.account_id(), "a");
    assert_eq!(chosen.lease.score(), 69);
    assert_eq!(registry.get_record("a").unwrap().state, AccountState::Healthy);
    assert_eq!(registry.get_record("a").unwrap().used_percent, Some(40));
}

#[test]
fn limiting_an_unknown_account_only_frees_the_session() {
    let mut registry = registry(&[("a", 0)]);
    registry.bind_session_affinity("s", "a");
    registry.mark_rate_limited("z", Some("s"), None, None);
    assert_eq!(registry.bound_account_id("s"), None);
    assert_eq!(registry.get_record("a").unwrap().state, AccountState::Healthy);
}

#[test]
fn scores_out_of_range_stop_the_choice() {
    let mut registry = registry(&[("a", i32::MAX), ("b", 0)]);
    assert!(registry.select_account(None, None, &Vec::new()).is_none());
    let chosen = pick(&mut registry, &mut world(), Some("b"), None, &[]).unwrap();
    assert_eq!(chosen.lease.account_id(), "b");
}

#[test]
fn accounts_are_created_and_deleted() {
    let mut registry = registry(&[("a", 0)]);
    let created = registry.create_account(
        CreateAccountRequest { preference: 7 },
        "n".to_string(),
        "/data",
    );
    assert_eq!(created.id, "n");
    assert_eq!(created.codex_home, "/data/accounts/n");
    assert_eq!(created.state, AccountState::Healthy);
    assert_eq!(created.preference, 7);
    assert_eq!(created.used_percent, None);
    assert_eq!(created.resets_at, None);
    assert_eq!(registry.find_handle("n"), Some(1));
    assert_eq!(registry.account_numbers(), vec![0, 1]);
    assert_eq!(registry.delete_account("n"), vec!["/data/accounts/n".to_string()]);
    assert_eq!(registry.find_handle("n"), None);
    assert_eq!(registry.find_handle("a"), Some(0));
    assert!(registry.delete_account("n").is_empty());
    assert_eq!(registry.records().len(), 1);
    assert_eq!(registry.records()[0].id, "a");
}

#[test]
fn deleting_removes_every_account_with_the_id() {
    let mut registry = registry(&[("a", 0), ("b", 0), ("a", 1)]);
    assert_eq!(registry.delete_account("a").len(), 2);
    assert_eq!(registry.account_numbers(), vec![1]);
}

#[test]
fn stored_accounts_come_back() {
    let registry = registry(&[("a", 1), ("b", 2)]);
    let again = AccountRegistry::load_or_create(registry.records());
    let records = again.records();
    assert_eq!(records.len(), 2);
    assert_eq!(records[0].id, "a");
    assert_eq!(records[1].preference, 2);
    assert_eq!(records[1].codex_home, "/homes/b");
}

#[test]
fn a_request_under_way_survives_deletion_of_its_account() {
    let mut registry = registry(&[("a", 0)]);
    let chosen = pick(&mut registry, &mut world(), None, None, &[]).unwrap();
    registry.delete_account("a");
    chosen.lease.note_success(&mut registry);
    chosen.lease.release(&mut registry);
    assert!(registry.records().is_empty());
    assert_eq!(registry.record_of(0).unwrap().id, "a");
    assert!(registry.record_of(1).is_none());
}

#[test]
fn usage_is_taken_over_by_number() {
    let mut registry = registry(&[("a", 0)]);
    let mut found = usage(0, None);
    found.primary_resets_at = Some(5);
    assert!(registry.refresh_usage_state(0, Some(&found)));
    assert_eq!(registry.get_record("a").unwrap().resets_at, Some(5));
    assert!(!registry.refresh_usage_state(0, None));
    assert!(!registry.refresh_usage_state(9, Some(&found)));
}

#[test]
fn summaries_are_listed_in_order() {
    let registry = registry(&[("a", 0), ("b", 0)]);
    let list = registry.list_summaries(vec![
        (0, auth_snapshot(None), None),
        (7, auth_snapshot(None), None),
        (1, auth_snapshot(None), Some(usage(1, None))),
    ]);
    assert_eq!(list.len(), 2);
    assert_eq!(list[0].id, "a");
    assert!(list[0].usage.is_none());
    assert_eq!(list[1].id, "b");
    assert!(list[1].usage.is_some());
    assert_eq!(registry.get_summary("b", auth_snapshot(None), None).unwrap().id, "b");
    assert!(registry.get_summary("z", auth_snapshot(None), None).is_none());
}

#[test]
fn ids_are_random_uuids() {
    let id = ids::new_id();
    let chars: Vec<char> = id.chars().collect();
    assert_eq!(chars.len(), 36);
    for (i, c) in chars.iter().enumerate() {
        match i {
            8 | 13 | 18 | 23 => assert_eq!(*c, '-'),
            14 => assert_eq!(*c, '4'),
            19 => assert!("89ab".contains(*c)),
            _ => assert!(c.is_ascii_digit() || ('a'..='f').contains(c)),
        }
    }
    assert_ne!(id, ids::new_id());
}
