use openai_codex_proxy::accounts::AccountAuthSnapshot;
use openai_codex_proxy::accounts::AccountHandle;
use openai_codex_proxy::accounts::AccountState;
use openai_codex_proxy::accounts::AccountSummary;
use openai_codex_proxy::accounts::AccountUsageSnapshot;
use openai_codex_proxy::accounts::StoredAccount;
use openai_codex_proxy::accounts::UsedPercent;
use openai_codex_proxy::accounts::auth_snapshot;
use openai_codex_proxy::admin;
use openai_codex_proxy::cli;
use openai_codex_proxy::cli::Cli;
use openai_codex_proxy::cli::Command;
use openai_codex_proxy::cli::ListAccountsArgs;
use openai_codex_proxy::cli::LoginArgs;
use openai_codex_proxy::cli::SetApiKeyArgs;
use openai_codex_proxy::clock::Instant;
use openai_codex_proxy::config;
use openai_codex_proxy::config::AppConfig;
use openai_codex_proxy::paths;
use openai_codex_proxy::installation::load_or_create_installation_id;
use openai_codex_proxy::json;
use openai_codex_proxy::logins::LoginKind;
use openai_codex_proxy::logins::LoginManager;
use openai_codex_proxy::logins::LoginPhase;
use openai_codex_proxy::logins::LoginStatus;
use openai_codex_proxy::registry::AccountRegistry;

fn stored(id: &str) -> StoredAccount {
    StoredAccount {
        id: id.to_string(),
        state: AccountState::Healthy,
        used_percent: None,
        resets_at: None,
        preference: 0,
        codex_home: format!("/homes/{id}"),
    }
}

fn login() -> LoginStatus {
    LoginManager::default().start_browser_login("a", "http://x".to_string())
}

fn percent(value: f64) -> UsedPercent {
    UsedPercent {
        bits: value.to_bits(),
        rounded: value.round() as u8,
        tenths: (value * 10.0) as i64,
        display: format!("{value:.0}%"),
    }
}

fn summary(auth: AccountAuthSnapshot, usage: Option<AccountUsageSnapshot>) -> AccountSummary {
    AccountHandle::new(stored("id-1")).summary(auth, usage)
}

fn at(seconds: i64, nanos: u32) -> Instant {
    Instant { seconds, nanos }
}

#[test]
fn browser_logins_are_followed() {
    let mut logins = LoginManager::default();
    let login = logins.start_browser_login("a", "http://auth".to_string());
    assert_eq!(login.account_id, "a");
    assert_eq!(login.kind, LoginKind::Browser);
    assert_eq!(login.phase, LoginPhase::Pending);
    assert_eq!(login.auth_url, Some("http://auth".to_string()));
    assert_eq!(login.verification_url, None);
    assert_eq!(login.login_id.len(), 36);
    assert_eq!(logins.get(&login.login_id).unwrap().phase, LoginPhase::Pending);
    logins.finish(&login.login_id, Ok(()));
    let done = logins.get(&login.login_id).unwrap();
    assert_eq!(done.phase, LoginPhase::Succeeded);
    assert_eq!(done.error, None);
    assert_eq!(done.auth_url, login.auth_url);
    assert!(logins.get("other").is_none());
}

#[test]
fn failed_logins_tell_why() {
    let mut logins = LoginManager::default();
    let login = logins.start_browser_login("a", "u".to_string());
    logins.finish(&login.login_id, Err("timeout".to_string()));
    let failed = logins.get(&login.login_id).unwrap();
    assert_eq!(failed.phase, LoginPhase::Failed);
    assert_eq!(failed.error, Some("timeout".to_string()));
}

#[test]
fn cancelled_browser_logins_stay_cancelled() {
    let mut logins = LoginManager::default();
    let login = logins.start_browser_login("a", "u".to_string());
    let told = logins.cancel(&login.login_id).unwrap();
    assert_eq!(told.phase, LoginPhase::Cancelled);
    assert_eq!(told.error, Some("login cancelled".to_string()));
    logins.finish(&login.login_id, Err("server stopped".to_string()));
    let after = logins.get(&login.login_id).unwrap();
    assert_eq!(after.phase, LoginPhase::Cancelled);
    assert_eq!(after.error, Some("login cancelled".to_string()));
    assert!(logins.cancel("other").is_none());
}

#[test]
fn cancelled_device_logins_still_end() {
    let mut logins = LoginManager::default();
    let login = logins.start_device_code_login("a", "http://v".to_string(), "ABC".to_string());
    assert_eq!(login.kind, LoginKind::DeviceCode);
    assert_eq!(login.verification_url, Some("http://v".to_string()));
    assert_eq!(login.user_code, Some("ABC".to_string()));
    assert_eq!(login.auth_url, None);
    logins.cancel(&login.login_id).unwrap();
    logins.finish(&login.login_id, Err("expired".to_string()));
    let after = logins.get(&login.login_id).unwrap();
    assert_eq!(after.phase, LoginPhase::Failed);
    assert_eq!(after.error, Some("expired".to_string()));
    logins.finish("other", Ok(()));
    assert!(logins.get("other").is_none());
}

#[test]
fn accounts_are_answered() {
    let (status, account) = admin::create_account(Ok(stored("a"))).unwrap();
    assert_eq!(status, 201);
    assert_eq!(account.id, "a");
    let refusal = admin::create_account(Err("disk".to_string())).unwrap_err();
    assert_eq!(refusal.status, 400);
    assert_eq!(refusal.message, "disk");
    assert_eq!(
        json::to_value(refusal.body()).to_string(),
        "{\"error\":{\"message\":\"disk\"}}"
    );
    let (status, list) = admin::list_accounts(vec![summary(auth_snapshot(None), None)]);
    assert_eq!(status, 200);
    assert_eq!(list.len(), 1);
    let found = admin::get_account("a", Some(summary(auth_snapshot(None), None))).unwrap();
    assert_eq!(found.0, 200);
    let missing = admin::get_account("a", None).unwrap_err();
    assert_eq!(missing.status, 404);
    assert_eq!(missing.message, "unknown account a");
}

#[test]
fn deletions_are_answered() {
    assert_eq!(admin::delete_account("a", Ok(true)).unwrap(), 200);
    let missing = admin::delete_account("a", Ok(false)).unwrap_err();
    assert_eq!((missing.status, missing.message.as_str()), (404, "unknown account a"));
    let failed = admin::delete_account("a", Err("disk".to_string())).unwrap_err();
    assert_eq!((failed.status, failed.message.as_str()), (500, "disk"));
}

#[test]
fn logins_are_answered() {
    assert_eq!(admin::get_login("l", Some(login())).unwrap().0, 200);
    let missing = admin::get_login("l", None).unwrap_err();
    assert_eq!((missing.status, missing.message.as_str()), (404, "unknown login l"));
    assert_eq!(admin::cancel_login("l", Some(login())).unwrap().0, 200);
    let missing = admin::cancel_login("l", None).unwrap_err();
    assert_eq!((missing.status, missing.message.as_str()), (404, "unknown login l"));
    assert_eq!(admin::start_login("a", Some(Ok(login()))).unwrap().0, 200);
    let missing = admin::start_login("a", None).unwrap_err();
    assert_eq!((missing.status, missing.message.as_str()), (404, "unknown account a"));
    let failed = admin::start_login("a", Some(Err("port".to_string()))).unwrap_err();
    assert_eq!((failed.status, failed.message.as_str()), (502, "port"));
    assert_eq!(admin::creation_failed("disk".to_string()).status, 500);
}

#[test]
fn accounts_whose_login_does_not_begin_are_deleted() {
    let mut accounts = AccountRegistry::load_or_create(vec![stored("a"), stored("n")]);
    let (status, account, _) =
        admin::create_and_start_login(&mut accounts, stored("n"), Ok(login())).unwrap();
    assert_eq!(status, 201);
    assert_eq!(account.id, "n");
    assert_eq!(accounts.records().len(), 2);
    let (refusal, homes) =
        admin::create_and_start_login(&mut accounts, stored("n"), Err("port".to_string()))
            .unwrap_err();
    assert_eq!((refusal.status, refusal.message.as_str()), (502, "port"));
    assert_eq!(homes, vec!["/homes/n".to_string()]);
    assert_eq!(accounts.records().len(), 1);
    assert!(accounts.get_record("a").is_some());
}

#[test]
fn command_line_logins_end() {
    let mut accounts = AccountRegistry::load_or_create(vec![stored("n")]);
    let line = cli::handle_login_command(&mut accounts, &stored("n"), Ok(())).unwrap();
    assert_eq!(line, "Successfully logged in account n");
    let (message, homes) =
        cli::handle_login_command(&mut accounts, &stored("n"), Err("no".to_string())).unwrap_err();
    assert_eq!(message, "no");
    assert_eq!(homes, vec!["/homes/n".to_string()]);
    assert!(accounts.records().is_empty());
}

#[test]
fn commands_default_to_serving() {
    assert!(matches!(Cli { command: None }.into_command(), Command::Serve));
    let command = Cli { command: Some(Command::ApiKeyStatus) }.into_command();
    assert!(matches!(command, Command::ApiKeyStatus));
}

#[test]
fn logins_use_a_browser_unless_told_otherwise() {
    let args = |device_auth, browser| LoginArgs { preference: 0, device_auth, browser };
    assert_eq!(args(false, false).kind(), LoginKind::Browser);
    assert_eq!(args(false, true).kind(), LoginKind::Browser);
    assert_eq!(args(true, false).kind(), LoginKind::DeviceCode);
}

#[test]
fn api_keys_are_given_or_made() {
    assert_eq!(cli::api_key_to_set(SetApiKeyArgs { key: Some("sk".to_string()) }), "sk");
    assert!(cli::api_key_to_set(SetApiKeyArgs { key: None }).starts_with("ocp_"));
}

#[test]
fn windows_are_told_in_their_unit() {
    for (minutes, expected) in [
        (None, "unknown"),
        (Some(10080), "7d"),
        (Some(300), "5h"),
        (Some(90), "90m"),
        (Some(0), "0d"),
        (Some(-60), "-1h"),
        (Some(-2880), "-2d"),
        (Some(-61), "-61m"),
        (Some(i64::MIN), "-9223372036854775808m"),
    ] {
        assert_eq!(cli::compact_window_minutes(minutes), expected);
    }
}

#[test]
fn times_are_told_for_people() {
    for (minutes, expected) in [
        (0, "0m"),
        (59, "59m"),
        (60, "1h"),
        (61, "1h 1m"),
        (1440, "1d"),
        (1441, "1d"),
        (1500, "1d 1h"),
        (2939, "2d"),
        (2940, "2d 1h"),
        (-5, "-5m"),
        (-65, "-5m"),
        (-120, "0m"),
        (i64::MIN, "-8m"),
    ] {
        assert_eq!(cli::humanize_minutes(minutes), expected, "{minutes}");
    }
}

#[test]
fn resets_are_told_from_now() {
    let now = at(1000, 500_000_000);
    for (resets_at, expected) in [
        (None, "unknown"),
        (Some(1000), "now"),
        (Some(1060), "now"),
        (Some(1061), "1m"),
        (Some(1000 + 3661), "1h 1m"),
        (Some(-5), "now"),
        (Some(8210266876799), "95026236d 23h"),
        (Some(8210266876800), "unknown"),
        (Some(-8334601228800), "now"),
        (Some(-8334601228801), "unknown"),
        (Some(i64::MAX), "unknown"),
    ] {
        assert_eq!(cli::compact_resets_in_at(resets_at, &now), expected, "{resets_at:?}");
    }
    assert_eq!(cli::compact_resets_in(Some(0)), "now");
    assert_eq!(cli::compact_resets_in(None), "unknown");
}

#[test]
fn no_accounts_are_told_as_such() {
    let lines = cli::handle_list_accounts_command(&Vec::new(), &ListAccountsArgs { verbose: true });
    assert_eq!(lines, vec!["No accounts configured.".to_string()]);
}

#[test]
fn accounts_are_listed_compactly() {
    let mut auth = auth_snapshot(None);
    auth.authenticated = true;
    auth.email = Some("a@b".to_string());
    auth.plan_type = Some("plus".to_string());
    auth.account_id = Some("ws".to_string());
    let usage = AccountUsageSnapshot {
        limit_id: Some("codex".to_string()),
        plan_type: Some("plus".to_string()),
        primary_used_percent: Some(percent(12.6)),
        primary_window_minutes: Some(300),
        primary_resets_at: Some(7200),
        secondary_used_percent: Some(percent(3.0)),
        secondary_window_minutes: Some(10080),
        secondary_resets_at: None,
    };
    let accounts = vec![summary(auth, Some(usage)), summary(auth_snapshot(None), None)];
    let lines = cli::handle_list_accounts_command_at(
        &accounts,
        &ListAccountsArgs { verbose: false },
        &at(0, 0),
    );
    assert_eq!(
        lines,
        vec![
            "- a@b (plus)",
            "  5h: 13% used, 2h",
            "  7d: 3% used, unknown",
            "",
            "- account id-1",
            "  not authenticated",
            "",
        ]
    );
    let lines = cli::handle_list_accounts_command_at(
        &accounts,
        &ListAccountsArgs { verbose: true },
        &at(0, 0),
    );
    assert_eq!(
        lines,
        vec![
            "- a@b (plus)",
            "  5h: 13% used, 2h",
            "  7d: 3% used, unknown",
            "  id: id-1",
            "  authenticated: true",
            "  workspace: ws",
            "  state: Healthy",
            "  limit: codex",
            "  usage plan: plus",
            "",
            "- account id-1",
            "  not authenticated",
            "  id: id-1",
            "  authenticated: false",
            "  state: Healthy",
            "",
        ]
    );
}

fn configured(
    listen_addr: Option<&str>,
    is_address: bool,
    home: &str,
    timeout: Option<&str>,
) -> Result<AppConfig, String> {
    let text = |setting: Option<&str>| setting.map(|s| s.to_string());
    AppConfig::from_env(text(listen_addr), is_address, home, text(timeout))
}

#[test]
fn configuration_has_defaults() {
    let config = configured(None, true, "/home/u", None).unwrap();
    assert_eq!(config.listen_addr, "127.0.0.1:8080");
    assert_eq!(config.data_dir, "/home/u/.openai-codex-proxy");
    assert_eq!(config.request_timeout_secs, 600);
    let config = configured(Some("0.0.0.0:1"), true, "/home/u", Some("30")).unwrap();
    assert_eq!(config.listen_addr, "0.0.0.0:1");
    assert_eq!(config.request_timeout_secs, 30);
    assert_eq!(config::listen_setting(None), "127.0.0.1:8080");
    assert_eq!(config::listen_setting(Some("[::1]:80".to_string())), "[::1]:80");
}

#[test]
fn the_data_directory_is_in_the_home_directory() {
    for home in ["/home/u", "/home/u/", "/", "", "relative"] {
        assert_eq!(
            config::data_dir_in(home),
            std::path::Path::new(home).join(".openai-codex-proxy").to_str().unwrap()
        );
        assert_eq!(configured(None, true, home, None).unwrap().data_dir, config::data_dir_in(home));
    }
}

#[test]
fn paths_are_joined() {
    for dir in ["/d", "/d/", "/", "", "d", "d/e"] {
        for name in ["n", "", "/n", "n/m", ".n"] {
            assert_eq!(
                paths::join(dir, name),
                std::path::Path::new(dir).join(name).to_str().unwrap(),
                "{dir:?} {name:?}"
            );
        }
    }
    assert_eq!(paths::account_home_in("/data", "id-1"), "/data/accounts/id-1");
    assert_eq!(paths::account_home_in("/data/", "id-2"), "/data/accounts/id-2");
}

#[test]
fn a_bad_address_is_an_error() {
    for setting in [Some("no address"), Some("")] {
        for timeout in [None, Some("x")] {
            let err = configured(setting, false, "/home/u", timeout).unwrap_err();
            assert_eq!(err, "failed to parse OCP_LISTEN_ADDR");
        }
    }
}

#[test]
fn a_bad_timeout_is_an_error() {
    for setting in ["", "-1", "1.5", "18446744073709551616", " 5"] {
        let err = configured(None, true, "", Some(setting)).unwrap_err();
        assert_eq!(err, "failed to parse OCP_REQUEST_TIMEOUT_SECS");
    }
}

#[test]
fn installations_keep_their_id() {
    assert_eq!(
        load_or_create_installation_id(Some(" inst-1 \n")),
        ("inst-1".to_string(), false)
    );
    for stored in [None, Some(""), Some(" \n")] {
        let (id, new) = load_or_create_installation_id(stored);
        assert!(new);
        assert_eq!(id.len(), 36);
    }
}
