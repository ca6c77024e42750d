//! The command line: what can be asked for, and what is printed.

use vstd::prelude::*;
use vstd::string::*;

use crate::accounts::AccountState;
use crate::accounts::AccountSummary;
use crate::accounts::StoredAccount;
use crate::accounts::UsedPercent;
use crate::clock;
use crate::clock::Instant;
use crate::logins::LoginKind;
use crate::proxy_auth;
use crate::registry;
use crate::registry::AccountRegistry;
use crate::text;

verus! {

/// What was asked for.
#[derive(Debug)]
pub struct Cli {
    pub command: Option<Command>,
}

/// What can be asked for.
#[derive(Debug)]
pub enum Command {
    /// To run the proxy.
    Serve,
    /// To log an account in.
    Login(LoginArgs),
    /// To list the accounts.
    ListAccounts(ListAccountsArgs),
    /// To set the proxy's API key.
    SetApiKey(SetApiKeyArgs),
    /// To tell whether the proxy has an API key.
    ApiKeyStatus,
}

/// How an account logs in.
#[derive(Debug)]
pub struct LoginArgs {
    pub preference: i32,
    pub device_auth: bool,
    pub browser: bool,
}

/// How the accounts are listed.
#[derive(Debug)]
pub struct ListAccountsArgs {
    pub verbose: bool,
}

/// Which API key is set.
#[derive(Debug)]
pub struct SetApiKeyArgs {
    /// The key. Without one, a new one is made.
    pub key: Option<String>,
}

impl LoginArgs {
    /// How the account logs in: with a browser, unless the code of a device is asked for.
    pub fn kind(&self) -> (kind: LoginKind)
        ensures
            kind == if self.device_auth {
                LoginKind::DeviceCode
            } else {
                LoginKind::Browser
            },
    {
        if self.device_auth {
            LoginKind::DeviceCode
        } else {
            LoginKind::Browser
        }
    }
}

impl Cli {
    /// What to do: without a command the proxy runs.
    pub fn into_command(self) -> (r: Command)
        ensures
            r == match self.command {
                Some(command) => command,
                None => Command::Serve,
            },
    {
        match self.command {
            Some(command) => command,
            None => Command::Serve,
        }
    }
}

/// The API key that is set: the given one, else a new one.
pub fn api_key_to_set(args: SetApiKeyArgs) -> (key: String)
    ensures
        match args.key {
            Some(given) => key@ == given@,
            None => proxy_auth::is_generated_key(key@),
        },
{
    match args.key {
        Some(key) => key,
        None => proxy_auth::generate_api_key(),
    }
}

/// A length of time in whole days, else in whole hours, else in minutes.
pub open spec fn window_text(minutes: Option<i64>) -> Seq<char> {
    match minutes {
        None => "unknown"@,
        Some(minutes) => if minutes as int % 1440 == 0 {
            text::int_text(minutes as int / 1440) + "d"@
        } else if minutes as int % 60 == 0 {
            text::int_text(minutes as int / 60) + "h"@
        } else {
            text::int_text(minutes as int) + "m"@
        },
    }
}

/// An integer and a unit.
fn with_unit(n: i64, unit: &str) -> (s: String)
    ensures
        s@ == text::int_text(n as int) + unit@,
{
    text::int_string(n).concat(unit)
}

/// A length of time in whole days, else in whole hours, else in minutes.
pub fn compact_window_minutes(window_minutes: Option<i64>) -> (s: String)
    ensures
        s@ == window_text(window_minutes),
{
    match window_minutes {
        None => "unknown".to_string(),
        Some(minutes) => {
            if minutes % 1440 == 0 {
                with_unit(minutes / 1440, "d")
            } else if minutes % 60 == 0 {
                with_unit(minutes / 60, "h")
            } else {
                with_unit(minutes, "m")
            }
        },
    }
}

/// A length of time in days and hours, or in hours and minutes. What is zero is left out, unless all
/// is. Of a negative length only the minutes within the hour are told.
pub open spec fn humanized(minutes: int) -> Seq<char> {
    let days = minutes / 1440;
    let hours = (minutes % 1440) / 60;
    let rest = minutes % 60;
    if minutes < 0 {
        text::int_text(-((-minutes) % 60)) + "m"@
    } else if days > 0 {
        text::int_text(days) + "d"@ + if hours > 0 {
            " "@ + text::int_text(hours) + "h"@
        } else {
            ""@
        }
    } else if hours > 0 {
        text::int_text(hours) + "h"@ + if rest > 0 {
            " "@ + text::int_text(rest) + "m"@
        } else {
            ""@
        }
    } else {
        text::int_text(rest) + "m"@
    }
}

/// A length of time in days and hours, or in hours and minutes.
pub fn humanize_minutes(minutes: i64) -> (s: String)
    ensures
        s@ == humanized(minutes as int),
{
    proof {
        reveal_strlit("");
    }
    if minutes < 0 {
        let magnitude: u64 = (-(minutes + 1)) as u64 + 1;
        let rest: i64 = (magnitude % 60) as i64;
        return with_unit(-rest, "m");
    }
    let whole: u64 = minutes as u64;
    let days: i64 = (whole / 1440) as i64;
    let hours: i64 = ((whole % 1440) / 60) as i64;
    let rest: i64 = (whole % 60) as i64;
    if days > 0 {
        let s = with_unit(days, "d");
        if hours > 0 {
            let told = s.concat(" ").concat(with_unit(hours, "h").as_str());
            assert(told@ =~= humanized(minutes as int));
            told
        } else {
            assert(s@ =~= humanized(minutes as int));
            s
        }
    } else if hours > 0 {
        let s = with_unit(hours, "h");
        if rest > 0 {
            let told = s.concat(" ").concat(with_unit(rest, "m").as_str());
            assert(told@ =~= humanized(minutes as int));
            told
        } else {
            assert(s@ =~= humanized(minutes as int));
            s
        }
    } else {
        with_unit(rest, "m")
    }
}

/// The nanoseconds from `now` to a time in whole seconds since the Unix epoch.
pub open spec fn nanos_until(seconds: int, now: Instant) -> int {
    seconds * 1_000_000_000 - (now.seconds * 1_000_000_000 + now.nanos)
}

/// How long it is from `now` to a time, or that it has come.
pub open spec fn resets_text(resets_at: Option<i64>, now: Instant) -> Seq<char> {
    match resets_at {
        Some(seconds) if clock::is_timestamp(seconds as int) => {
            let minutes = nanos_until(seconds as int, now) / 60_000_000_000;
            if minutes > 0 {
                humanized(minutes)
            } else {
                "now"@
            }
        },
        _ => "unknown"@,
    }
}

/// How long it is from now to a time, or that it has come.
pub fn compact_resets_in(resets_at: Option<i64>) -> (s: String)
    ensures
        exists|now: Instant| now.is_now() && s@ == #[trigger] resets_text(resets_at, now),
{
    let now = clock::utc_now();
    compact_resets_in_at(resets_at, &now)
}

/// How long it is from `now` to a time, or that it has come.
pub fn compact_resets_in_at(resets_at: Option<i64>, now: &Instant) -> (s: String)
    requires
        now.is_now(),
    ensures
        s@ == resets_text(resets_at, *now),
{
    match resets_at {
        None => "unknown".to_string(),
        Some(seconds) => {
            if !clock::has_date(seconds) {
                return "unknown".to_string();
            }
            let nanos: i128 = seconds as i128 * 1_000_000_000 - (now.seconds as i128 * 1_000_000_000
                + now.nanos as i128);
            if nanos < 60_000_000_000 {
                assert(nanos_until(seconds as int, *now) / 60_000_000_000 <= 0);
                return "now".to_string();
            }
            let minutes: i64 = (nanos as u128 / 60_000_000_000) as i64;
            humanize_minutes(minutes)
        },
    }
}

/// One line on a usage limit.
pub open spec fn limit_line(
    used: UsedPercent,
    window_minutes: Option<i64>,
    resets_at: Option<i64>,
    now: Instant,
) -> Seq<char> {
    "  "@ + window_text(window_minutes) + ": "@ + used.display@ + " used, "@ + resets_text(
        resets_at,
        now,
    )
}

/// The heading of an account: its mail address, or its id, and its plan.
pub open spec fn heading(account: AccountSummary) -> Seq<char> {
    let identity = match account.auth.email {
        Some(email) => email@,
        None => "account "@ + account.id@,
    };
    let plan = match account.auth.plan_type {
        Some(plan) => " ("@ + plan@ + ")"@,
        None => ""@,
    };
    "- "@ + identity + plan
}

/// The lines with one more, where there is something to tell.
pub open spec fn with_line(lines: Seq<Seq<char>>, line: Option<Seq<char>>) -> Seq<Seq<char>> {
    match line {
        Some(line) => lines.push(line),
        None => lines,
    }
}

/// What is told of an account's usage.
pub open spec fn usage_lines(account: AccountSummary, now: Instant) -> Seq<Seq<char>> {
    match account.usage {
        Some(usage) => {
            let first = with_line(
                Seq::empty(),
                match usage.primary_used_percent {
                    Some(used) => Some(
                        limit_line(
                            used,
                            usage.primary_window_minutes,
                            usage.primary_resets_at,
                            now,
                        ),
                    ),
                    None => None,
                },
            );
            with_line(
                first,
                match usage.secondary_used_percent {
                    Some(used) => Some(
                        limit_line(
                            used,
                            usage.secondary_window_minutes,
                            usage.secondary_resets_at,
                            now,
                        ),
                    ),
                    None => None,
                },
            )
        },
        None => if account.auth.authenticated {
            Seq::empty()
        } else {
            seq!["  not authenticated"@]
        },
    }
}

/// A label and what it labels.
pub open spec fn labelled(label: Seq<char>, value: Option<String>) -> Option<Seq<char>> {
    match value {
        Some(value) => Some(label + value@),
        None => None,
    }
}

/// What is told of an account only when all is told.
pub open spec fn detail_lines(account: AccountSummary) -> Seq<Seq<char>> {
    let a = seq![
        "  id: "@ + account.id@,
        "  authenticated: "@ + if account.auth.authenticated {
            "true"@
        } else {
            "false"@
        },
    ];
    let b = with_line(a, labelled("  workspace: "@, account.auth.account_id));
    let c = b.push("  state: "@ + account.state.name());
    match account.usage {
        Some(usage) => with_line(
            with_line(c, labelled("  limit: "@, usage.limit_id)),
            labelled("  usage plan: "@, usage.plan_type),
        ),
        None => c,
    }
}

/// What is told of an account, with an empty line at the end.
pub open spec fn account_text(account: AccountSummary, verbose: bool, now: Instant) -> Seq<Seq<char>> {
    let told = seq![heading(account)] + usage_lines(account, now);
    let all = if verbose {
        told + detail_lines(account)
    } else {
        told
    };
    all.push(""@)
}

/// What is told of accounts.
pub open spec fn accounts_text(
    accounts: Seq<AccountSummary>,
    verbose: bool,
    now: Instant,
) -> Seq<Seq<char>>
    decreases accounts.len(),
{
    if accounts.len() == 0 {
        Seq::empty()
    } else {
        accounts_text(accounts.drop_last(), verbose, now) + account_text(
            accounts.last(),
            verbose,
            now,
        )
    }
}

/// What is printed where the accounts are listed.
pub open spec fn listing(accounts: Seq<AccountSummary>, verbose: bool, now: Instant) -> Seq<
    Seq<char>,
> {
    if accounts.len() == 0 {
        seq!["No accounts configured."@]
    } else {
        accounts_text(accounts, verbose, now)
    }
}

fn push_line(lines: &mut Vec<String>, line: String)
    ensures
        text::texts(final(lines)@) == text::texts(old(lines)@).push(line@),
{
    lines.push(line);
    assert(text::texts(lines@) =~= text::texts(old(lines)@).push(line@));
}

fn push_labelled(lines: &mut Vec<String>, label: &str, value: &Option<String>)
    ensures
        text::texts(final(lines)@) == with_line(
            text::texts(old(lines)@),
            labelled(label@, *value),
        ),
{
    if let Some(value) = value {
        push_line(lines, label.to_string().concat(value.as_str()));
    }
}

fn push_limit(
    lines: &mut Vec<String>,
    used: &Option<UsedPercent>,
    window_minutes: Option<i64>,
    resets_at: Option<i64>,
    now: &Instant,
)
    requires
        now.is_now(),
    ensures
        text::texts(final(lines)@) == with_line(
            text::texts(old(lines)@),
            match *used {
                Some(used) => Some(limit_line(used, window_minutes, resets_at, *now)),
                None => None,
            },
        ),
{
    if let Some(used) = used {
        let line = "  ".to_string().concat(compact_window_minutes(window_minutes).as_str()).concat(
            ": ",
        ).concat(used.display.as_str()).concat(" used, ").concat(
            compact_resets_in_at(resets_at, now).as_str(),
        );
        push_line(lines, line);
    }
}

/// The lines that tell of an account's usage.
fn push_usage(lines: &mut Vec<String>, account: &AccountSummary, now: &Instant)
    requires
        now.is_now(),
    ensures
        text::texts(final(lines)@) == text::texts(old(lines)@) + usage_lines(*account, *now),
{
    let ghost before = text::texts(lines@);
    match &account.usage {
        Some(usage) => {
            push_limit(
                lines,
                &usage.primary_used_percent,
                usage.primary_window_minutes,
                usage.primary_resets_at,
                now,
            );
            push_limit(
                lines,
                &usage.secondary_used_percent,
                usage.secondary_window_minutes,
                usage.secondary_resets_at,
                now,
            );
        },
        None => {
            if !account.auth.authenticated {
                push_line(lines, "  not authenticated".to_string());
            }
        },
    }
    assert(text::texts(lines@) =~= before + usage_lines(*account, *now));
}

/// The lines that tell of an account only when all is told.
fn push_details(lines: &mut Vec<String>, account: &AccountSummary)
    ensures
        text::texts(final(lines)@) == text::texts(old(lines)@) + detail_lines(*account),
{
    let ghost before = text::texts(lines@);
    push_line(lines, "  id: ".to_string().concat(account.id.as_str()));
    push_line(
        lines,
        "  authenticated: ".to_string().concat(
            if account.auth.authenticated {
                "true"
            } else {
                "false"
            },
        ),
    );
    push_labelled(lines, "  workspace: ", &account.auth.account_id);
    push_line(lines, "  state: ".to_string().concat(account.state.name_str()));
    if let Some(usage) = &account.usage {
        push_labelled(lines, "  limit: ", &usage.limit_id);
        push_labelled(lines, "  usage plan: ", &usage.plan_type);
    }
    assert(text::texts(lines@) =~= before + detail_lines(*account));
}

fn push_heading(lines: &mut Vec<String>, account: &AccountSummary)
    ensures
        text::texts(final(lines)@) == text::texts(old(lines)@).push(heading(*account)),
{
    let identity = match &account.auth.email {
        Some(email) => email.clone(),
        None => "account ".to_string().concat(account.id.as_str()),
    };
    let plan = match &account.auth.plan_type {
        Some(plan) => " (".to_string().concat(plan.as_str()).concat(")"),
        None => "".to_string(),
    };
    push_line(lines, "- ".to_string().concat(identity.as_str()).concat(plan.as_str()));
}

/// What is printed now where the accounts are listed, line by line.
pub fn handle_list_accounts_command(accounts: &Vec<AccountSummary>, args: &ListAccountsArgs) -> (lines: Vec<
    String,
>)
    ensures
        exists|now: Instant|
            now.is_now() && text::texts(lines@) == #[trigger] listing(accounts@, args.verbose, now),
{
    let now = clock::utc_now();
    handle_list_accounts_command_at(accounts, args, &now)
}

/// What is printed at `now` where the accounts are listed, line by line.
pub fn handle_list_accounts_command_at(
    accounts: &Vec<AccountSummary>,
    args: &ListAccountsArgs,
    now: &Instant,
) -> (lines: Vec<String>)
    requires
        now.is_now(),
    ensures
        text::texts(lines@) == listing(accounts@, args.verbose, *now),
{
    let mut lines: Vec<String> = Vec::new();
    assert(text::texts(lines@) =~= Seq::empty());
    if accounts.len() == 0 {
        push_line(&mut lines, "No accounts configured.".to_string());
        assert(text::texts(lines@) =~= listing(accounts@, args.verbose, *now));
        return lines;
    }
    for k in 0..accounts.len()
        invariant
            now.is_now(),
            text::texts(lines@) == accounts_text(accounts@.take(k as int), args.verbose, *now),
    {
        let ghost before = text::texts(lines@);
        assert(accounts@.take(k + 1).drop_last() =~= accounts@.take(k as int));
        let account = &accounts[k];
        push_heading(&mut lines, account);
        push_usage(&mut lines, account, now);
        if args.verbose {
            push_details(&mut lines, account);
        }
        push_line(&mut lines, "".to_string());
        assert(text::texts(lines@) =~= before + account_text(*account, args.verbose, *now));
    }
    assert(accounts@.take(accounts@.len() as int) =~= accounts@);
    lines
}

/// What is printed after an account logged in.
pub open spec fn logged_in(account_id: Seq<char>) -> Seq<char> {
    "Successfully logged in account "@ + account_id
}

/// Ends the login of a new account, which came to `result`: tells what is printed, or else deletes the
/// account, and tells what went wrong and which directories are to be removed.
pub fn handle_login_command(
    accounts: &mut AccountRegistry,
    account: &StoredAccount,
    result: Result<(), String>,
) -> (r: Result<String, (String, Vec<String>)>)
    ensures
        match result {
            Ok(_) => {
                &&& r is Ok
                &&& r->Ok_0@ == logged_in(account@.id)
                &&& final(accounts)@ == old(accounts)@
            },
            Err(message) => {
                &&& r is Err
                &&& r->Err_0.0 == message
                &&& text::texts(r->Err_0.1@) == registry::homes_of(
                    old(accounts)@.handles,
                    old(accounts)@.listed,
                    account@.id,
                )
                &&& final(accounts)@ == old(accounts)@.without_account(account@.id)
            },
        },
{
    match result {
        Ok(_) => Ok("Successfully logged in account ".to_string().concat(account.id.as_str())),
        Err(message) => {
            let homes = accounts.delete_account(account.id.as_str());
            Err((message, homes))
        },
    }
}

/// What is told of an account in short stands, but for the empty line at its end, at the beginning of
/// what is told at length.
pub proof fn law_verbose_tells_more(account: AccountSummary, now: Instant)
    ensures
        account_text(account, false, now).drop_last().is_prefix_of(account_text(account, true, now)),
{
    let short = account_text(account, false, now).drop_last();
    let long = account_text(account, true, now);
    assert(short =~= long.subrange(0, short.len() as int));
}

/// A length of time is told in days where it is a number of whole days, else in hours where it is one of
/// whole hours, else in minutes.
pub proof fn law_window_text(minutes: i64, n: int)
    ensures
        window_text(None) == "unknown"@,
        minutes == 1440 * n ==> window_text(Some(minutes)) == text::int_text(n) + "d"@,
        minutes == 60 * n && minutes as int % 1440 != 0 ==> window_text(Some(minutes))
            == text::int_text(n) + "h"@,
        minutes as int % 60 != 0 ==> window_text(Some(minutes)) == text::int_text(minutes as int)
            + "m"@,
{
    if minutes == 1440 * n {
        assert(minutes as int / 1440 == n);
    }
    if minutes == 60 * n {
        assert(minutes as int / 60 == n);
    }
    if minutes as int % 60 != 0 {
        assert(minutes as int % 1440 != 0);
    }
}

/// Days are told with the hours beyond them, hours with the minutes beyond them, and minutes alone.
/// What is zero is left out, unless it is all.
pub proof fn law_humanized(days: int, hours: int, minutes: int)
    requires
        0 <= days,
        0 <= hours < 24,
        0 <= minutes < 60,
    ensures
        ({
            let told = humanized(days * 1440 + hours * 60 + minutes);
            &&& days > 0 && hours > 0 ==> told == text::int_text(days) + "d"@ + " "@ + text::int_text(
                hours,
            ) + "h"@
            &&& days > 0 && hours == 0 ==> told == text::int_text(days) + "d"@
            &&& days == 0 && hours > 0 && minutes > 0 ==> told == text::int_text(hours) + "h"@ + " "@
                + text::int_text(minutes) + "m"@
            &&& days == 0 && hours > 0 && minutes == 0 ==> told == text::int_text(hours) + "h"@
            &&& days == 0 && hours == 0 ==> told == text::int_text(minutes) + "m"@
        }),
{
    let all = days * 1440 + hours * 60 + minutes;
    assert(all / 1440 == days && all % 1440 == hours * 60 + minutes) by (nonlinear_arith)
        requires
            all == days * 1440 + hours * 60 + minutes,
            0 <= days,
            0 <= hours < 24,
            0 <= minutes < 60,
    ;
    assert((hours * 60 + minutes) / 60 == hours);
    assert(all % 60 == minutes) by (nonlinear_arith)
        requires
            all == days * 1440 + hours * 60 + minutes,
            0 <= minutes < 60,
    ;
    reveal_strlit("");
    let told = humanized(all);
    if days > 0 && hours > 0 {
        assert(told =~= text::int_text(days) + "d"@ + " "@ + text::int_text(hours) + "h"@);
    } else if days > 0 {
        assert(told =~= text::int_text(days) + "d"@);
    } else if hours > 0 && minutes > 0 {
        assert(told =~= text::int_text(hours) + "h"@ + " "@ + text::int_text(minutes) + "m"@);
    } else if hours > 0 {
        assert(told =~= text::int_text(hours) + "h"@);
    }
}

/// A reset that is not known, or has no date, is told so. One that has come, or comes within a minute,
/// is now. Any other is told by the whole minutes to it.
pub proof fn law_resets_text(seconds: i64, now: Instant, minutes: int)
    ensures
        resets_text(None, now) == "unknown"@,
        !clock::is_timestamp(seconds as int) ==> resets_text(Some(seconds), now) == "unknown"@,
        clock::is_timestamp(seconds as int) ==> {
            let left = (seconds - now.seconds) * 1_000_000_000 - now.nanos;
            &&& left < 60_000_000_000 ==> resets_text(Some(seconds), now) == "now"@
            &&& minutes >= 1 && 60_000_000_000 * minutes <= left < 60_000_000_000 * (minutes + 1)
                ==> resets_text(Some(seconds), now) == humanized(minutes)
        },
{
    let left = (seconds - now.seconds) * 1_000_000_000 - now.nanos;
    assert(nanos_until(seconds as int, now) == left);
    if minutes >= 1 && 60_000_000_000 * minutes <= left < 60_000_000_000 * (minutes + 1) {
        assert(left / 60_000_000_000 == minutes);
    }
}

/// An account is told under its mail address, else under its id, with its plan where that is known.
pub proof fn law_heading(account: AccountSummary, verbose: bool, now: Instant)
    ensures
        ({
            let line = account_text(account, verbose, now)[0];
            let identity = match account.auth.email {
                Some(email) => "- "@ + email@,
                None => "- "@ + "account "@ + account.id@,
            };
            &&& account.auth.plan_type is None ==> line == identity
            &&& account.auth.plan_type matches Some(plan) ==> line == identity + " ("@ + plan@ + ")"@
        }),
        account_text(account, verbose, now).last() == ""@,
{
    reveal_strlit("");
    let line = account_text(account, verbose, now)[0];
    assert(line == heading(account));
    let identity = match account.auth.email {
        Some(email) => "- "@ + email@,
        None => "- "@ + "account "@ + account.id@,
    };
    match account.auth.plan_type {
        Some(plan) => {
            assert(line =~= identity + " ("@ + plan@ + ")"@);
        },
        None => {
            assert(line =~= identity);
        },
    }
}

/// Below its heading an account's usage is told: a line for the short run, then one for the long run,
/// each where its use is known, with the length of the limit, its use, and its reset. Without usage
/// there is one line exactly if the account is not logged in.
pub proof fn law_usage_is_told(account: AccountSummary, now: Instant)
    ensures
        ({
            let lines = usage_lines(account, now);
            match account.usage {
                None => if account.auth.authenticated {
                    lines.len() == 0
                } else {
                    lines == seq!["  not authenticated"@]
                },
                Some(usage) => {
                    let first = usage.primary_used_percent;
                    let second = usage.secondary_used_percent;
                    let short: int = if first is Some {
                        1
                    } else {
                        0
                    };
                    let long: int = if second is Some {
                        1
                    } else {
                        0
                    };
                    &&& lines.len() == short + long
                    &&& first matches Some(used) ==> lines[0] == "  "@ + window_text(
                        usage.primary_window_minutes,
                    ) + ": "@ + used.display@ + " used, "@ + resets_text(
                        usage.primary_resets_at,
                        now,
                    )
                    &&& second matches Some(used) ==> lines[short] == "  "@ + window_text(
                        usage.secondary_window_minutes,
                    ) + ": "@ + used.display@ + " used, "@ + resets_text(
                        usage.secondary_resets_at,
                        now,
                    )
                },
            }
        }),
{
}

/// What is told of an account at length: its id, whether it is logged in, its workspace where that is
/// known, its state, and the limit and the plan of its usage where they are known.
pub proof fn law_details_are_told(account: AccountSummary)
    ensures
        ({
            let lines = detail_lines(account);
            let w: int = if account.auth.account_id is Some {
                1
            } else {
                0
            };
            let l: int = if account.usage is Some && account.usage->0.limit_id is Some {
                1
            } else {
                0
            };
            let p: int = if account.usage is Some && account.usage->0.plan_type is Some {
                1
            } else {
                0
            };
            &&& lines.len() == 3 + w + l + p
            &&& lines[0] == "  id: "@ + account.id@
            &&& account.auth.authenticated ==> lines[1] == "  authenticated: "@ + "true"@
            &&& !account.auth.authenticated ==> lines[1] == "  authenticated: "@ + "false"@
            &&& account.auth.account_id matches Some(id) ==> lines[2] == "  workspace: "@ + id@
            &&& lines[2 + w] == "  state: "@ + account.state.name()
            &&& l == 1 ==> lines[3 + w] == "  limit: "@ + account.usage->0.limit_id->0@
            &&& p == 1 ==> lines[3 + w + l] == "  usage plan: "@ + account.usage->0.plan_type->0@
        }),
{
}

/// The states are told by their names.
pub proof fn law_state_names(state: AccountState)
    ensures
        state == AccountState::Healthy ==> state.name() == "Healthy"@,
        state == AccountState::CoolingDown ==> state.name() == "CoolingDown"@,
        state == AccountState::RateLimited ==> state.name() == "RateLimited"@,
        state == AccountState::NeedsReauth ==> state.name() == "NeedsReauth"@,
        state == AccountState::Disabled ==> state.name() == "Disabled"@,
{
}

/// Accounts are told one after the other, each on its own.
pub proof fn law_accounts_are_told_in_order(
    a: Seq<AccountSummary>,
    b: Seq<AccountSummary>,
    verbose: bool,
    now: Instant,
)
    ensures
        a.len() == 0 ==> listing(a, verbose, now) == seq!["No accounts configured."@],
        a.len() == 1 ==> listing(a, verbose, now) == account_text(a[0], verbose, now),
        a.len() > 0 && b.len() > 0 ==> listing(a + b, verbose, now) == listing(a, verbose, now)
            + listing(b, verbose, now),
{
    if a.len() == 1 {
        assert(accounts_text(a.drop_last(), verbose, now) =~= Seq::<Seq<char>>::empty());
        assert(listing(a, verbose, now) =~= account_text(a[0], verbose, now));
    }
    lemma_accounts_text_add(a, b, verbose, now);
}

proof fn lemma_accounts_text_add(
    a: Seq<AccountSummary>,
    b: Seq<AccountSummary>,
    verbose: bool,
    now: Instant,
)
    ensures
        accounts_text(a + b, verbose, now) == accounts_text(a, verbose, now) + accounts_text(
            b,
            verbose,
            now,
        ),
    decreases b.len(),
{
    if b.len() == 0 {
        assert(a + b =~= a);
        assert(accounts_text(a, verbose, now) + accounts_text(b, verbose, now) =~= accounts_text(
            a,
            verbose,
            now,
        ));
    } else {
        assert((a + b).drop_last() =~= a + b.drop_last());
        lemma_accounts_text_add(a, b.drop_last(), verbose, now);
        assert(accounts_text(a + b, verbose, now) =~= accounts_text(a, verbose, now)
            + accounts_text(b, verbose, now));
    }
}

/// At length an account is told as in short, with the details before the empty line at its end.
pub proof fn law_verbose_adds_the_details(account: AccountSummary, now: Instant)
    ensures
        account_text(account, true, now).drop_last() == account_text(
            account,
            false,
            now,
        ).drop_last() + detail_lines(account),
{
    assert(account_text(account, true, now).drop_last() =~= account_text(
        account,
        false,
        now,
    ).drop_last() + detail_lines(account));
}

/// After a login the account is named.
pub proof fn law_logged_in_account_is_named(id: Seq<char>)
    ensures
        id.is_suffix_of(logged_in(id)),
{
    let told = logged_in(id);
    assert(told.skip(told.len() - id.len()) =~= id);
}

/// A login runs in the browser unless a code was asked for, and without a command the proxy serves.
pub proof fn law_commands(args: &LoginArgs, kind: LoginKind, given: Cli, command: Command)
    requires
        call_ensures(LoginArgs::kind, (args,), kind),
        call_ensures(Cli::into_command, (given,), command),
    ensures
        kind == LoginKind::DeviceCode <==> args.device_auth,
        kind == LoginKind::Browser <==> !args.device_auth,
        given.command is None ==> command is Serve,
        given.command matches Some(named) ==> command == named,
{
}

/// The key that is set is the one that was given, else a generated one.
pub proof fn law_key_to_set(args: SetApiKeyArgs, key: String)
    requires
        call_ensures(api_key_to_set, (args,), key),
    ensures
        args.key matches Some(given) ==> key@ == given@,
        args.key is None ==> key@.len() == 68 && key@.take(4) == "ocp_"@,
{
}

/// A login on the command line names its account where it succeeds; where it fails its account is taken
/// off the list, no other is, and the reason is handed on.
pub proof fn law_logging_in(
    accounts: &mut AccountRegistry,
    account: &StoredAccount,
    result: Result<(), String>,
    r: Result<String, (String, Vec<String>)>,
    i: int,
)
    requires
        call_ensures(handle_login_command, (accounts, account, result), r),
    ensures
        result is Ok ==> r is Ok && r->Ok_0@ == "Successfully logged in account "@ + account@.id
            && final(accounts)@ == old(accounts)@,
        result is Err ==> r is Err && r->Err_0.0 == result->Err_0,
        result is Err ==> (final(accounts)@.listed.contains(i) <==> old(
            accounts,
        )@.listed.contains(i) && old(accounts)@.handles[i].record.id != account@.id),
        final(accounts)@.handles == old(accounts)@.handles,
        final(accounts)@.affinity == old(accounts)@.affinity,
{
    registry::law_who_stays(accounts@, account@.id, i);
    law_logged_in_account_is_named(account@.id);
}

/// The list of no accounts says so, and that of some begins with the first of them.
pub proof fn law_listing_accounts(
    accounts: &Vec<AccountSummary>,
    args: &ListAccountsArgs,
    now: &Instant,
    lines: Vec<String>,
)
    requires
        call_ensures(handle_list_accounts_command_at, (accounts, args, now), lines),
    ensures
        accounts@.len() == 0 ==> lines@.len() == 1 && lines@[0]@ == "No accounts configured."@,
        accounts@.len() == 1 ==> text::texts(lines@) == account_text(
            accounts@[0],
            args.verbose,
            *now,
        ),
{
    if accounts@.len() == 0 {
        assert(text::texts(lines@).len() == 1);
        assert(text::texts(lines@)[0] == lines@[0]@);
    }
    if accounts@.len() == 1 {
        assert(accounts_text(accounts@.drop_last(), args.verbose, *now) =~= Seq::empty());
        assert(accounts@.last() == accounts@[0]);
        assert(accounts_text(accounts@, args.verbose, *now) =~= account_text(
            accounts@[0],
            args.verbose,
            *now,
        ));
    }
}

/// Times are told as texts: windows by their length, and resets by the whole minutes up to them.
pub proof fn law_telling_times(
    minutes: Option<i64>,
    window: String,
    length: i64,
    human: String,
    resets_at: Option<i64>,
    now: &Instant,
    left: String,
)
    requires
        call_ensures(compact_window_minutes, (minutes,), window),
        call_ensures(humanize_minutes, (length,), human),
        call_ensures(compact_resets_in_at, (resets_at, now), left),
    ensures
        minutes is None ==> window@ == "unknown"@,
        minutes matches Some(n) ==> (n % 60 == 0 && n % 1440 != 0 ==> window@ == text::int_text(
            n as int / 60,
        ) + "h"@),
        minutes matches Some(n) ==> (n % 60 != 0 ==> window@ == text::int_text(n as int) + "m"@),
        minutes matches Some(n) ==> (n % 1440 == 0 ==> window@ == text::int_text(n as int / 1440)
            + "d"@),
        0 <= length < 60 ==> human@ == text::int_text(length as int) + "m"@,
        resets_at is None ==> left@ == "unknown"@,
        resets_at matches Some(end) ==> (clock::is_timestamp(end as int) && end <= now.seconds
            ==> left@ == "now"@),
{
    if let Some(end) = resets_at {
        if clock::is_timestamp(end as int) && end <= now.seconds {
            let nanos = nanos_until(end as int, *now);
            assert(nanos <= 0);
        }
    }
}

} // verus!
