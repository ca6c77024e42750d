//! The answers of the management endpoints.

use vstd::prelude::*;
use vstd::string::*;

use crate::accounts::AccountSummary;
use crate::accounts::StoredAccount;
use crate::json::Json;
use crate::json::JsonObject;
use crate::json::JsonView;
use crate::logins::LoginStatus;
use crate::registry;
use crate::registry::AccountRegistry;
use crate::text;

verus! {

/// An answer that something cannot be done.
#[derive(Debug)]
pub struct Refusal {
    pub status: u16,
    pub message: String,
}

impl Refusal {
    /// The refusal has the given status and message.
    pub open spec fn says(self, status: u16, message: Seq<char>) -> bool {
        self.status == status && self.message@ == message
    }

    /// The body of the answer.
    pub fn body(&self) -> (r: Json)
        ensures
            r@ == refusal_body(self.message@),
    {
        let mut error = JsonObject::new();
        error.insert("message".to_string(), Json::Text(self.message.clone()));
        assert(error@ =~= map!["message"@ => JsonView::Text(self.message@)]);
        let mut body = JsonObject::new();
        body.insert("error".to_string(), Json::Object(error));
        assert(body@ =~= map!["error"@ => JsonView::Object(error@)]);
        Json::Object(body)
    }
}

/// The body of an answer that something cannot be done.
pub open spec fn refusal_body(message: Seq<char>) -> JsonView {
    JsonView::Object(
        map!["error"@ => JsonView::Object(map!["message"@ => JsonView::Text(message)])],
    )
}

/// What is said of an account that is not there.
pub open spec fn unknown_account(id: Seq<char>) -> Seq<char> {
    "unknown account "@ + id
}

/// What is said of a login that is not there.
pub open spec fn unknown_login(id: Seq<char>) -> Seq<char> {
    "unknown login "@ + id
}

fn account_missing(id: &str) -> (r: Refusal)
    ensures
        r.says(404, unknown_account(id@)),
{
    Refusal { status: 404, message: "unknown account ".to_string().concat(id) }
}

fn login_missing(id: &str) -> (r: Refusal)
    ensures
        r.says(404, unknown_login(id@)),
{
    Refusal { status: 404, message: "unknown login ".to_string().concat(id) }
}

/// The answer to a request for all accounts.
pub fn list_accounts(accounts: Vec<AccountSummary>) -> (r: (u16, Vec<AccountSummary>))
    ensures
        r == (200u16, accounts),
{
    (200, accounts)
}

/// The answer to a request for a new account, where its creation came to `created`.
pub fn create_account(created: Result<StoredAccount, String>) -> (r: Result<
    (u16, StoredAccount),
    Refusal,
>)
    ensures
        match created {
            Ok(account) => r == Ok::<_, Refusal>((201u16, account)),
            Err(message) => r is Err && r->Err_0.says(400, message@),
        },
{
    match created {
        Ok(account) => Ok((201, account)),
        Err(message) => Err(Refusal { status: 400, message }),
    }
}

/// The answer to a request for an account.
pub fn get_account(account_id: &str, account: Option<AccountSummary>) -> (r: Result<
    (u16, AccountSummary),
    Refusal,
>)
    ensures
        match account {
            Some(account) => r == Ok::<_, Refusal>((200u16, account)),
            None => r is Err && r->Err_0.says(404, unknown_account(account_id@)),
        },
{
    match account {
        Some(account) => Ok((200, account)),
        None => Err(account_missing(account_id)),
    }
}

/// The answer to a request that deletes an account, where that came to `deleted`: whether there was
/// such an account, or what went wrong.
pub fn delete_account(account_id: &str, deleted: Result<bool, String>) -> (r: Result<u16, Refusal>)
    ensures
        match deleted {
            Ok(true) => r == Ok::<_, Refusal>(200u16),
            Ok(false) => r is Err && r->Err_0.says(404, unknown_account(account_id@)),
            Err(message) => r is Err && r->Err_0.says(500, message@),
        },
{
    match deleted {
        Ok(true) => Ok(200),
        Ok(false) => Err(account_missing(account_id)),
        Err(message) => Err(Refusal { status: 500, message }),
    }
}

/// The answer to a request for a login.
pub fn get_login(login_id: &str, login: Option<LoginStatus>) -> (r: Result<
    (u16, LoginStatus),
    Refusal,
>)
    ensures
        match login {
            Some(login) => r == Ok::<_, Refusal>((200u16, login)),
            None => r is Err && r->Err_0.says(404, unknown_login(login_id@)),
        },
{
    match login {
        Some(login) => Ok((200, login)),
        None => Err(login_missing(login_id)),
    }
}

/// The answer to a request that cancels a login.
pub fn cancel_login(login_id: &str, login: Option<LoginStatus>) -> (r: Result<
    (u16, LoginStatus),
    Refusal,
>)
    ensures
        match login {
            Some(login) => r == Ok::<_, Refusal>((200u16, login)),
            None => r is Err && r->Err_0.says(404, unknown_login(login_id@)),
        },
{
    match login {
        Some(login) => Ok((200, login)),
        None => Err(login_missing(login_id)),
    }
}

/// The answer to a request that begins a login of an account, where that came to `started`: nothing
/// where there is no such account.
pub fn start_login(account_id: &str, started: Option<Result<LoginStatus, String>>) -> (r: Result<
    (u16, LoginStatus),
    Refusal,
>)
    ensures
        match started {
            None => r is Err && r->Err_0.says(404, unknown_account(account_id@)),
            Some(Ok(login)) => r == Ok::<_, Refusal>((200u16, login)),
            Some(Err(message)) => r is Err && r->Err_0.says(502, message@),
        },
{
    match started {
        None => Err(account_missing(account_id)),
        Some(Ok(login)) => Ok((200, login)),
        Some(Err(message)) => Err(Refusal { status: 502, message }),
    }
}

/// The answer to a request for a new account that logs in, where the account cannot be created.
pub fn creation_failed(message: String) -> (r: Refusal)
    ensures
        r.says(500, message@),
{
    Refusal { status: 500, message }
}

/// The answer to a request for a new account that logs in, where the beginning of the login came to
/// `started`. An account whose login does not begin is deleted; the directories that are then to be
/// removed come with the refusal.
pub fn create_and_start_login(
    accounts: &mut AccountRegistry,
    account: StoredAccount,
    started: Result<LoginStatus, String>,
) -> (r: Result<(u16, StoredAccount, LoginStatus), (Refusal, Vec<String>)>)
    ensures
        match started {
            Ok(login) => {
                &&& r == Ok::<_, (Refusal, Vec<String>)>((201u16, account, login))
                &&& final(accounts)@ == old(accounts)@
            },
            Err(message) => {
                &&& r is Err
                &&& r->Err_0.0.says(502, message@)
                &&& text::texts(r->Err_0.1@) == registry::homes_of(
                    old(accounts)@.handles,
                    old(accounts)@.listed,
                    account@.id,
                )
                &&& final(accounts)@ == old(accounts)@.without_account(account@.id)
            },
        },
{
    match started {
        Ok(login) => Ok((201, account, login)),
        Err(message) => {
            let homes = accounts.delete_account(account.id.as_str());
            Err((Refusal { status: 502, message }, homes))
        },
    }
}

/// A refusal tells its message, and nothing else.
pub proof fn law_refusal_body(message: Seq<char>, key: Seq<char>)
    ensures
        refusal_body(message).field("error"@) is Some,
        refusal_body(message).field("error"@)->0.field("message"@) == Some(JsonView::Text(message)),
        key != "error"@ ==> refusal_body(message).field(key) is None,
        key != "message"@ ==> refusal_body(message).field("error"@)->0.field(key) is None,
{
}

/// What is said of an account or a login that is not there ends with its id, and tells which of the two
/// it is.
pub proof fn law_missing_things_are_named(id: Seq<char>)
    ensures
        id.is_suffix_of(unknown_account(id)),
        id.is_suffix_of(unknown_login(id)),
        text::occurs("account"@, unknown_account(id)),
        text::occurs("login"@, unknown_login(id)),
{
    let a = unknown_account(id);
    let b = unknown_login(id);
    assert(a.skip(a.len() - id.len()) =~= id);
    assert(b.skip(b.len() - id.len()) =~= id);
    reveal_strlit("unknown account ");
    reveal_strlit("unknown login ");
    reveal_strlit("account");
    reveal_strlit("login");
    assert(a.subrange(8, 15) =~= "account"@);
    assert(text::occurs_at("account"@, a, 8));
    assert(b.subrange(8, 13) =~= "login"@);
    assert(text::occurs_at("login"@, b, 8));
}

/// What the administration answers on accounts: what there is with 200, a new account with 201, an
/// account that is not there with 404 and its id, a refused creation with 400, and a failed deletion
/// with 500.
pub proof fn law_answers_on_accounts(
    id: &str,
    listed: Vec<AccountSummary>,
    listing: (u16, Vec<AccountSummary>),
    made: Result<StoredAccount, String>,
    creation: Result<(u16, StoredAccount), Refusal>,
    account: Option<AccountSummary>,
    told: Result<(u16, AccountSummary), Refusal>,
    deleted: Result<bool, String>,
    deletion: Result<u16, Refusal>,
)
    requires
        call_ensures(list_accounts, (listed,), listing),
        call_ensures(create_account, (made,), creation),
        call_ensures(get_account, (id, account), told),
        call_ensures(delete_account, (id, deleted), deletion),
    ensures
        listing.0 == 200 && listing.1 == listed,
        made is Ok ==> creation is Ok && creation->Ok_0.0 == 201 && creation->Ok_0.1 == made->Ok_0,
        made is Err ==> creation is Err && creation->Err_0.status == 400
            && creation->Err_0.message@ == made->Err_0@,
        account is Some ==> told is Ok && told->Ok_0.0 == 200 && told->Ok_0.1 == account->0,
        account is None ==> told is Err && told->Err_0.status == 404 && id@.is_suffix_of(
            told->Err_0.message@,
        ),
        deletion is Ok <==> deleted == Ok::<bool, String>(true),
        deletion matches Ok(status) ==> status == 200,
        deleted == Ok::<bool, String>(false) ==> deletion->Err_0.status == 404 && id@.is_suffix_of(
            deletion->Err_0.message@,
        ),
        deleted is Err ==> deletion->Err_0.status == 500 && deletion->Err_0.message@
            == deleted->Err_0@,
{
    law_missing_things_are_named(id@);
}

/// What the administration answers on logins: what there is with 200, a login or an account that is not
/// there with 404 and its id, and one that could not be started with 502 and the reason.
pub proof fn law_answers_on_logins(
    id: &str,
    login: Option<LoginStatus>,
    told: Result<(u16, LoginStatus), Refusal>,
    cancelled: Result<(u16, LoginStatus), Refusal>,
    started: Option<Result<LoginStatus, String>>,
    start: Result<(u16, LoginStatus), Refusal>,
)
    requires
        call_ensures(get_login, (id, login), told),
        call_ensures(cancel_login, (id, login), cancelled),
        call_ensures(start_login, (id, started), start),
    ensures
        login is Some ==> told is Ok && told->Ok_0.0 == 200 && told->Ok_0.1 == login->0,
        login is None ==> told is Err && told->Err_0.status == 404 && id@.is_suffix_of(
            told->Err_0.message@,
        ),
        login is Some ==> cancelled is Ok && cancelled->Ok_0.0 == 200 && cancelled->Ok_0.1
            == login->0,
        login is None ==> cancelled is Err && cancelled->Err_0.status == 404 && id@.is_suffix_of(
            cancelled->Err_0.message@,
        ),
        started is None ==> start is Err && start->Err_0.status == 404 && id@.is_suffix_of(
            start->Err_0.message@,
        ),
        started is Some && started->0 is Ok ==> start is Ok && start->Ok_0.0 == 200
            && start->Ok_0.1 == started->0->Ok_0,
        started is Some && started->0 is Err ==> start is Err && start->Err_0.status == 502
            && start->Err_0.message@ == started->0->Err_0@,
{
    law_missing_things_are_named(id@);
}

/// An account whose first login could not be started is deleted again, and no other is; one whose login
/// was started stays.
pub proof fn law_account_without_login_is_deleted(
    accounts: &mut AccountRegistry,
    account: StoredAccount,
    started: Result<LoginStatus, String>,
    r: Result<(u16, StoredAccount, LoginStatus), (Refusal, Vec<String>)>,
    i: int,
)
    requires
        call_ensures(create_and_start_login, (accounts, account, started), r),
    ensures
        started is Ok ==> r is Ok && r->Ok_0.0 == 201 && r->Ok_0.1 == account && r->Ok_0.2
            == started->Ok_0 && final(accounts)@ == old(accounts)@,
        started is Err ==> r is Err && r->Err_0.0.status == 502 && r->Err_0.0.message@
            == started->Err_0@,
        started is Err ==> (final(accounts)@.listed.contains(i) <==> old(
            accounts,
        )@.listed.contains(i) && old(accounts)@.handles[i].record.id != account@.id),
        final(accounts)@.handles == old(accounts)@.handles,
        final(accounts)@.affinity == old(accounts)@.affinity,
{
    registry::law_who_stays(accounts@, account@.id, i);
}

} // verus!
