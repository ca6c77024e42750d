//! Logins that are under way, and how they ended.

use vstd::prelude::*;
use vstd::string::*;

use crate::ids;
use crate::string_map::StringMap;
use crate::text;

verus! {

/// How an account logs in.
#[derive(Clone, Copy, Debug, PartialEq, Eq, Structural)]
pub enum LoginKind {
    Browser,
    DeviceCode,
}

/// How far a login has come.
#[derive(Clone, Copy, Debug, PartialEq, Eq, Structural)]
pub enum LoginPhase {
    Pending,
    Succeeded,
    Failed,
    Cancelled,
}

/// A login.
#[derive(Debug)]
pub struct LoginStatus {
    pub login_id: String,
    pub account_id: String,
    pub kind: LoginKind,
    pub phase: LoginPhase,
    /// Where to log in with a browser.
    pub auth_url: Option<String>,
    /// Where to enter the code of a device.
    pub verification_url: Option<String>,
    /// The code of a device.
    pub user_code: Option<String>,
    pub error: Option<String>,
}

/// A login, as mathematics sees it.
pub struct LoginView {
    pub login_id: Seq<char>,
    pub account_id: Seq<char>,
    pub kind: LoginKind,
    pub phase: LoginPhase,
    pub auth_url: Option<Seq<char>>,
    pub verification_url: Option<Seq<char>>,
    pub user_code: Option<Seq<char>>,
    pub error: Option<Seq<char>>,
}

impl LoginStatus {
    pub open spec fn view(&self) -> LoginView {
        LoginView {
            login_id: self.login_id@,
            account_id: self.account_id@,
            kind: self.kind,
            phase: self.phase,
            auth_url: text::text_in(self.auth_url),
            verification_url: text::text_in(self.verification_url),
            user_code: text::text_in(self.user_code),
            error: text::text_in(self.error),
        }
    }
}

impl Clone for LoginStatus {
    fn clone(&self) -> (r: Self)
        ensures
            r@ == self@,
    {
        LoginStatus {
            login_id: self.login_id.clone(),
            account_id: self.account_id.clone(),
            kind: self.kind,
            phase: self.phase,
            auth_url: text::copy_text(&self.auth_url),
            verification_url: text::copy_text(&self.verification_url),
            user_code: text::copy_text(&self.user_code),
            error: text::copy_text(&self.error),
        }
    }
}

/// A login with a browser that begins.
pub open spec fn browser_login(
    login_id: Seq<char>,
    account_id: Seq<char>,
    auth_url: Seq<char>,
) -> LoginView {
    LoginView {
        login_id,
        account_id,
        kind: LoginKind::Browser,
        phase: LoginPhase::Pending,
        auth_url: Some(auth_url),
        verification_url: None,
        user_code: None,
        error: None,
    }
}

/// A login with the code of a device that begins.
pub open spec fn device_code_login(
    login_id: Seq<char>,
    account_id: Seq<char>,
    verification_url: Seq<char>,
    user_code: Seq<char>,
) -> LoginView {
    LoginView {
        login_id,
        account_id,
        kind: LoginKind::DeviceCode,
        phase: LoginPhase::Pending,
        auth_url: None,
        verification_url: Some(verification_url),
        user_code: Some(user_code),
        error: None,
    }
}

impl LoginView {
    /// The login after it ended by itself: well, or with an error. A login with a browser that was
    /// cancelled ends with the error that this causes, which is not told.
    pub open spec fn ended(self, result: Result<(), Seq<char>>) -> LoginView {
        match result {
            Ok(_) => LoginView { phase: LoginPhase::Succeeded, error: None, ..self },
            Err(error) => if self.kind == LoginKind::Browser && self.phase
                == LoginPhase::Cancelled {
                self
            } else {
                LoginView { phase: LoginPhase::Failed, error: Some(error), ..self }
            },
        }
    }

    /// The login after it was cancelled.
    pub open spec fn cancelled(self) -> LoginView {
        LoginView { phase: LoginPhase::Cancelled, error: Some("login cancelled"@), ..self }
    }
}

/// The logins there have been.
pub struct LoginManager {
    entries: StringMap<LoginStatus>,
}

/// The logins behind their statuses.
pub open spec fn login_views(entries: Map<Seq<char>, LoginStatus>) -> Map<Seq<char>, LoginView> {
    entries.map_values(|s: LoginStatus| s@)
}

impl Default for LoginManager {
    fn default() -> (r: Self)
        ensures
            r@ == Map::<Seq<char>, LoginView>::empty(),
    {
        let r = LoginManager { entries: StringMap::new() };
        assert(r@ =~= Map::<Seq<char>, LoginView>::empty());
        r
    }
}

impl LoginManager {
    /// The logins, by their ids.
    pub closed spec fn view(&self) -> Map<Seq<char>, LoginView> {
        login_views(self.entries@)
    }

    fn put(&mut self, login: LoginStatus)
        ensures
            final(self)@ == old(self)@.insert(login@.login_id, login@),
    {
        let ghost before = self@;
        let id = login.login_id.clone();
        self.entries.insert(id, login);
        assert(self@ =~= before.insert(login@.login_id, login@));
    }

    /// Takes up a login with a browser for an account, at the given address.
    pub fn start_browser_login(&mut self, account_id: &str, auth_url: String) -> (login: LoginStatus)
        ensures
            ids::is_uuid(login@.login_id),
            login@ == browser_login(login@.login_id, account_id@, auth_url@),
            final(self)@ == old(self)@.insert(login@.login_id, login@),
    {
        let login = LoginStatus {
            login_id: ids::new_uuid(),
            account_id: account_id.to_string(),
            kind: LoginKind::Browser,
            phase: LoginPhase::Pending,
            auth_url: Some(auth_url),
            verification_url: None,
            user_code: None,
            error: None,
        };
        self.put(login.clone());
        login
    }

    /// Takes up a login with the code of a device for an account.
    pub fn start_device_code_login(
        &mut self,
        account_id: &str,
        verification_url: String,
        user_code: String,
    ) -> (login: LoginStatus)
        ensures
            ids::is_uuid(login@.login_id),
            login@ == device_code_login(
                login@.login_id,
                account_id@,
                verification_url@,
                user_code@,
            ),
            final(self)@ == old(self)@.insert(login@.login_id, login@),
    {
        let login = LoginStatus {
            login_id: ids::new_uuid(),
            account_id: account_id.to_string(),
            kind: LoginKind::DeviceCode,
            phase: LoginPhase::Pending,
            auth_url: None,
            verification_url: Some(verification_url),
            user_code: Some(user_code),
            error: None,
        };
        self.put(login.clone());
        login
    }

    /// The login with an id.
    pub fn get(&self, login_id: &str) -> (r: Option<LoginStatus>)
        ensures
            match r {
                Some(login) => self@.contains_key(login_id@) && self@[login_id@] == login@,
                None => !self@.contains_key(login_id@),
            },
    {
        match self.entries.get(login_id) {
            Some(login) => Some(login.clone()),
            None => None,
        }
    }

    /// Cancels the login with an id.
    pub fn cancel(&mut self, login_id: &str) -> (r: Option<LoginStatus>)
        ensures
            match r {
                Some(login) => {
                    &&& old(self)@.contains_key(login_id@)
                    &&& login@ == old(self)@[login_id@].cancelled()
                    &&& final(self)@ == old(self)@.insert(login_id@, login@)
                },
                None => !old(self)@.contains_key(login_id@) && final(self)@ == old(self)@,
            },
    {
        let ghost before = self@;
        match self.entries.remove(login_id) {
            Some(mut login) => {
                login.phase = LoginPhase::Cancelled;
                login.error = Some("login cancelled".to_string());
                let told = login.clone();
                self.entries.insert(login_id.to_string(), login);
                assert(self@ =~= before.insert(login_id@, told@));
                Some(told)
            },
            None => {
                assert(self@ =~= before);
                None
            },
        }
    }

    /// Takes note that the login with an id ended by itself: well, or with an error.
    pub fn finish(&mut self, login_id: &str, result: Result<(), String>)
        ensures
            final(self)@ == if old(self)@.contains_key(login_id@) {
                old(self)@.insert(
                    login_id@,
                    old(self)@[login_id@].ended(
                        match result {
                            Ok(_) => Ok(()),
                            Err(error) => Err(error@),
                        },
                    ),
                )
            } else {
                old(self)@
            },
    {
        let ghost before = self@;
        match self.entries.remove(login_id) {
            Some(mut login) => {
                match result {
                    Ok(_) => {
                        login.phase = LoginPhase::Succeeded;
                        login.error = None;
                    },
                    Err(error) => {
                        if !(login.kind == LoginKind::Browser && login.phase
                            == LoginPhase::Cancelled) {
                            login.phase = LoginPhase::Failed;
                            login.error = Some(error);
                        }
                    },
                }
                self.entries.insert(login_id.to_string(), login);
                assert(self@ =~= before.insert(login_id@, login@));
            },
            None => {
                assert(self@ =~= before);
            },
        }
    }
}

/// A login with a browser that was cancelled stays cancelled when its server stops with an error.
pub proof fn law_cancelled_browser_login_stays_cancelled(login: LoginView, error: Seq<char>)
    requires
        login.kind == LoginKind::Browser,
    ensures
        login.cancelled().ended(Err(error)) == login.cancelled(),
{
}

/// Neither cancelling a login nor its end changes who logs in, how, and where.
pub proof fn law_login_keeps_its_identity(login: LoginView, result: Result<(), Seq<char>>)
    ensures
        login.cancelled().same_login(login),
        login.ended(result).same_login(login),
        result is Ok ==> login.ended(result).phase == LoginPhase::Succeeded && login.ended(
            result,
        ).error is None,
{
}

impl LoginView {
    /// The two differ in how far they have come at most.
    pub open spec fn same_login(self, other: LoginView) -> bool {
        LoginView { phase: other.phase, error: other.error, ..self } == other
    }
}

/// A login that begins is pending, for the account and of the kind that was asked for, with the address
/// of its kind and no other, and without an error.
pub proof fn law_logins_begin(
    login_id: Seq<char>,
    account_id: Seq<char>,
    url: Seq<char>,
    user_code: Seq<char>,
)
    ensures
        ({
            let browser = browser_login(login_id, account_id, url);
            let device = device_code_login(login_id, account_id, url, user_code);
            &&& browser.kind == LoginKind::Browser
            &&& browser.auth_url == Some(url)
            &&& browser.verification_url is None
            &&& browser.user_code is None
            &&& device.kind == LoginKind::DeviceCode
            &&& device.auth_url is None
            &&& device.verification_url == Some(url)
            &&& device.user_code == Some(user_code)
            &&& browser.login_id == login_id && device.login_id == login_id
            &&& browser.account_id == account_id && device.account_id == account_id
            &&& browser.phase == LoginPhase::Pending && device.phase == LoginPhase::Pending
            &&& browser.error is None && device.error is None
        }),
{
}

/// A login that ends with an error has failed with it, but for one with a browser that was cancelled
/// before. One that ends well has succeeded, also if it was cancelled. A cancelled one is so whatever
/// came before.
pub proof fn law_logins_end(login: LoginView, error: Seq<char>)
    ensures
        login.ended(Ok(())).phase == LoginPhase::Succeeded,
        login.ended(Ok(())).error is None,
        login.kind == LoginKind::DeviceCode || login.phase != LoginPhase::Cancelled ==> login.ended(
            Err(error),
        ).phase == LoginPhase::Failed && login.ended(Err(error)).error == Some(error),
        login.kind == LoginKind::Browser && login.phase == LoginPhase::Cancelled ==> login.ended(
            Err(error),
        ) == login,
        login.cancelled().phase == LoginPhase::Cancelled,
        login.cancelled().error == Some("login cancelled"@),
{
}

/// A login that is started is pending under an id of its own, and is found by it as it was told.
pub proof fn law_starting_a_login(
    manager: &mut LoginManager,
    account_id: &str,
    auth_url: String,
    login: LoginStatus,
    other: Seq<char>,
)
    requires
        call_ensures(LoginManager::start_browser_login, (manager, account_id, auth_url), login),
    ensures
        login@.phase == LoginPhase::Pending,
        login@.kind == LoginKind::Browser,
        login@.account_id == account_id@,
        login@.auth_url == Some(auth_url@),
        login@.verification_url is None && login@.user_code is None && login@.error is None,
        final(manager)@.contains_key(login@.login_id),
        final(manager)@[login@.login_id] == login@,
        other != login@.login_id ==> (final(manager)@.contains_key(other) <==> old(
            manager,
        )@.contains_key(other)) && final(manager)@[other] == old(manager)@[other],
{
}

/// A login by a code is started in the same way, with the address and the code that are to be told.
pub proof fn law_starting_a_login_by_code(
    manager: &mut LoginManager,
    account_id: &str,
    verification_url: String,
    user_code: String,
    login: LoginStatus,
    other: Seq<char>,
)
    requires
        call_ensures(
            LoginManager::start_device_code_login,
            (manager, account_id, verification_url, user_code),
            login,
        ),
    ensures
        login@.phase == LoginPhase::Pending,
        login@.kind == LoginKind::DeviceCode,
        login@.account_id == account_id@,
        login@.verification_url == Some(verification_url@),
        login@.user_code == Some(user_code@),
        login@.auth_url is None && login@.error is None,
        final(manager)@.contains_key(login@.login_id),
        final(manager)@[login@.login_id] == login@,
        other != login@.login_id ==> (final(manager)@.contains_key(other) <==> old(
            manager,
        )@.contains_key(other)) && final(manager)@[other] == old(manager)@[other],
{
}

/// Cancelling a login answers with it exactly if there is one, as cancelled, and touches no other.
pub proof fn law_cancelling_a_login(
    manager: &mut LoginManager,
    login_id: &str,
    r: Option<LoginStatus>,
    other: Seq<char>,
)
    requires
        call_ensures(LoginManager::cancel, (manager, login_id), r),
    ensures
        r is Some <==> old(manager)@.contains_key(login_id@),
        r matches Some(login) ==> {
            &&& login@.phase == LoginPhase::Cancelled
            &&& login@.error == Some("login cancelled"@)
            &&& login@.account_id == old(manager)@[login_id@].account_id
            &&& login@.kind == old(manager)@[login_id@].kind
            &&& final(manager)@.contains_key(login_id@)
            &&& final(manager)@[login_id@] == login@
        },
        other != login_id@ ==> (final(manager)@.contains_key(other) <==> old(
            manager,
        )@.contains_key(other)) && final(manager)@[other] == old(manager)@[other],
{
}

/// A login that ends well has succeeded, and one that does not has failed for the reason, but for one in
/// the browser that was cancelled before; no other login changes, and none appears.
pub proof fn law_finishing_a_login(
    manager: &mut LoginManager,
    login_id: &str,
    result: Result<(), String>,
    r: (),
    other: Seq<char>,
)
    requires
        call_ensures(LoginManager::finish, (manager, login_id, result), r),
    ensures
        ({
            let before = old(manager)@[login_id@];
            let after = final(manager)@[login_id@];
            old(manager)@.contains_key(login_id@) ==> {
                &&& result is Ok ==> after.phase == LoginPhase::Succeeded && after.error is None
                &&& result is Err && before.kind == LoginKind::Browser && before.phase
                    == LoginPhase::Cancelled ==> after == before
                &&& result is Err && !(before.kind == LoginKind::Browser && before.phase
                    == LoginPhase::Cancelled) ==> after.phase == LoginPhase::Failed && after.error
                    == Some(result->Err_0@)
                &&& after.account_id == before.account_id
                &&& after.kind == before.kind
            }
        }),
        final(manager)@.dom() == old(manager)@.dom(),
        other != login_id@ ==> final(manager)@[other] == old(manager)@[other],
{
    assert(final(manager)@.dom() =~= old(manager)@.dom());
}

} // verus!
