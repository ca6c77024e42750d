//! The proxy's configuration.

use vstd::prelude::*;
use vstd::string::*;

use crate::paths;
use crate::text;

verus! {

/// Where the proxy listens, if nothing else is configured.
pub const DEFAULT_LISTEN_ADDR: &'static str = "127.0.0.1:8080";

/// After how many seconds a request to the upstream is given up, if nothing else is configured.
pub const DEFAULT_REQUEST_TIMEOUT_SECS: u64 = 600;

/// The directory with the proxy's data, in the user's home directory.
pub const DATA_DIR_NAME: &'static str = ".openai-codex-proxy";

/// The configuration.
#[derive(Debug)]
pub struct AppConfig {
    /// The address to listen on.
    pub listen_addr: String,
    /// The directory with the data.
    pub data_dir: String,
    /// After how many seconds a request to the upstream is given up.
    pub request_timeout_secs: u64,
}

/// The timeout that a setting stands for.
pub open spec fn timeout_of(setting: Option<Seq<char>>) -> Option<int> {
    match setting {
        Some(setting) => text::int_value_within(setting, false, 0, u64::MAX as int),
        None => Some(DEFAULT_REQUEST_TIMEOUT_SECS as int),
    }
}

/// The address that is to be listened on, as it is written in the settings.
pub open spec fn listen_text(setting: Option<Seq<char>>) -> Seq<char> {
    match setting {
        Some(setting) => setting,
        None => DEFAULT_LISTEN_ADDR@,
    }
}

/// The address that is to be listened on, as it is written in the settings.
pub fn listen_setting(setting: Option<String>) -> (r: String)
    ensures
        r@ == listen_text(text::text_in(setting)),
{
    match setting {
        Some(setting) => setting,
        None => DEFAULT_LISTEN_ADDR.to_string(),
    }
}

/// The directory with the proxy's data, in the user's home directory.
pub open spec fn data_dir_of(home: Seq<char>) -> Seq<char> {
    paths::joined(home, DATA_DIR_NAME@)
}

/// The directory with the proxy's data, in the user's home directory.
pub fn data_dir_in(home: &str) -> (data_dir: String)
    ensures
        data_dir@ == data_dir_of(home@),
        home@.len() > 0 && home@.last() != '/' ==> data_dir@ == home@ + "/"@ + DATA_DIR_NAME@,
{
    proof {
        reveal_strlit(".openai-codex-proxy");
    }
    paths::join(home, DATA_DIR_NAME)
}

impl AppConfig {
    /// The configuration that the given settings of the environment stand for, for a user with the
    /// given home directory. `is_address` tells whether the text of `listen_setting` is an address. It
    /// fails exactly if that is none, or the timeout is no number of seconds.
    pub fn from_env(
        listen_addr: Option<String>,
        is_address: bool,
        home: &str,
        request_timeout_secs: Option<String>,
    ) -> (r: Result<AppConfig, String>)
        ensures
            match r {
                Ok(config) => {
                    &&& is_address
                    &&& config.listen_addr@ == listen_text(text::text_in(listen_addr))
                    &&& config.data_dir@ == data_dir_of(home@)
                    &&& home@.len() > 0 && home@.last() != '/' ==> config.data_dir@ == home@ + "/"@
                        + DATA_DIR_NAME@
                    &&& timeout_of(text::text_in(request_timeout_secs)) == Some(
                        config.request_timeout_secs as int,
                    )
                },
                Err(message) => if !is_address {
                    message@ == "failed to parse OCP_LISTEN_ADDR"@
                } else {
                    &&& timeout_of(text::text_in(request_timeout_secs)) is None
                    &&& message@ == "failed to parse OCP_REQUEST_TIMEOUT_SECS"@
                },
            },
    {
        if !is_address {
            return Err("failed to parse OCP_LISTEN_ADDR".to_string());
        }
        let request_timeout_secs: u64 = match request_timeout_secs {
            Some(setting) => match text::parse_unsigned(setting.as_str(), u64::MAX) {
                Some(seconds) => seconds,
                None => {
                    return Err("failed to parse OCP_REQUEST_TIMEOUT_SECS".to_string());
                },
            },
            None => DEFAULT_REQUEST_TIMEOUT_SECS,
        };
        Ok(
            AppConfig {
                listen_addr: listen_setting(listen_addr),
                data_dir: data_dir_in(home),
                request_timeout_secs,
            },
        )
    }
}

/// Whatever else is configured, the data is kept in the home directory, under a name that is fixed.
pub proof fn law_data_dir_is_fixed(home: Seq<char>)
    ensures
        ({
            let data_dir = data_dir_of(home);
            let at = data_dir.len() - DATA_DIR_NAME@.len();
            &&& 0 <= at
            &&& data_dir.skip(at) == DATA_DIR_NAME@
            &&& home.is_prefix_of(data_dir)
            &&& data_dir.last() != '/'
        }),
{
    reveal_strlit(".openai-codex-proxy");
    let data_dir = data_dir_of(home);
    assert(data_dir.skip(data_dir.len() - DATA_DIR_NAME@.len()) =~= DATA_DIR_NAME@);
    assert(data_dir.last() == DATA_DIR_NAME@.last());
    assert(home =~= data_dir.take(home.len() as int));
}

/// What is not configured has its default: the proxy listens on port 8080 of this machine, and a request
/// to the upstream is given up after 600 seconds. What is configured is taken as it is written, the
/// timeout where it is a number of seconds of 64 bits.
pub proof fn law_settings(setting: Seq<char>, n: int)
    ensures
        listen_text(None) == "127.0.0.1:8080"@,
        listen_text(Some(setting)) == setting,
        timeout_of(None) == Some(600int),
        timeout_of(Some(setting)) == Some(n) <==> text::int_value(setting, false) == Some(n) && 0
            <= n <= 0xffff_ffff_ffff_ffff,
{
}

/// The settings are read exactly if the address can be read and the time is a number; the data stand
/// below the home directory.
pub proof fn law_reading_settings(
    listen_addr: Option<String>,
    is_address: bool,
    home: &str,
    request_timeout_secs: Option<String>,
    r: Result<AppConfig, String>,
)
    requires
        call_ensures(AppConfig::from_env, (listen_addr, is_address, home, request_timeout_secs), r),
    ensures
        r is Ok <==> is_address && (request_timeout_secs is None || text::int_value_within(
            request_timeout_secs->0@,
            false,
            0,
            u64::MAX as int,
        ) is Some),
        !is_address ==> r is Err && r->Err_0@ == "failed to parse OCP_LISTEN_ADDR"@,
        is_address && r is Err ==> r->Err_0@ == "failed to parse OCP_REQUEST_TIMEOUT_SECS"@,
        r matches Ok(config) ==> {
            &&& listen_addr matches Some(setting) ==> config.listen_addr@ == setting@
            &&& listen_addr is None ==> config.listen_addr@ == "127.0.0.1:8080"@
            &&& request_timeout_secs is None ==> config.request_timeout_secs == 600
            &&& request_timeout_secs matches Some(setting) ==> text::int_value_within(
                setting@,
                false,
                0,
                u64::MAX as int,
            ) == Some(config.request_timeout_secs as int)
            &&& home@.len() > 0 && home@.last() != '/' ==> home@.is_prefix_of(config.data_dir@)
        },
{
    if r is Ok && home@.len() > 0 && home@.last() != '/' {
        let config = r->Ok_0;
        assert(config.data_dir@.take(home@.len() as int) =~= home@);
    }
}

} // verus!
