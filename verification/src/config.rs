//! Process settings, taken from a configuration that the `config` crate has
//! loaded.

use vstd::prelude::*;

verus! {

/// How to reach the Telegram bot API.
#[derive(Debug)]
pub struct TelegramConfig {
    pub api_key: String,
}

/// The settings of a service.
#[derive(Debug)]
pub struct Settings {
    pub telegram: TelegramConfig,
}

/// `config::Config`, a loaded configuration, as an opaque value.
#[verifier::external_type_specification]
#[verifier::external_body]
pub struct ExConfig(::config::Config);

/// `config::ConfigError`, handed on to the caller as it comes.
#[verifier::external_type_specification]
#[verifier::external_body]
pub struct ExConfigError(::config::ConfigError);

/// The text that a configuration holds under the path `key`, as
/// `Config::get_str` reports it: `None` where the path leads nowhere or to
/// a table or an array.
pub uninterp spec fn config_text(source: ::config::Config, key: Seq<char>) -> Option<Seq<char>>;

/// `Config::get_str`: the text under `key`, or the error that says why
/// there is none. A path with a subscript is left out: the lookup counts
/// back from the end of an array for a negative one, without a check.
#[verifier::external_body]
fn read_text(source: &::config::Config, key: &str) -> (r: Result<String, ::config::ConfigError>)
    requires
        !key@.contains('['),
    ensures
        r is Err <==> config_text(*source, key@) is None,
        r matches Ok(text) ==> config_text(*source, key@) == Some(text@),
{
    source.get_str(key)
}

impl Settings {
    /// The settings that a loaded configuration holds: the bot's API key is
    /// the text under `telegram.api_key`, and a configuration without one
    /// is refused. Finding and reading the configuration file is the
    /// caller's part.
    pub fn new(source: &::config::Config) -> (r: Result<Settings, ::config::ConfigError>)
        ensures
            r is Err <==> config_text(*source, "telegram.api_key"@) is None,
            r matches Ok(settings) ==> config_text(*source, "telegram.api_key"@) == Some(
                settings.telegram.api_key@,
            ),
    {
        proof {
            reveal_strlit("telegram.api_key");
            assert forall|i: int| 0 <= i < "telegram.api_key"@.len() implies "telegram.api_key"@[i]
                != '[' by {}
        }
        match read_text(source, "telegram.api_key") {
            Ok(api_key) => Ok(Settings { telegram: TelegramConfig { api_key } }),
            Err(error) => Err(error),
        }
    }
}

} // verus!
