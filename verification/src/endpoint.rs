//! The address of the control server.

use url::Url;
use vstd::prelude::*;

use crate::config::Config;
use crate::text::concat3;

verus! {

/// `url::ParseError`, which says why a text is no URL.
#[verifier::external_type_specification]
#[verifier::external_body]
pub struct ExUrlParseError(url::ParseError);

/// The serialization of the URL that `url::Url::parse` reads in a text, where it reads one.
pub uninterp spec fn parsed_url(text: Seq<char>) -> Option<Seq<char>>;

/// `url::Url::parse`: the URL that `text` writes, in its serialization, or an error where
/// it writes none.
#[verifier::external_body]
pub(crate) fn parse_url(text: &str) -> (parsed: Result<String, url::ParseError>)
    ensures
        match parsed {
            Ok(url) => parsed_url(text@) == Some(url@),
            Err(_) => parsed_url(text@) is None,
        },
{
    Url::parse(text).map(|url| url.as_str().to_owned())
}

/// The address of the control server is no URL.
#[derive(Clone, Copy, Debug, PartialEq, Eq, Structural)]
pub struct InvalidApiUrl;

/// The address that a worker connects to: the configured one or else the default one, with
/// the token behind it.
pub open spec fn api_address(config: Config) -> Seq<char> {
    (match config.api_url {
        Some(url) => url@,
        None => "wss://eu-1.runners.playground.flat.rs/v1"@,
    }) + "?token="@ + config.api_token@
}

/// The address that a worker connects to, as it is written.
pub fn api_address_text(config: &Config) -> (address: String)
    ensures
        address@ == api_address(*config),
{
    match &config.api_url {
        Some(url) => concat3(url, "?token=", &config.api_token),
        None => concat3(
            "wss://eu-1.runners.playground.flat.rs/v1",
            "?token=",
            &config.api_token,
        ),
    }
}

/// The URL that a worker connects to.
pub fn connection_url(config: &Config) -> (url: Result<String, InvalidApiUrl>)
    ensures
        match url {
            Ok(url) => parsed_url(api_address(*config)) == Some(url@),
            Err(_) => parsed_url(api_address(*config)) is None,
        },
{
    let address = api_address_text(config);
    match parse_url(&address) {
        Ok(url) => Ok(url),
        Err(_) => Err(InvalidApiUrl),
    }
}

/// The address starts with the configured one, or with the default one where none is
/// configured, and ends in the token; between them is `?token=`, and nothing else.
pub proof fn law_address_bears_server_and_token(config: Config)
    ensures
        ({
            let address = api_address(config);
            let server = match config.api_url {
                Some(url) => url@,
                None => "wss://eu-1.runners.playground.flat.rs/v1"@,
            };
            let token = config.api_token@;
            &&& address.len() == server.len() + 7 + token.len()
            &&& address.take(server.len() as int) == server
            &&& address.subrange(server.len() as int, (server.len() + 7) as int) == "?token="@
            &&& address.skip((server.len() + 7) as int) == token
        }),
{
    reveal_strlit("?token=");
    let address = api_address(config);
    let server = match config.api_url {
        Some(url) => url@,
        None => "wss://eu-1.runners.playground.flat.rs/v1"@,
    };
    assert(address.take(server.len() as int) =~= server);
    assert(address.subrange(server.len() as int, (server.len() + 7) as int) =~= "?token="@);
    assert(address.skip((server.len() + 7) as int) =~= config.api_token@);
}

} // verus!
