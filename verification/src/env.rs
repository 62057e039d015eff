//! Environment configuration: the values the bot is started with, and
//! their validation.

use vstd::prelude::*;

use crate::error::BotError;
use crate::text::{concat2, concat3, decimal, push_decimal, str_eq};

verus! {

/// What the bot reads of a parsed URL.
#[derive(Debug, Clone)]
pub struct UrlParts {
    /// The scheme, such as `https`
    pub scheme: String,
    /// The host, if the URL has one
    pub host: Option<String>,
    /// The port, when it is given and not the scheme's default
    pub port: Option<u16>,
    /// The URL's serialization
    pub text: String,
}

/// A URL's parts as plain values: scheme, host, port and serialization.
pub type UrlView = (Seq<char>, Option<Seq<char>>, Option<u16>, Seq<char>);

impl View for UrlParts {
    type V = UrlView;

    open spec fn view(&self) -> UrlView {
        (
            self.scheme@,
            match self.host {
                Some(h) => Some(h@),
                None => None,
            },
            self.port,
            self.text@,
        )
    }
}

/// What `url::Url::parse` gives for `input`: the parsed URL's scheme,
/// host, port and serialization, or the text of the parse error.
pub uninterp spec fn url_parse_result(input: Seq<char>) -> Result<UrlView, Seq<char>>;

/// `url::Url::parse`, with the parsed URL's `scheme()`, `host_str()`,
/// `port()` and `as_str()` read out, or the parse error's text; claimed:
/// the result is `url_parse_result(input@)`.
#[verifier::external_body]
fn parse_url(input: &str) -> (r: Result<UrlParts, String>)
    ensures
        url_parse_result(input@) == (match r {
            Ok(p) => Ok(p@),
            Err(e) => Err(e@),
        }),
{
    match url::Url::parse(input) {
        Ok(u) => Ok(
            UrlParts {
                scheme: u.scheme().to_string(),
                host: u.host_str().map(String::from),
                port: u.port(),
                text: u.as_str().to_string(),
            },
        ),
        Err(e) => Err(e.to_string()),
    }
}

/// Application environment configuration
#[derive(Debug, Clone)]
pub struct Env {
    /// Inbound webhook URL
    pub inbound: UrlParts,
    /// Outbound webhook URL
    pub outbound: UrlParts,
    /// Telegram bot token
    pub bot_token: String,
    /// Database file path
    pub database_path: String,
}

/// The view of a configuration: inbound and outbound URLs, token and
/// database path.
pub type EnvView = (UrlView, UrlView, Seq<char>, Seq<char>);

/// The default port of a web scheme: 80 for `http`, 443 for `https`.
pub open spec fn default_port(scheme: Seq<char>) -> Option<u16> {
    if scheme == "http"@ {
        Some(80u16)
    } else if scheme == "https"@ {
        Some(443u16)
    } else {
        None
    }
}

/// The port to listen on: the URL's own port, else its scheme's default.
pub open spec fn inbound_port(scheme: Seq<char>, port: Option<u16>) -> Option<u16> {
    match port {
        Some(p) => Some(p),
        None => default_port(scheme),
    }
}

/// Whether a scheme is `http` or `https`.
pub open spec fn web_scheme(scheme: Seq<char>) -> bool {
    scheme == "http"@ || scheme == "https"@
}

/// The configuration, or the text of the configuration error, from the
/// token, the inbound and outbound URLs (each as it was parsed, `None`
/// when the variable is missing) and the database path. The checks come in
/// this order: token present, token not empty, inbound present, inbound
/// parsed, outbound present, outbound parsed, inbound scheme web, outbound
/// scheme web; the database path defaults to `sqlite:bot_data.db`.
pub open spec fn env_outcome(
    token: Option<Seq<char>>,
    inbound: Option<Result<UrlView, Seq<char>>>,
    outbound: Option<Result<UrlView, Seq<char>>>,
    database_path: Option<Seq<char>>,
) -> Result<EnvView, Seq<char>> {
    match (token, inbound, outbound) {
        (None, _, _) => Err("TELOXIDE_TOKEN environment variable is required"@),
        (Some(t), _, _) if t.len() == 0 => Err("TELOXIDE_TOKEN cannot be empty"@),
        (_, None, _) => Err("INBOUND environment variable is required"@),
        (_, Some(Err(e)), _) => Err("Invalid INBOUND URL: "@ + e),
        (_, _, None) => Err("OUTBOUND environment variable is required"@),
        (_, _, Some(Err(e))) => Err("Invalid OUTBOUND URL: "@ + e),
        (Some(t), Some(Ok(i)), Some(Ok(o))) => if !web_scheme(i.0) {
            Err("INBOUND URL must use http or https scheme"@)
        } else if !web_scheme(o.0) {
            Err("OUTBOUND URL must use http or https scheme"@)
        } else {
            Ok(
                (
                    i,
                    o,
                    t,
                    match database_path {
                        Some(p) => p,
                        None => "sqlite:bot_data.db"@,
                    },
                ),
            )
        },
    }
}

/// `r` is the configuration error with text `text`, or the configuration
/// with view `view`, as `outcome` says.
pub open spec fn env_result_is(r: Result<Env, BotError>, outcome: Result<EnvView, Seq<char>>) -> bool {
    match outcome {
        Ok(v) => r matches Ok(env) && (env.inbound@, env.outbound@, env.bot_token@, env.database_path@) == v,
        Err(m) => r matches Err(BotError::Config(e)) && e@ == m,
    }
}

/// How a URL variable was parsed, when present.
pub open spec fn parsed(input: Option<String>) -> Option<Result<UrlView, Seq<char>>> {
    match input {
        Some(s) => Some(url_parse_result(s@)),
        None => None,
    }
}

/// The view of a present variable.
pub open spec fn var_view(v: Option<String>) -> Option<Seq<char>> {
    match v {
        Some(s) => Some(s@),
        None => None,
    }
}

/// The view of a parse result.
pub open spec fn parse_view(p: Option<Result<UrlParts, String>>) -> Option<Result<UrlView, Seq<char>>> {
    match p {
        Some(Ok(u)) => Some(Ok(u@)),
        Some(Err(e)) => Some(Err(e@)),
        None => None,
    }
}

fn is_web_scheme(scheme: &str) -> (r: bool)
    ensures
        r == web_scheme(scheme@),
{
    str_eq(scheme, "http") || str_eq(scheme, "https")
}

impl Env {
    /// Initialize and validate the configuration from the environment's
    /// values (`None` for a variable that is not set): the token, the
    /// inbound and outbound URLs, and the database path.
    pub fn init(
        bot_token: Option<String>,
        inbound: Option<String>,
        outbound: Option<String>,
        database_path: Option<String>,
    ) -> (r: Result<Env, BotError>)
        ensures
            env_result_is(
                r,
                env_outcome(var_view(bot_token), parsed(inbound), parsed(outbound), var_view(database_path)),
            ),
    {
        let inbound_parsed = match &inbound {
            Some(s) => Some(parse_url(s.as_str())),
            None => None,
        };
        let outbound_parsed = match &outbound {
            Some(s) => Some(parse_url(s.as_str())),
            None => None,
        };
        assert(parse_view(inbound_parsed) == parsed(inbound));
        assert(parse_view(outbound_parsed) == parsed(outbound));
        Env::from_parsed(bot_token, inbound_parsed, outbound_parsed, database_path)
    }

    /// The configuration from the token, the inbound and outbound URLs as
    /// parsed (`None` when not set) and the database path.
    pub fn from_parsed(
        bot_token: Option<String>,
        inbound: Option<Result<UrlParts, String>>,
        outbound: Option<Result<UrlParts, String>>,
        database_path: Option<String>,
    ) -> (r: Result<Env, BotError>)
        ensures
            env_result_is(
                r,
                env_outcome(
                    var_view(bot_token),
                    parse_view(inbound),
                    parse_view(outbound),
                    var_view(database_path),
                ),
            ),
    {
        let bot_token = match bot_token {
            None => {
                return Err(
                    BotError::Config("TELOXIDE_TOKEN environment variable is required".to_owned()),
                );
            },
            Some(t) => t,
        };
        if bot_token.as_str().is_empty() {
            return Err(BotError::Config("TELOXIDE_TOKEN cannot be empty".to_owned()));
        }
        let inbound = match inbound {
            None => {
                return Err(BotError::Config("INBOUND environment variable is required".to_owned()));
            },
            Some(Err(e)) => {
                return Err(BotError::Config(concat2("Invalid INBOUND URL: ", e.as_str())));
            },
            Some(Ok(u)) => u,
        };
        let outbound = match outbound {
            None => {
                return Err(BotError::Config("OUTBOUND environment variable is required".to_owned()));
            },
            Some(Err(e)) => {
                return Err(BotError::Config(concat2("Invalid OUTBOUND URL: ", e.as_str())));
            },
            Some(Ok(u)) => u,
        };
        if !is_web_scheme(inbound.scheme.as_str()) {
            return Err(BotError::Config("INBOUND URL must use http or https scheme".to_owned()));
        }
        if !is_web_scheme(outbound.scheme.as_str()) {
            return Err(BotError::Config("OUTBOUND URL must use http or https scheme".to_owned()));
        }
        let database_path = match database_path {
            Some(p) => p,
            None => "sqlite:bot_data.db".to_owned(),
        };
        Ok(Env { inbound, outbound, bot_token, database_path })
    }

    /// The address `host:port` that the inbound webhook listens on, taken
    /// from the inbound URL, which must have a host; without a port in the
    /// URL, the scheme's default port is used (80 for `http`, 443 for
    /// `https`). The host may be a name, which the caller resolves.
    pub fn inbound_address(&self) -> (r: Result<String, BotError>)
        ensures
            match (self.inbound.host, inbound_port(self.inbound.scheme@, self.inbound.port)) {
                (None, _) => r matches Err(BotError::Config(m)) && m@ == "INBOUND URL must have a host"@,
                (Some(_), None) => r matches Err(BotError::Config(m)) && m@
                    == "INBOUND URL must have a port"@,
                (Some(h), Some(p)) => r matches Ok(a) && a@ == h@ + ":"@ + decimal(p as nat),
            },
    {
        let host = match &self.inbound.host {
            None => {
                return Err(BotError::Config("INBOUND URL must have a host".to_owned()));
            },
            Some(h) => h,
        };
        let port: u16 = match self.inbound.port {
            Some(p) => p,
            None => if str_eq(self.inbound.scheme.as_str(), "http") {
                80
            } else if str_eq(self.inbound.scheme.as_str(), "https") {
                443
            } else {
                return Err(BotError::Config("INBOUND URL must have a port".to_owned()));
            },
        };
        let mut address = concat2(host.as_str(), ":");
        push_decimal(&mut address, port as u64);
        Ok(address)
    }
}

} // verus!
