use ping_buddy_lib::env::{Env, UrlParts};
use ping_buddy_lib::error::BotError;

fn some(s: &str) -> Option<String> {
    Some(s.to_string())
}

fn config_error(r: Result<Env, BotError>) -> String {
    match r {
        Err(BotError::Config(m)) => m,
        Err(other) => panic!("unexpected error {:?}", other),
        Ok(env) => panic!("unexpected success {:?}", env),
    }
}

#[test]
fn missing_token() {
    let r = Env::init(None, some("https://a.example/hook"), some("https://b.example"), None);
    assert_eq!(config_error(r), "TELOXIDE_TOKEN environment variable is required");
}

#[test]
fn empty_token() {
    let r = Env::init(some(""), some("https://a.example/hook"), some("https://b.example"), None);
    assert_eq!(config_error(r), "TELOXIDE_TOKEN cannot be empty");
}

#[test]
fn missing_inbound() {
    let r = Env::init(some("t"), None, some("https://b.example"), None);
    assert_eq!(config_error(r), "INBOUND environment variable is required");
}

#[test]
fn unparsable_inbound() {
    let r = Env::init(some("t"), some("not a url"), some("https://b.example"), None);
    assert_eq!(config_error(r), "Invalid INBOUND URL: relative URL without a base");
}

#[test]
fn missing_outbound() {
    let r = Env::init(some("t"), some("https://a.example/hook"), None, None);
    assert_eq!(config_error(r), "OUTBOUND environment variable is required");
}

#[test]
fn unparsable_outbound() {
    let r = Env::init(some("t"), some("https://a.example/hook"), some("https://"), None);
    assert_eq!(config_error(r), "Invalid OUTBOUND URL: empty host");
}

#[test]
fn inbound_scheme_checked_first() {
    let r = Env::init(some("t"), some("ftp://a.example"), some("ftp://b.example"), None);
    assert_eq!(config_error(r), "INBOUND URL must use http or https scheme");
}

#[test]
fn outbound_scheme_checked() {
    let r = Env::init(some("t"), some("http://a.example"), some("ftp://b.example"), None);
    assert_eq!(config_error(r), "OUTBOUND URL must use http or https scheme");
}

#[test]
fn valid_configuration_with_default_database() {
    let env = Env::init(
        some("123:abc"),
        some("https://bot.example.com:8443/webhook"),
        some("https://api.telegram.org"),
        None,
    )
    .unwrap();
    assert_eq!(env.bot_token, "123:abc");
    assert_eq!(env.database_path, "sqlite:bot_data.db");
    assert_eq!(env.inbound.scheme, "https");
    assert_eq!(env.inbound.host.as_deref(), Some("bot.example.com"));
    assert_eq!(env.inbound.port, Some(8443));
    assert_eq!(env.inbound.text, "https://bot.example.com:8443/webhook");
    assert_eq!(env.outbound.text, "https://api.telegram.org/");
    assert_eq!(env.inbound_address().unwrap(), "bot.example.com:8443");
}

#[test]
fn valid_configuration_with_database() {
    let env = Env::init(
        some("t"),
        some("http://0.0.0.0:80/x"),
        some("http://b.example"),
        some("sqlite:/tmp/db.sqlite"),
    )
    .unwrap();
    assert_eq!(env.database_path, "sqlite:/tmp/db.sqlite");
    // The scheme's default port is not reported by the URL, but used.
    assert_eq!(env.inbound.port, None);
    assert_eq!(env.inbound_address().unwrap(), "0.0.0.0:80");
}

#[test]
fn readme_inbound_example_is_accepted() {
    let env = Env::init(
        some("123:abc"),
        some("https://your-domain.com/webhook"),
        some("https://api.telegram.org"),
        None,
    )
    .unwrap();
    assert_eq!(env.inbound_address().unwrap(), "your-domain.com:443");
}

#[test]
fn inbound_address_without_known_port() {
    let url = |scheme: &str| UrlParts {
        scheme: scheme.to_string(),
        host: Some("h.example".to_string()),
        port: None,
        text: format!("{}://h.example", scheme),
    };
    let env = Env {
        inbound: url("ws"),
        outbound: url("https"),
        bot_token: "t".to_string(),
        database_path: "sqlite:x.db".to_string(),
    };
    match env.inbound_address() {
        Err(BotError::Config(m)) => assert_eq!(m, "INBOUND URL must have a port"),
        other => panic!("unexpected {:?}", other),
    }
}

#[test]
fn inbound_address_needs_host() {
    let url = UrlParts {
        scheme: "http".to_string(),
        host: None,
        port: Some(1),
        text: "http:x".to_string(),
    };
    let env = Env::from_parsed(some("t"), Some(Ok(url.clone())), Some(Ok(url)), None).unwrap();
    match env.inbound_address() {
        Err(BotError::Config(m)) => assert_eq!(m, "INBOUND URL must have a host"),
        other => panic!("unexpected {:?}", other),
    }
}

#[test]
fn from_parsed_reports_parse_errors() {
    let r = Env::from_parsed(some("t"), Some(Err("bad".to_string())), None, None);
    assert_eq!(config_error(r), "Invalid INBOUND URL: bad");
}
