use celguard::agent::Agent;
use celguard::config::log_level;
use celguard::config::{Action, ConfigError, Interval, Jail, LogLevel, MatcherConfig, PluginConfig, Response, Rule};
use celguard::reply::HostCall;

fn named(name: &str) -> Rule {
    Rule { name: name.to_string(), ..Default::default() }
}

fn respond(status: Option<i32>, body: Option<&str>, header: Option<Vec<(&str, &str)>>, proceed: bool) -> Action {
    Action {
        response: Some(Response {
            status,
            body: body.map(|b| b.to_string()),
            header: header.map(|h| h.into_iter().map(|(k, v)| (k.to_string(), v.to_string())).collect()),
        }),
        jail: None,
        proceed,
    }
}

#[test]
fn validate_accepts_distinct_names() {
    let cfg = MatcherConfig { rules: vec![named("a"), named("b"), named("c")], ..MatcherConfig::default() };
    assert_eq!(cfg.validate(), Ok(()));
    assert_eq!(MatcherConfig::default().validate(), Ok(()));
}

#[test]
fn validate_names_first_duplicate() {
    let cfg = MatcherConfig { rules: vec![named("a"), named("b"), named("b"), named("a")], ..MatcherConfig::default() };
    assert_eq!(cfg.validate(), Err(ConfigError::DuplicateRule("b".to_string())));
}

#[test]
fn defaults() {
    let rule = Rule::default();
    assert!(!rule.disabled);
    assert_eq!(rule.log, LogLevel::Off);
    assert!(rule.tests.is_empty() && rule.action.is_none() && rule.name.is_empty());
    let m = MatcherConfig::default();
    assert!(m.source_ip.is_none() && m.rules.is_empty());
    assert_eq!(m.default_action, respond(None, None, None, false));
    let p = PluginConfig::default();
    assert_eq!(p.default_status, 400);
    assert_eq!(p.error_action, respond(Some(500), None, None, false));
    assert!(!Action::default().proceed && Action::default().response.is_none());
}

#[test]
fn execute_orders_header_status_body() {
    let action = respond(Some(403), Some("forbidden"), Some(vec![("allow", "GET"), ("x-a", "1")]), true);
    let reply = action.execute(400);
    assert_eq!(
        reply.calls,
        vec![
            HostCall::SetHeader("allow".to_string(), "GET".to_string()),
            HostCall::SetHeader("x-a".to_string(), "1".to_string()),
            HostCall::SetStatus(403),
            HostCall::WriteBody("forbidden".to_string()),
        ]
    );
    assert!(reply.proceed);
}

#[test]
fn execute_uses_default_status() {
    let reply = respond(None, None, None, false).execute(418);
    assert_eq!(reply.calls, vec![HostCall::SetStatus(418)]);
    assert!(!reply.proceed);
    let none = Action::default().execute(400);
    assert!(none.calls.is_empty());
}

#[test]
fn agent_selects_named_action_or_default() {
    let jail = Jail { bantime: Interval { secs: 3600, nanos: 0 }, findtime: Interval { secs: 600, nanos: 0 }, maxretry: 3, increment: vec![1, 5, 10] };
    let mut first = respond(Some(403), Some("forbidden"), None, false);
    first.jail = Some(jail);
    let agent = Agent::new(vec![
        ("myjail".to_string(), first),
        ("other".to_string(), respond(Some(401), None, None, true)),
        ("myjail".to_string(), respond(Some(429), None, None, false)),
    ]);
    let r = agent.perform("myjail");
    assert_eq!(r.calls, vec![HostCall::SetStatus(429)]);
    let r = agent.perform("other");
    assert_eq!(r.calls, vec![HostCall::SetStatus(401)]);
    assert!(r.proceed);
    let r = agent.perform("unknown");
    assert!(r.calls.is_empty());
    assert!(!r.proceed);
}

#[test]
fn log_levels_by_name() {
    assert_eq!(log_level("off"), Some(LogLevel::Off));
    assert_eq!(log_level("WARN"), Some(LogLevel::Warn));
    assert_eq!(log_level("Trace"), Some(LogLevel::Trace));
    assert_eq!(log_level("info"), Some(LogLevel::Info));
    assert_eq!(log_level("Error"), Some(LogLevel::Error));
    assert_eq!(log_level("debug"), Some(LogLevel::Debug));
    assert_eq!(log_level("verbose"), None);
    assert_eq!(log_level(""), None);
}

#[test]
fn duplicate_rule_message() {
    assert_eq!(ConfigError::DuplicateRule("b".to_string()).message(), "duplicate rule name: b");
}
