use celguard::config::{Action, LogLevel, MatcherConfig, PluginConfig, Response, Rule};
use celguard::engine::{get_first, Applied, Environment, Evaluation, Receiver, Test};
use celguard::lexer::is_cel_safe;
use celguard::matcher::{address_from, passes, MatchError, Matcher, Outcome};
use celguard::reply::HostCall;
use celguard::request::{Headers, Request};

fn test_headers(pairs: &[(&str, &[&str])]) -> Headers {
    Headers::from_pairs(
        pairs
            .iter()
            .map(|(name, values)| (name.to_string(), values.iter().map(|v| v.to_string()).collect()))
            .collect(),
    )
}

fn get_request() -> Request {
    Request::from_parts(
        "127.0.0.1",
        "/",
        "GET",
        "HTTP/1.1",
        test_headers(&[("user-agent", &["curl/8.0"]), ("x-real-ip", &["1.1.1.1"])]),
    )
}

fn post_request() -> Request {
    Request::from_parts(
        "127.0.0.1",
        "/",
        "POST",
        "HTTP/1.1",
        test_headers(&[("user-agent", &["curl/8.0"]), ("x-real-ip", &["1.1.1.1"])]),
    )
}

fn compile(source: &str) -> Test {
    Test::compile(source).expect("valid program")
}

fn rule(name: &str, tests: &[&str]) -> Rule {
    Rule { name: name.to_string(), tests: tests.iter().map(|s| compile(s)).collect(), ..Default::default() }
}

fn blocking(status: i32) -> Action {
    Action { response: Some(Response { status: Some(status), body: None, header: None }), jail: None, proceed: false }
}

#[test]
fn test_function_lower() {
    let matcher = Matcher::new(MatcherConfig::default());
    let program = compile("lower('HeLLo') == 'hello'");
    assert!(matcher.is_match(&program, &get_request()));
}

#[test]
fn test_disabled_rule_is_skipped() {
    let req = get_request();
    let m = Matcher::new(MatcherConfig {
        rules: vec![Rule {
            name: "rule1".to_string(),
            tests: vec![],
            action: None,
            disabled: true,
            log: LogLevel::Off,
        }],
        ..MatcherConfig::default()
    });
    let out = m.eval(&req).unwrap();
    assert!(matches!(out, Outcome::NoMatch));
}

#[test]
fn test_first_matching_rule_wins() {
    let req = get_request();
    let m = Matcher::new(MatcherConfig {
        rules: vec![rule("rule1", &["request.method == 'GET'"]), rule("rule2", &["request.method == 'GET'"])],
        ..MatcherConfig::default()
    });
    let out = m.eval(&req).unwrap();
    assert!(matches!(out, Outcome::Match(a) if a == &m.config().default_action));
    assert_eq!(m.find_rule(&req), Ok(Some(0)));
}

#[test]
fn test_no_rules_returns_err() {
    let req = get_request();
    let m = Matcher::new(MatcherConfig::default());
    let out = m.eval(&req);
    assert!(out.is_err());
    assert_eq!(out, Err(MatchError::NoRules));
}

#[test]
fn test_non_matching_rule() {
    let req = post_request();
    let m = Matcher::new(MatcherConfig {
        rules: vec![rule("rule1", &["request.method == 'GET'"])],
        ..MatcherConfig::default()
    });
    let out = m.eval(&req).unwrap();
    assert!(matches!(out, Outcome::NoMatch));
}

#[test]
fn test_header_rule_matches() {
    let req = get_request();
    let m = Matcher::new(MatcherConfig {
        rules: vec![rule("rule1", &["request.headers.contains('user-agent')"])],
        ..MatcherConfig::default()
    });
    let out = m.eval(&req).unwrap();
    assert!(matches!(out, Outcome::Match(a) if a == &m.config().default_action));
}

#[test]
fn test_source_ip() {
    let req = get_request();
    let m = Matcher::new(MatcherConfig {
        source_ip: Some(compile("request.headers['x-real-ip']")),
        ..MatcherConfig::default()
    });
    let ip = m.real_ip(&req).unwrap();
    assert_eq!(ip.unwrap(), "1.1.1.1".to_string());
}

#[test]
fn test_non_bool_expression_is_no_match() {
    let matcher = Matcher::new(MatcherConfig::default());
    let program = compile("'hello'");
    assert!(!matcher.is_match(&program, &get_request()));
}

#[test]
fn matcher_test_request() {
    let req = Request::from_parts(
        "192.168.1.1",
        "/foo/bar",
        "GET",
        "HTTP/1.1",
        test_headers(&[("user-agent", &["curl/123"])]),
    );
    let m = Matcher::new(MatcherConfig {
        rules: vec![Rule {
            name: "test".to_string(),
            log: LogLevel::Off,
            tests: vec![compile("request.method == 'GET'")],
            action: None,
            disabled: false,
        }],
        ..MatcherConfig::default()
    });
    let out = m.eval(&req).unwrap();
    assert_eq!(Outcome::Match(&m.config().default_action), out);
}

#[test]
fn rule_action_is_used_when_named() {
    let req = get_request();
    let mut r = rule("block", &["request.path == '/'"]);
    r.action = Some(blocking(403));
    let m = Matcher::new(MatcherConfig { rules: vec![rule("other", &["false"]), r], ..MatcherConfig::default() });
    assert_eq!(m.eval(&req), Ok(Outcome::Match(&blocking(403))));
    assert_eq!(m.find_rule(&req), Ok(Some(1)));
}

#[test]
fn empty_tests_match_every_request() {
    let m = Matcher::new(MatcherConfig { rules: vec![rule("any", &[])], ..MatcherConfig::default() });
    assert!(matches!(m.eval(&post_request()), Ok(Outcome::Match(_))));
    assert!(matches!(m.eval(&get_request()), Ok(Outcome::Match(_))));
}

#[test]
fn any_test_that_holds_fires_the_rule() {
    let m = Matcher::new(MatcherConfig {
        rules: vec![rule("r", &["request.method == 'PUT'", "request.method == 'POST'"])],
        ..MatcherConfig::default()
    });
    assert!(matches!(m.eval(&post_request()), Ok(Outcome::Match(_))));
    assert!(matches!(m.eval(&get_request()), Ok(Outcome::NoMatch)));
}

#[test]
fn failing_test_does_not_match() {
    let m = Matcher::new(MatcherConfig { rules: vec![rule("r", &["request.nosuchfield == 1"])], ..MatcherConfig::default() });
    assert!(matches!(m.eval(&get_request()), Ok(Outcome::NoMatch)));
}

#[test]
fn source_ip_replaces_client_address() {
    let m = Matcher::new(MatcherConfig {
        source_ip: Some(compile("request.headers['x-real-ip']")),
        rules: vec![rule("r", &["request.source_ip == '1.1.1.1'"])],
        ..MatcherConfig::default()
    });
    assert!(matches!(m.evaluate(get_request()), Ok(Outcome::Match(_))));
    let plain = Matcher::new(MatcherConfig { rules: vec![rule("r", &["request.source_ip == '1.1.1.1'"])], ..MatcherConfig::default() });
    assert!(matches!(plain.evaluate(get_request()), Ok(Outcome::NoMatch)));
}

#[test]
fn source_ip_must_be_a_string() {
    let m = Matcher::new(MatcherConfig { source_ip: Some(compile("1 == 1")), rules: vec![rule("r", &[])], ..MatcherConfig::default() });
    assert_eq!(m.real_ip(&get_request()), Err(MatchError::SourceIpNotString(Evaluation::Bool(true))));
    assert!(m.evaluate(get_request()).is_err());
    let failing = Matcher::new(MatcherConfig { source_ip: Some(compile("nosuchvar")), ..MatcherConfig::default() });
    assert!(matches!(failing.real_ip(&get_request()), Err(MatchError::SourceIpFailed(_))));
}

#[test]
fn functions_trim_and_contains() {
    let m = Matcher::new(MatcherConfig::default());
    assert!(m.is_match(&compile("trim('  x \\t') == 'x'"), &get_request()));
    assert!(m.is_match(&compile("contains('abc', 'b')"), &get_request()));
    assert!(m.is_match(&compile("lower('ÄB') == 'äb'"), &get_request()));
}

#[test]
fn decide_takes_first_firing_rule() {
    let cfg = MatcherConfig {
        rules: vec![
            Rule { disabled: true, ..rule("off", &[]) },
            rule("a", &["true"]),
            rule("b", &[]),
        ],
        ..MatcherConfig::default()
    };
    assert_eq!(cfg.decide(&vec![true, false, false]), Some(2));
    assert_eq!(cfg.decide(&vec![true, true, false]), Some(1));
    let cfg2 = MatcherConfig { rules: vec![rule("a", &["true"])], ..MatcherConfig::default() };
    assert_eq!(cfg2.decide(&vec![false]), None);
    assert_eq!(cfg.action_of(1), &cfg.default_action);
}

#[test]
fn evaluation_readers() {
    assert!(passes(&Evaluation::Bool(true)));
    assert!(!passes(&Evaluation::Bool(false)));
    assert!(!passes(&Evaluation::Text("true".to_string())));
    assert!(!passes(&Evaluation::Failed("x".to_string())));
    assert_eq!(address_from(Evaluation::Text("1.2.3.4".to_string())), Ok("1.2.3.4".to_string()));
    assert_eq!(address_from(Evaluation::Failed("e".to_string())), Err(MatchError::SourceIpFailed("e".to_string())));
    assert_eq!(address_from(Evaluation::Other("Int(1)".to_string())), Err(MatchError::SourceIpNotString(Evaluation::Other("Int(1)".to_string()))));
}

#[test]
fn respond_by_outcome() {
    let plugin = PluginConfig::default();
    let action = blocking(403);
    let r = plugin.respond(&Ok(Outcome::Match(&action)));
    assert_eq!(r.calls, vec![HostCall::SetStatus(403)]);
    assert!(!r.proceed);
    let r = plugin.respond(&Ok(Outcome::NoMatch));
    assert!(r.calls.is_empty());
    assert!(r.proceed);
    let r = plugin.respond(&Err(MatchError::NoRules));
    assert_eq!(r.calls, vec![HostCall::SetStatus(500)]);
    assert!(!r.proceed);
}

#[test]
fn test_invalid_cel_expression() {
    let result = Test::compile("this is not valid CEL @@!");
    assert!(result.is_err());
    assert_eq!(compile("request.method == 'GET'").source(), "request.method == 'GET'");
}

#[test]
fn get_first_is_available() {
    let m = Matcher::new(MatcherConfig::default());
    assert!(m.is_match(&compile("['a', 'b'].get_first() == 'a' && ' X '.trim().lower() == 'x'"), &get_request()));
    assert!(m.is_match(&compile("[].get_first() == null"), &get_request()));
    assert!(!m.is_match(&compile("'1.1.1.1'.get_first() == '1'"), &get_request()));
    assert_eq!(get_first(Receiver::List(vec![3, 4]), 9), Applied::Value(3));
    assert_eq!(get_first(Receiver::List(Vec::<i32>::new()), 9), Applied::Value(9));
    assert_eq!(get_first(Receiver::Other, 9), Applied::NoSuchOverload);
}

#[test]
fn get_first_on_a_string_has_no_overload() {
    let m = Matcher::new(MatcherConfig {
        source_ip: Some(compile("request.source_ip.get_first()")),
        rules: vec![rule("r", &[])],
        ..MatcherConfig::default()
    });
    assert!(matches!(m.real_ip(&get_request()), Err(MatchError::SourceIpFailed(_))));
}

#[test]
fn every_program_the_parser_accepts_compiles() {
    assert!(Test::compile("request.path == '/map'").is_ok());
    assert!(Test::compile("request.path.matches('a{2}')").is_ok());
    assert!(Test::compile("{'a': 1}['a'] == 1").is_ok());
    assert!(Test::compile("[1, 2].all(x, x > 0)").is_ok());
    assert!(Test::compile("request.path.existsOne(c, c == 'a')").is_ok());
    assert!(Test::compile("this is not valid CEL @@!").is_err());
}

#[test]
fn programs_outside_the_safe_subset_are_declined_when_run() {
    let m = Matcher::new(MatcherConfig::default());
    let req = get_request();
    assert!(!m.is_match(&compile("[1, 2].all(x, x > 0)"), &req));
    assert!(!m.is_match(&compile("request.path.existsOne(c, c == 'a')"), &req));
    assert!(!m.is_match(&compile("b'a'.contains(b'')"), &req));
    let e = Environment::new().run(&compile("[1].exists(x, x == 1)"), &req);
    assert_eq!(
        e,
        Evaluation::Failed(
            "program not supported: it uses a comprehension, a struct literal, bytes, a raw string, a duration, a timestamp or a minus sign"
                .to_string()
        )
    );
    assert!(m.is_match(&compile("{'a': 1}['a'] == 1"), &req));
    assert!(m.is_match(&compile("request.path != '/all' && 'aa'.matches('a{2}')"), &req));
}

#[test]
fn the_safe_subset_is_read_outside_strings_and_comments() {
    assert!(is_cel_safe("size(request.path) > 0"));
    assert!(is_cel_safe("request.path == '/map' // all of it"));
    assert!(is_cel_safe("request.path == \"exists\" && {'a': 1}.size() == 1"));
    assert!(is_cel_safe("'''all\nmap''' == '-'"));
    assert!(!is_cel_safe("x.map(y, y)"));
    assert!(!is_cel_safe("request.path.existsOne(c, c == 'a')"));
    assert!(!is_cel_safe("request.headers.exists_one(h, true)"));
    assert!(!is_cel_safe("Foo{a: 1}"));
    assert!(!is_cel_safe("b'a'.contains(b'')"));
    assert!(!is_cel_safe("bytes('a')"));
    assert!(!is_cel_safe("1 - 2 == -1"));
    assert!(!is_cel_safe("duration('1s')"));
    assert!(!is_cel_safe("'a' + r'b' == 'ab'"));
}

#[test]
fn later_rules_never_change_the_outcome() {
    let req = get_request();
    let first = Matcher::new(MatcherConfig { rules: vec![rule("a", &["request.method == 'GET'"])], ..MatcherConfig::default() });
    let more = Matcher::new(MatcherConfig {
        rules: vec![rule("a", &["request.method == 'GET'"]), rule("b", &[])],
        ..MatcherConfig::default()
    });
    assert_eq!(first.find_rule(&req), Ok(Some(0)));
    assert_eq!(more.find_rule(&req), Ok(Some(0)));
}
