//! The configuration: rules, actions and the plugin's own settings.

use vstd::prelude::*;
use vstd::string::*;
use crate::engine::Test;
use crate::text::{ascii_lower, to_ascii_lower};

verus! {

/// The status a response gets where it names none, unless configured otherwise.
pub const DEFAULT_STATUS: i32 = 400;

/// The status of the response to a request that could not be evaluated, unless configured otherwise.
pub const ERROR_STATUS: i32 = 500;

/// A response to produce: status, extra headers and body.
#[derive(Debug, Clone, PartialEq, Eq)]
pub struct Response {
    /// The HTTP status; where absent, the plugin's default status.
    pub status: Option<i32>,
    /// The body, if any.
    pub body: Option<String>,
    /// Headers to set, name and value.
    pub header: Option<Vec<(String, String)>>,
}

/// A span of time, as whole seconds and nanoseconds.
#[derive(Debug, Clone, Copy, PartialEq, Eq, Structural)]
pub struct Interval {
    pub secs: u64,
    pub nanos: u32,
}

/// Settings for banning clients that keep matching a rule.
#[derive(Debug, Clone, PartialEq, Eq)]
pub struct Jail {
    pub bantime: Interval,
    pub findtime: Interval,
    pub maxretry: u32,
    pub increment: Vec<u32>,
}

/// What to do with a request that a rule matched.
#[derive(Debug, Clone, PartialEq, Eq)]
pub struct Action {
    /// The response to produce, if any.
    pub response: Option<Response>,
    /// Ban settings, if any.
    pub jail: Option<Jail>,
    /// Whether request handling goes on after the plugin (`continue` in the configuration).
    pub proceed: bool,
}

/// The action used by rules that name none: the default status, no body, no
/// headers, and handling stops.
pub open spec fn default_action_spec() -> Action {
    Action {
        response: Some(Response { status: None, body: None, header: None }),
        jail: None,
        proceed: false,
    }
}

/// The action for requests that could not be evaluated: status 500, handling stops.
pub open spec fn error_action_spec() -> Action {
    Action {
        response: Some(Response { status: Some(ERROR_STATUS), body: None, header: None }),
        jail: None,
        proceed: false,
    }
}

impl Action {
    /// The action used by rules that name none; see `default_action_spec`.
    pub fn default_action() -> (a: Action)
        ensures
            a == default_action_spec(),
    {
        Action {
            response: Some(Response { status: None, body: None, header: None }),
            jail: None,
            proceed: false,
        }
    }

    /// The action for requests that could not be evaluated; see `error_action_spec`.
    pub fn error_action() -> (a: Action)
        ensures
            a == error_action_spec(),
    {
        Action {
            response: Some(Response { status: Some(ERROR_STATUS), body: None, header: None }),
            jail: None,
            proceed: false,
        }
    }
}

impl Default for Action {
    /// No response, no ban, handling stops.
    fn default() -> (a: Action)
        ensures
            a == (Action { response: None, jail: None, proceed: false }),
    {
        Action { response: None, jail: None, proceed: false }
    }
}

/// The level at which a matching rule is logged.
#[derive(Debug, Clone, Copy, PartialEq, Eq, Structural)]
pub enum LogLevel {
    Off,
    Error,
    Warn,
    Info,
    Debug,
    Trace,
}

/// The level a name stands for: `off`, `error`, `warn`, `info`, `debug` or
/// `trace`, compared without regard to ASCII case (as `log::LevelFilter`'s
/// `FromStr` compares its level names); `None` for any other text.
pub open spec fn level_named(text: Seq<char>) -> Option<LogLevel> {
    let l = ascii_lower(text);
    if l == "off"@ {
        Some(LogLevel::Off)
    } else if l == "error"@ {
        Some(LogLevel::Error)
    } else if l == "warn"@ {
        Some(LogLevel::Warn)
    } else if l == "info"@ {
        Some(LogLevel::Info)
    } else if l == "debug"@ {
        Some(LogLevel::Debug)
    } else if l == "trace"@ {
        Some(LogLevel::Trace)
    } else {
        None
    }
}

/// Reads a log level from its name; see `level_named`.
pub fn log_level(text: &str) -> (r: Option<LogLevel>)
    ensures
        r == level_named(text@),
{
    let l = to_ascii_lower(text);
    if l == "off".to_string() {
        Some(LogLevel::Off)
    } else if l == "error".to_string() {
        Some(LogLevel::Error)
    } else if l == "warn".to_string() {
        Some(LogLevel::Warn)
    } else if l == "info".to_string() {
        Some(LogLevel::Info)
    } else if l == "debug".to_string() {
        Some(LogLevel::Debug)
    } else if l == "trace".to_string() {
        Some(LogLevel::Trace)
    } else {
        None
    }
}

/// One rule: a name, whether it is switched off, the level it is logged at,
/// the tests, and the action.
#[derive(Debug)]
pub struct Rule {
    pub name: String,
    pub disabled: bool,
    pub log: LogLevel,
    pub tests: Vec<Test>,
    pub action: Option<Action>,
}

/// The mathematical form of a `Rule`: tests by their source texts.
pub struct RuleView {
    pub name: Seq<char>,
    pub disabled: bool,
    pub log: LogLevel,
    pub tests: Seq<Seq<char>>,
    pub action: Option<Action>,
}

impl View for Rule {
    type V = RuleView;

    open spec fn view(&self) -> RuleView {
        RuleView {
            name: self.name@,
            disabled: self.disabled,
            log: self.log,
            tests: self.tests@.map_values(|t: Test| t@),
            action: self.action,
        }
    }
}

impl Default for Rule {
    /// An enabled rule without name, tests or action, not logged.
    fn default() -> (r: Rule)
        ensures
            r@.name.len() == 0,
            !r@.disabled,
            r@.log == LogLevel::Off,
            r@.tests.len() == 0,
            r@.action is None,
    {
        Rule { name: String::new(), disabled: false, log: LogLevel::Off, tests: Vec::new(), action: None }
    }
}

pub open spec fn rules_view(rules: Seq<Rule>) -> Seq<RuleView> {
    rules.map_values(|r: Rule| r@)
}

/// The matcher's configuration.
#[derive(Debug)]
pub struct MatcherConfig {
    /// A program whose string result replaces the client address, if any.
    pub source_ip: Option<Test>,
    /// The action of rules that name none.
    pub default_action: Action,
    /// The rules, in the order they are tried.
    pub rules: Vec<Rule>,
}

/// The mathematical form of a `MatcherConfig`.
pub struct MatcherView {
    pub source_ip: Option<Seq<char>>,
    pub default_action: Action,
    pub rules: Seq<RuleView>,
}

impl View for MatcherConfig {
    type V = MatcherView;

    open spec fn view(&self) -> MatcherView {
        MatcherView {
            source_ip: match self.source_ip {
                Some(t) => Some(t@),
                None => None,
            },
            default_action: self.default_action,
            rules: rules_view(self.rules@),
        }
    }
}

impl Default for MatcherConfig {
    /// No address program, the default action, no rules.
    fn default() -> (c: MatcherConfig)
        ensures
            c@.source_ip is None,
            c@.default_action == default_action_spec(),
            c@.rules.len() == 0,
    {
        MatcherConfig { source_ip: None, default_action: Action::default_action(), rules: Vec::new() }
    }
}

/// Why a configuration is refused.
#[derive(Debug, Clone, PartialEq, Eq)]
pub enum ConfigError {
    /// Two rules carry this name.
    DuplicateRule(String),
}

impl ConfigError {
    /// The message for the error, e.g. `duplicate rule name: b`.
    pub fn message(&self) -> (m: String)
        ensures
            match self {
                ConfigError::DuplicateRule(n) => m@ == "duplicate rule name: "@ + n@,
            },
    {
        match self {
            ConfigError::DuplicateRule(n) => {
                let mut m = "duplicate rule name: ".to_string();
                m.append(n.as_str());
                m
            },
        }
    }
}

/// Index of the first rule whose name an earlier rule already carries
/// (`rules.len()` when all names differ).
pub open spec fn first_repeated_name(rules: Seq<RuleView>) -> int {
    if exists|j: int| 0 <= j < rules.len() && repeats_earlier(rules, j) {
        choose|j: int| 0 <= j < rules.len() && repeats_earlier(rules, j)
            && forall|k: int| 0 <= k < j ==> !#[trigger] repeats_earlier(rules, k)
    } else {
        rules.len() as int
    }
}

/// Rule `j` carries the name of an earlier rule.
pub open spec fn repeats_earlier(rules: Seq<RuleView>, j: int) -> bool {
    exists|i: int| 0 <= i < j && #[trigger] rules[i].name == rules[j].name
}

/// All rule names differ.
pub open spec fn names_unique(rules: Seq<RuleView>) -> bool {
    forall|i: int, j: int| 0 <= i < j < rules.len() ==> #[trigger] rules[i].name != #[trigger] rules[j].name
}

proof fn lemma_first_repeated(rules: Seq<RuleView>, j: int)
    requires
        0 <= j < rules.len(),
        repeats_earlier(rules, j),
        forall|k: int| 0 <= k < j ==> !#[trigger] repeats_earlier(rules, k),
    ensures
        first_repeated_name(rules) == j,
{
    let w = choose|w: int| 0 <= w < rules.len() && repeats_earlier(rules, w)
        && forall|k: int| 0 <= k < w ==> !#[trigger] repeats_earlier(rules, k);
    if w < j {
        assert(!repeats_earlier(rules, w));
    } else if w > j {
        assert(!repeats_earlier(rules, j));
    }
}

impl MatcherConfig {
    /// Rule names are rule identities; duplicates would make matching ambiguous.
    /// Accepts exactly the configurations whose rule names all differ; otherwise
    /// names the first rule whose name was already taken by an earlier one.
    pub fn validate(&self) -> (r: Result<(), ConfigError>)
        ensures
            r is Ok <==> names_unique(self@.rules),
            r matches Err(ConfigError::DuplicateRule(n)) ==> {
                let j = first_repeated_name(self@.rules);
                &&& 0 <= j < self@.rules.len()
                &&& n@ == self@.rules[j].name
            },
    {
        let ghost rules = self@.rules;
        let mut j: usize = 0;
        while j < self.rules.len()
            invariant
                j <= self.rules.len(),
                rules == self@.rules,
                forall|k: int| 0 <= k < j ==> !#[trigger] repeats_earlier(rules, k),
            decreases self.rules.len() - j,
        {
            let mut i: usize = 0;
            while i < j
                invariant
                    i <= j < self.rules.len(),
                    rules == self@.rules,
                    forall|k: int| 0 <= k < j ==> !#[trigger] repeats_earlier(rules, k),
                    forall|k: int| 0 <= k < i ==> #[trigger] rules[k].name != rules[j as int].name,
                decreases j - i,
            {
                assert(rules[i as int].name == self.rules@[i as int].name@);
                assert(rules[j as int].name == self.rules@[j as int].name@);
                if self.rules[i].name == self.rules[j].name {
                    assert(repeats_earlier(rules, j as int));
                    proof {
                        lemma_first_repeated(rules, j as int);
                    }
                    return Err(ConfigError::DuplicateRule(self.rules[j].name.clone()));
                }
                i = i + 1;
            }
            assert(!repeats_earlier(rules, j as int));
            j = j + 1;
        }
        assert forall|a: int, b: int| 0 <= a < b < rules.len() implies #[trigger] rules[a].name != #[trigger] rules[b].name by {
            if rules[a].name == rules[b].name {
                assert(repeats_earlier(rules, b));
            }
        }
        Ok(())
    }
}

/// The plugin's own settings.
#[derive(Debug)]
pub struct PluginConfig {
    /// The status of responses that name none.
    pub default_status: i32,
    /// The action for requests that could not be evaluated.
    pub error_action: Action,
}

impl Default for PluginConfig {
    /// Default status 400; error action with status 500.
    fn default() -> (c: PluginConfig)
        ensures
            c.default_status == DEFAULT_STATUS,
            c.error_action == error_action_spec(),
    {
        PluginConfig { default_status: DEFAULT_STATUS, error_action: Action::error_action() }
    }
}

/// The whole configuration.
#[derive(Debug)]
pub struct Config {
    pub plugin: PluginConfig,
    pub matcher: MatcherConfig,
}

} // verus!
