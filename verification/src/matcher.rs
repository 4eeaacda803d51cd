//! Matching a request against the rules.

use vstd::prelude::*;
use crate::config::{Action, MatcherConfig, MatcherView, RuleView};
use crate::engine::{run_verdict, Environment, Evaluation, Test, Verdict};
use crate::address::{source_ip_of, AddrError};
use crate::request::{host_view, request_value, Request, RequestValue, RequestView};

verus! {

/// The answer to a request: the action of the rule that matched, or no match.
#[derive(Debug, PartialEq)]
pub enum Outcome<'a> {
    Match(&'a Action),
    NoMatch,
}

/// Why a request could not be matched.
#[derive(Debug, Clone, PartialEq, Eq)]
pub enum MatchError {
    /// The configuration has no rules.
    NoRules,
    /// The client-address program returned something other than a string.
    SourceIpNotString(Evaluation),
    /// The client-address program failed; the error message.
    SourceIpFailed(String),
    /// The source address that the host reported could not be read.
    SourceAddr(AddrError),
}

/// Whether a test result counts as a match: only the boolean `true` does;
/// `false`, any other value and any failure do not.
pub open spec fn passes_spec(e: Evaluation) -> bool {
    e matches Evaluation::Bool(b) && b
}

/// Reads a test result; see `passes_spec`.
pub fn passes(e: &Evaluation) -> (r: bool)
    ensures
        r == passes_spec(*e),
{
    match e {
        Evaluation::Bool(b) => *b,
        _ => false,
    }
}

/// Whether a rule fires, given whether one of its tests held: it must be
/// enabled, and it fires when it has no tests at all or a test held.
pub open spec fn fires(rule: RuleView, hit: bool) -> bool {
    !rule.disabled && (rule.tests.len() == 0 || hit)
}

/// The first rule at or after `i` that fires.
pub open spec fn first_firing_from(rules: Seq<RuleView>, hits: Seq<bool>, i: int) -> Option<int>
    decreases rules.len() - i,
{
    if i < 0 || i >= rules.len() {
        None
    } else if fires(rules[i], hits[i]) {
        Some(i)
    } else {
        first_firing_from(rules, hits, i + 1)
    }
}

/// The rule that answers a request: the first that fires, where `hits[i]`
/// says whether one of the tests of rule `i` held.
pub open spec fn first_firing(rules: Seq<RuleView>, hits: Seq<bool>) -> Option<int> {
    first_firing_from(rules, hits, 0)
}

/// The action of rule `i`: its own, or the default action where it names none.
pub open spec fn rule_action(cfg: MatcherView, i: int) -> Action {
    match cfg.rules[i].action {
        Some(a) => a,
        None => cfg.default_action,
    }
}

/// The outcome for a request whose rules' tests gave `hits`.
pub open spec fn decision(cfg: MatcherView, hits: Seq<bool>) -> Option<Action> {
    match first_firing(cfg.rules, hits) {
        Some(i) => Some(rule_action(cfg, i)),
        None => None,
    }
}

/// `o` is the outcome that `d` describes.
pub open spec fn outcome_is(o: Outcome, d: Option<Action>) -> bool {
    match o {
        Outcome::Match(a) => d == Some(*a),
        Outcome::NoMatch => d is None,
    }
}

pub open spec fn index_is(r: Option<usize>, i: Option<int>) -> bool {
    match r {
        Some(k) => i == Some(k as int),
        None => i is None,
    }
}

proof fn lemma_first_firing_from(rules: Seq<RuleView>, hits: Seq<bool>, i: int, k: int)
    requires
        0 <= i <= k <= rules.len(),
        hits.len() == rules.len(),
        forall|j: int| i <= j < k ==> !#[trigger] fires(rules[j], hits[j]),
    ensures
        first_firing_from(rules, hits, i) == first_firing_from(rules, hits, k),
    decreases k - i,
{
    if i < k {
        lemma_first_firing_from(rules, hits, i + 1, k);
    }
}

impl MatcherConfig {
    /// The index of the rule that answers a request, given for each rule
    /// whether one of its tests held: the first enabled rule that has no tests
    /// or a test that held.
    pub fn decide(&self, hits: &Vec<bool>) -> (r: Option<usize>)
        requires
            hits@.len() == self@.rules.len(),
        ensures
            index_is(r, first_firing(self@.rules, hits@)),
    {
        let ghost rules = self@.rules;
        let mut i: usize = 0;
        while i < self.rules.len()
            invariant
                i <= self.rules.len(),
                rules == self@.rules,
                hits@.len() == rules.len(),
                forall|j: int| 0 <= j < i ==> !#[trigger] fires(rules[j], hits@[j]),
            decreases self.rules.len() - i,
        {
            let rule = &self.rules[i];
            assert(rules[i as int] == rule@);
            if !rule.disabled && (rule.tests.len() == 0 || hits[i]) {
                proof {
                    lemma_first_firing_from(rules, hits@, 0, i as int);
                }
                return Some(i);
            }
            i = i + 1;
        }
        proof {
            lemma_first_firing_from(rules, hits@, 0, i as int);
        }
        None
    }

    /// The action of rule `i`: its own, or the default action where it names none.
    pub fn action_of(&self, i: usize) -> (a: &Action)
        requires
            i < self@.rules.len(),
        ensures
            *a == rule_action(self@, i as int),
    {
        match &self.rules[i].action {
            Some(a) => a,
            None => &self.default_action,
        }
    }
}

/// The value that the client-address program's result gives: a string
/// becomes the address; anything else is refused.
pub open spec fn address_spec(e: Evaluation) -> Result<String, MatchError> {
    match e {
        Evaluation::Text(s) => Ok(s),
        Evaluation::Failed(m) => Err(MatchError::SourceIpFailed(m)),
        _ => Err(MatchError::SourceIpNotString(e)),
    }
}

/// Reads the client-address program's result; see `address_spec`.
pub fn address_from(e: Evaluation) -> (r: Result<String, MatchError>)
    ensures
        r == address_spec(e),
{
    match e {
        Evaluation::Text(s) => Ok(s),
        Evaluation::Failed(m) => Err(MatchError::SourceIpFailed(m)),
        _ => Err(MatchError::SourceIpNotString(e)),
    }
}

/// A refusal that comes from the client-address program.
pub open spec fn address_error(x: MatchError) -> bool {
    x is SourceIpNotString || x is SourceIpFailed
}

pub open spec fn index_of(k: Option<usize>) -> Option<int> {
    match k {
        Some(i) => Some(i as int),
        None => None,
    }
}

/// The action that answering with rule `k` gives.
pub open spec fn answer_action(cfg: MatcherView, k: Option<int>) -> Option<Action> {
    match k {
        Some(i) => Some(rule_action(cfg, i)),
        None => None,
    }
}

/// A test holds on a request value: it runs and returns `true`.
pub open spec fn test_holds(test: Seq<char>, v: RequestValue) -> bool {
    run_verdict(test, v) == Verdict::Bool(true)
}

/// One of the tests of a rule holds on the request value.
pub open spec fn rule_hit(rule: RuleView, v: RequestValue) -> bool {
    exists|t: int| 0 <= t < rule.tests.len() && #[trigger] test_holds(rule.tests[t], v)
}

/// For each rule, whether one of its tests holds on the request value.
pub open spec fn hits_for(rules: Seq<RuleView>, v: RequestValue) -> Seq<bool> {
    Seq::new(rules.len(), |i: int| rule_hit(rules[i], v))
}

/// The outcome the rules give for a request value.
pub open spec fn outcome_spec(cfg: MatcherView, v: RequestValue) -> Option<Action> {
    decision(cfg, hits_for(cfg.rules, v))
}

/// The request that the rules see: unchanged without an address program;
/// otherwise with the string that the program returns as its client
/// address, and none where the program returns no string.
pub open spec fn resolved(cfg: MatcherView, request: RequestView) -> Option<RequestView> {
    match cfg.source_ip {
        None => Some(request),
        Some(p) => match run_verdict(p, request_value(request)) {
            Verdict::Text(ip) => Some(RequestView { source_ip: ip, ..request }),
            _ => None,
        },
    }
}

/// `r` is the answer to `request`: refused by the address program where it
/// gives no address; otherwise refused where there are no rules, and else the
/// outcome of the rules on the resolved request.
pub open spec fn evaluated(cfg: MatcherView, request: RequestView, r: Result<Outcome, MatchError>) -> bool {
    match resolved(cfg, request) {
        None => r matches Err(x) && address_error(x),
        Some(q) => if cfg.rules.len() == 0 {
            r == Err::<Outcome, MatchError>(MatchError::NoRules)
        } else {
            r matches Ok(o) && outcome_is(o, outcome_spec(cfg, request_value(q)))
        },
    }
}

/// Applies the rules to requests.
pub struct Matcher {
    env: Environment,
    config: MatcherConfig,
}

impl View for Matcher {
    type V = MatcherView;

    /// A matcher is known by its configuration; its environment is always
    /// the library's.
    closed spec fn view(&self) -> MatcherView {
        self.config@
    }
}

impl Matcher {
    /// A matcher for the given configuration, in the library's CEL environment.
    pub fn new(config: MatcherConfig) -> (m: Matcher)
        ensures
            m@ == config@,
    {
        Matcher { env: Environment::new(), config }
    }

    /// The configuration.
    pub fn config(&self) -> (c: &MatcherConfig)
        ensures
            c@ == self@,
    {
        &self.config
    }

    /// Whether a test holds for a request: it runs and returns `true`.
    pub fn is_match(&self, test: &Test, request: &Request) -> (r: bool)
        ensures
            r == test_holds(test@, request_value(request@)),
    {
        let e = self.env.run(test, request);
        passes(&e)
    }

    /// Whether one of the tests holds for the request, trying them in order
    /// and stopping at the first that does.
    fn any_test_holds(&self, tests: &Vec<Test>, request: &Request) -> (r: bool)
        ensures
            r == exists|t: int| 0 <= t < tests@.len() && #[trigger] test_holds(tests@[t]@, request_value(request@)),
    {
        let ghost v = request_value(request@);
        let mut i: usize = 0;
        while i < tests.len()
            invariant
                i <= tests.len(),
                v == request_value(request@),
                forall|t: int| 0 <= t < i ==> !#[trigger] test_holds(tests@[t]@, v),
            decreases tests.len() - i,
        {
            if self.is_match(&tests[i], request) {
                assert(test_holds(tests@[i as int]@, v));
                return true;
            }
            i = i + 1;
        }
        false
    }

    /// The index of the rule that answers the request. Rules are tried in
    /// order, each test run on the request: disabled rules are skipped, a
    /// rule without tests fires on every request, and the others fire when
    /// one of their tests holds; the first rule that fires answers. Refused
    /// when there are no rules.
    pub fn find_rule(&self, request: &Request) -> (r: Result<Option<usize>, MatchError>)
        ensures
            self@.rules.len() == 0 <==> r is Err,
            r matches Err(e) ==> e == MatchError::NoRules,
            r matches Ok(k) ==> index_of(k) == first_firing(self@.rules, hits_for(self@.rules, request_value(request@))),
    {
        if self.config.rules.len() == 0 {
            return Err(MatchError::NoRules);
        }
        let ghost v = request_value(request@);
        let ghost rules = self@.rules;
        let ghost hits = hits_for(rules, v);
        let mut i: usize = 0;
        while i < self.config.rules.len()
            invariant
                i <= self.config.rules.len(),
                rules == self@.rules,
                v == request_value(request@),
                hits == hits_for(rules, v),
                forall|j: int| 0 <= j < i ==> !#[trigger] fires(rules[j], hits[j]),
            decreases self.config.rules.len() - i,
        {
            let rule = &self.config.rules[i];
            assert(rules[i as int] == rule@);
            assert(rule@.tests.len() == rule.tests@.len());
            assert forall|t: int| 0 <= t < rule.tests@.len() implies #[trigger] rule@.tests[t] == rule.tests@[t]@ by {}
            let fired = !rule.disabled && (rule.tests.len() == 0 || self.any_test_holds(&rule.tests, request));
            proof {
                if !rule.disabled && rule.tests.len() > 0 {
                    assert(hits[i as int] == rule_hit(rules[i as int], v));
                    if hits[i as int] {
                        let t = choose|t: int| 0 <= t < rules[i as int].tests.len() && #[trigger] test_holds(rules[i as int].tests[t], v);
                        assert(rule.tests@[t]@ == rules[i as int].tests[t]);
                    }
                    if fired {
                        let t = choose|t: int| 0 <= t < rule.tests@.len() && #[trigger] test_holds(rule.tests@[t]@, v);
                        assert(rule.tests@[t]@ == rules[i as int].tests[t]);
                        assert(test_holds(rules[i as int].tests[t], v));
                    }
                }
                assert(fired == fires(rules[i as int], hits[i as int]));
            }
            if fired {
                proof {
                    lemma_first_firing_from(rules, hits, 0, i as int);
                }
                return Ok(Some(i));
            }
            i = i + 1;
        }
        proof {
            lemma_first_firing_from(rules, hits, 0, i as int);
        }
        Ok(None)
    }

    /// The outcome for a request: the action of the rule that answers it
    /// (its own, or the default action; see `find_rule`), or no match.
    /// Refused when there are no rules.
    pub fn eval<'a>(&'a self, request: &Request) -> (r: Result<Outcome<'a>, MatchError>)
        ensures
            self@.rules.len() == 0 <==> r is Err,
            r matches Err(e) ==> e == MatchError::NoRules,
            r matches Ok(o) ==> outcome_is(o, outcome_spec(self@, request_value(request@))),
    {
        match self.find_rule(request) {
            Err(e) => Err(e),
            Ok(k) => {
                proof {
                    lemma_first_firing_bounds(self@.rules, hits_for(self@.rules, request_value(request@)), 0);
                }
                Ok(self.outcome_for(k))
            },
        }
    }

    /// The outcome that answering with rule `k` gives: that rule's action (its
    /// own, or the default), or no match where no rule answers.
    pub fn outcome_for<'a>(&'a self, k: Option<usize>) -> (o: Outcome<'a>)
        requires
            k matches Some(i) ==> i < self@.rules.len(),
        ensures
            outcome_is(o, answer_action(self@, index_of(k))),
    {
        match k {
            None => Outcome::NoMatch,
            Some(i) => Outcome::Match(self.config.action_of(i)),
        }
    }

    /// The client address that the address program gives, if one is
    /// configured: the program runs on the request, and its string result is
    /// the address; any other result refuses the request.
    pub fn real_ip(&self, request: &Request) -> (r: Result<Option<String>, MatchError>)
        ensures
            self@.source_ip is None ==> r == Ok::<Option<String>, MatchError>(None),
            self@.source_ip matches Some(p) ==> match run_verdict(p, request_value(request@)) {
                Verdict::Text(ip) => r matches Ok(Some(s)) && s@ == ip,
                _ => r matches Err(x) && address_error(x),
            },
    {
        match &self.config.source_ip {
            None => Ok(None),
            Some(program) => {
                let e = self.env.run(program, request);
                match address_from(e) {
                    Ok(s) => Ok(Some(s)),
                    Err(x) => Err(x),
                }
            },
        }
    }

    /// The request with the client address that the address program gives,
    /// where one is configured (see `real_ip`); unchanged otherwise.
    pub fn resolve(&self, request: Request) -> (r: Result<Request, MatchError>)
        ensures
            match resolved(self@, request@) {
                Some(q) => r matches Ok(x) && x@ == q,
                None => r matches Err(x) && address_error(x),
            },
    {
        match self.real_ip(&request) {
            Err(e) => Err(e),
            Ok(Some(ip)) => Ok(request.with_source_ip(ip)),
            Ok(None) => Ok(request),
        }
    }

    /// Answers a request: where an address program is configured, it runs on
    /// the request and its string result replaces the client address (any
    /// other result refuses the request); then the rules decide on the
    /// request so resolved, as `eval` says.
    pub fn evaluate<'a>(&'a self, request: Request) -> (r: Result<Outcome<'a>, MatchError>)
        ensures
            evaluated(self@, request@, r),
    {
        match self.resolve(request) {
            Err(e) => Err(e),
            Ok(q) => self.eval(&q),
        }
    }

    /// Answers a request from what the host reports about it (see
    /// `Request::from_host`); a source address that cannot be read refuses it.
    pub fn evaluate_host<'a>(
        &'a self,
        uri: &[u8],
        method: &[u8],
        version: &[u8],
        source_addr: &[u8],
        headers: &Vec<(Vec<u8>, Vec<Vec<u8>>)>,
    ) -> (r: Result<Outcome<'a>, MatchError>)
        ensures
            match source_ip_of(source_addr@) {
                Err(e) => r == Err::<Outcome, MatchError>(MatchError::SourceAddr(e)),
                Ok(ip) => evaluated(self@, host_view(uri@, method@, version@, ip, headers@), r),
            },
    {
        match Request::from_host(uri, method, version, source_addr, headers) {
            Err(e) => Err(MatchError::SourceAddr(e)),
            Ok(request) => self.evaluate(request),
        }
    }
}

proof fn lemma_first_firing_bounds(rules: Seq<RuleView>, hits: Seq<bool>, i: int)
    requires
        0 <= i,
    ensures
        first_firing_from(rules, hits, i) matches Some(k) ==> i <= k < rules.len() && fires(rules[k], hits[k]),
    decreases rules.len() - i,
{
    if i < rules.len() && !fires(rules[i], hits[i]) {
        lemma_first_firing_bounds(rules, hits, i + 1);
    }
}


/// Rules are tried in order and the first that fires answers: rule `i`
/// answers exactly when it fires and no earlier rule does.
pub proof fn first_matching_rule_wins(rules: Seq<RuleView>, hits: Seq<bool>, i: int)
    requires
        hits.len() == rules.len(),
        0 <= i < rules.len(),
    ensures
        first_firing(rules, hits) == Some(i) <==> (fires(rules[i], hits[i]) && forall|j: int|
            0 <= j < i ==> !#[trigger] fires(rules[j], hits[j])),
{
    lemma_first_firing_bounds(rules, hits, 0);
    if fires(rules[i], hits[i]) && forall|j: int| 0 <= j < i ==> !#[trigger] fires(rules[j], hits[j]) {
        lemma_first_firing_from(rules, hits, 0, i);
    }
    if first_firing(rules, hits) == Some(i) {
        assert forall|j: int| 0 <= j < i implies !#[trigger] fires(rules[j], hits[j]) by {
            if fires(rules[j], hits[j]) {
                lemma_first_before(rules, hits, j);
            }
        }
    }
}

proof fn lemma_first_before(rules: Seq<RuleView>, hits: Seq<bool>, j: int)
    requires
        hits.len() == rules.len(),
        0 <= j < rules.len(),
        fires(rules[j], hits[j]),
    ensures
        first_firing(rules, hits) matches Some(k) && k <= j,
{
    lemma_first_firing_bounds(rules, hits, 0);
    lemma_first_at_most(rules, hits, 0, j);
}

proof fn lemma_first_at_most(rules: Seq<RuleView>, hits: Seq<bool>, i: int, j: int)
    requires
        hits.len() == rules.len(),
        0 <= i <= j < rules.len(),
        fires(rules[j], hits[j]),
    ensures
        first_firing_from(rules, hits, i) matches Some(k) && k <= j,
    decreases j - i,
{
    if i < j && !fires(rules[i], hits[i]) {
        lemma_first_at_most(rules, hits, i + 1, j);
    }
}

/// A rule whose test list is empty matches every request: when it is
/// enabled, some rule answers, and it is that rule or an earlier one,
/// whatever the tests gave.
pub proof fn empty_tests_match_every_request(rules: Seq<RuleView>, hits: Seq<bool>, i: int)
    requires
        hits.len() == rules.len(),
        0 <= i < rules.len(),
        !rules[i].disabled,
        rules[i].tests.len() == 0,
    ensures
        first_firing(rules, hits) matches Some(k) && k <= i,
{
    lemma_first_before(rules, hits, i);
}

/// A disabled rule is skipped entirely: it never answers, and what its tests
/// would give makes no difference to the outcome.
pub proof fn disabled_rule_is_skipped(rules: Seq<RuleView>, hits: Seq<bool>, i: int, hit: bool)
    requires
        hits.len() == rules.len(),
        0 <= i < rules.len(),
        rules[i].disabled,
    ensures
        first_firing(rules, hits) != Some(i),
        first_firing(rules, hits.update(i, hit)) == first_firing(rules, hits),
{
    lemma_first_firing_bounds(rules, hits, 0);
    lemma_same_firing(rules, hits, hits.update(i, hit), 0);
}

proof fn lemma_same_firing(rules: Seq<RuleView>, h1: Seq<bool>, h2: Seq<bool>, i: int)
    requires
        h1.len() == rules.len(),
        h2.len() == rules.len(),
        0 <= i,
        forall|j: int| 0 <= j < rules.len() ==> fires(rules[j], h1[j]) == #[trigger] fires(rules[j], h2[j]),
    ensures
        first_firing_from(rules, h1, i) == first_firing_from(rules, h2, i),
    decreases rules.len() - i,
{
    if i < rules.len() {
        lemma_same_firing(rules, h1, h2, i + 1);
    }
}

/// A rule that names no action answers with the default action.
pub proof fn rule_without_action_gets_default(cfg: MatcherView, hits: Seq<bool>)
    requires
        hits.len() == cfg.rules.len(),
        first_firing(cfg.rules, hits) matches Some(i) && cfg.rules[i].action is None,
    ensures
        decision(cfg, hits) == Some(cfg.default_action),
{
}

/// Only a rule that fires answers, and then with its action: an outcome
/// other than no match always comes from an enabled rule.
pub proof fn answer_comes_from_enabled_rule(cfg: MatcherView, hits: Seq<bool>)
    requires
        hits.len() == cfg.rules.len(),
    ensures
        first_firing(cfg.rules, hits) matches Some(i) ==> {
            &&& 0 <= i < cfg.rules.len()
            &&& !cfg.rules[i].disabled
            &&& decision(cfg, hits) == Some(rule_action(cfg, i))
        },
        first_firing(cfg.rules, hits) is None ==> decision(cfg, hits) is None,
{
    lemma_first_firing_bounds(cfg.rules, hits, 0);
}


proof fn lemma_first_firing_prefix(r1: Seq<RuleView>, h1: Seq<bool>, r2: Seq<RuleView>, h2: Seq<bool>, i: int, k: int)
    requires
        h1.len() == r1.len(),
        0 <= i <= k < r1.len(),
        r1.len() <= r2.len(),
        r1.len() <= h2.len(),
        forall|j: int| 0 <= j < r1.len() ==> r2[j] == r1[j] && h2[j] == h1[j],
        first_firing_from(r1, h1, i) == Some(k),
    ensures
        first_firing_from(r2, h2, i) == Some(k),
    decreases k - i,
{
    assert(r2[i] == r1[i] && h2[i] == h1[i]);
    lemma_first_firing_bounds(r1, h1, i + 1);
    if i < k {
        assert(!fires(r1[i], h1[i]));
        lemma_first_firing_prefix(r1, h1, r2, h2, i + 1, k);
    }
}

/// Rules after the first one that fires never change the outcome: adding
/// rules (with any test results) behind the rules `r1` leaves the answer as it was.
pub proof fn later_rules_never_change_the_outcome(r1: Seq<RuleView>, h1: Seq<bool>, more: Seq<RuleView>, h_more: Seq<bool>)
    requires
        h1.len() == r1.len(),
        h_more.len() == more.len(),
        first_firing(r1, h1) is Some,
    ensures
        first_firing(r1 + more, h1 + h_more) == first_firing(r1, h1),
{
    lemma_first_firing_bounds(r1, h1, 0);
    let k = first_firing(r1, h1)->0;
    lemma_first_firing_prefix(r1, h1, r1 + more, h1 + h_more, 0, k);
}

/// The same on a request: where one of the rules of `cfg` answers a request,
/// a configuration with the same default action and the same rules first,
/// whatever rules follow, answers it with the same action.
pub proof fn later_rules_never_change_the_answer(cfg: MatcherView, more: Seq<RuleView>, v: RequestValue)
    requires
        outcome_spec(cfg, v) is Some,
    ensures
        outcome_spec(MatcherView { rules: cfg.rules + more, ..cfg }, v) == outcome_spec(cfg, v),
{
    let cfg2 = MatcherView { rules: cfg.rules + more, ..cfg };
    let h1 = hits_for(cfg.rules, v);
    let hm = hits_for(more, v);
    assert(hits_for(cfg2.rules, v) =~= h1 + hm) by {
        assert forall|j: int| 0 <= j < cfg2.rules.len() implies hits_for(cfg2.rules, v)[j] == (h1 + hm)[j] by {
            if j < cfg.rules.len() {
                assert(cfg2.rules[j] == cfg.rules[j]);
            } else {
                assert(cfg2.rules[j] == more[j - cfg.rules.len()]);
            }
        }
    }
    later_rules_never_change_the_outcome(cfg.rules, h1, more, hm);
    lemma_first_firing_bounds(cfg.rules, h1, 0);
    let i = first_firing(cfg.rules, h1)->0;
    assert(cfg2.rules[i] == cfg.rules[i]);
}

/// The outcome of a request depends on the rules' tests only through the
/// first rule that fires: rule `i` answers the request exactly when it is
/// enabled, has no tests or one that holds, and no earlier rule does.
pub proof fn first_matching_rule_answers(cfg: MatcherView, v: RequestValue, i: int)
    requires
        0 <= i < cfg.rules.len(),
    ensures
        first_firing(cfg.rules, hits_for(cfg.rules, v)) == Some(i) <==> {
            &&& !cfg.rules[i].disabled
            &&& cfg.rules[i].tests.len() == 0 || rule_hit(cfg.rules[i], v)
            &&& forall|j: int| 0 <= j < i ==> !#[trigger] fires(cfg.rules[j], rule_hit(cfg.rules[j], v))
        },
{
    let h = hits_for(cfg.rules, v);
    first_matching_rule_wins(cfg.rules, h, i);
    assert(h[i] == rule_hit(cfg.rules[i], v));
    if forall|j: int| 0 <= j < i ==> !#[trigger] fires(cfg.rules[j], h[j]) {
        assert forall|j: int| 0 <= j < i implies !#[trigger] fires(cfg.rules[j], rule_hit(cfg.rules[j], v)) by {
            assert(h[j] == rule_hit(cfg.rules[j], v));
            assert(!fires(cfg.rules[j], h[j]));
        }
    }
    if forall|j: int| 0 <= j < i ==> !#[trigger] fires(cfg.rules[j], rule_hit(cfg.rules[j], v)) {
        assert forall|j: int| 0 <= j < i implies !#[trigger] fires(cfg.rules[j], h[j]) by {
            assert(h[j] == rule_hit(cfg.rules[j], v));
            assert(!fires(cfg.rules[j], rule_hit(cfg.rules[j], v)));
        }
    }
}

/// On a request: an enabled rule without tests answers every request that no
/// earlier rule answers, so the outcome is never "no match".
pub proof fn rule_without_tests_answers_every_request(cfg: MatcherView, v: RequestValue, i: int)
    requires
        0 <= i < cfg.rules.len(),
        !cfg.rules[i].disabled,
        cfg.rules[i].tests.len() == 0,
    ensures
        first_firing(cfg.rules, hits_for(cfg.rules, v)) matches Some(k) && k <= i,
        outcome_spec(cfg, v) is Some,
{
    empty_tests_match_every_request(cfg.rules, hits_for(cfg.rules, v), i);
}

/// On a request: a disabled rule never answers, whatever its tests would give.
pub proof fn disabled_rule_never_answers(cfg: MatcherView, v: RequestValue, i: int)
    requires
        0 <= i < cfg.rules.len(),
        cfg.rules[i].disabled,
    ensures
        first_firing(cfg.rules, hits_for(cfg.rules, v)) != Some(i),
{
    disabled_rule_is_skipped(cfg.rules, hits_for(cfg.rules, v), i, false);
}

/// A rule that names an action answers with exactly that action, whatever
/// the action holds (a response or none, handling stopped or going on); the
/// default action stands in only for a rule that names none.
pub proof fn rule_with_action_answers_with_it(cfg: MatcherView, hits: Seq<bool>, a: Action)
    requires
        hits.len() == cfg.rules.len(),
        first_firing(cfg.rules, hits) matches Some(i) && cfg.rules[i].action == Some(a),
    ensures
        decision(cfg, hits) == Some(a),
{
}

/// The same on a request: where the rule that answers names an action, the
/// outcome of the request is that action.
pub proof fn answering_rule_action_is_the_outcome(cfg: MatcherView, v: RequestValue, i: int, a: Action)
    requires
        0 <= i < cfg.rules.len(),
        first_firing(cfg.rules, hits_for(cfg.rules, v)) == Some(i),
        cfg.rules[i].action == Some(a),
    ensures
        outcome_spec(cfg, v) == Some(a),
        forall|o: Outcome| outcome_is(o, outcome_spec(cfg, v)) ==> o == Outcome::Match(&a),
{
    rule_with_action_answers_with_it(cfg, hits_for(cfg.rules, v), a);
}

/// Only the boolean `true` counts as a match: `false`, a string (even
/// "true"), any other value and any failure do not.
pub proof fn only_true_is_a_match(e: Evaluation, t: Seq<char>, v: RequestValue)
    ensures
        passes_spec(e) <==> e == Evaluation::Bool(true),
        test_holds(t, v) ==> run_verdict(t, v) == Verdict::Bool(true),
        run_verdict(t, v) is Text || run_verdict(t, v) is Neither || run_verdict(t, v) == Verdict::Bool(false)
            ==> !test_holds(t, v),
{
}

/// Resolving the client address changes nothing but the address: without an
/// address program the request stays as it is; with one, the request the
/// rules see carries the program's string result as its address, and a
/// result that is no string leaves no request to run the rules on.
pub proof fn resolving_changes_only_the_address(cfg: MatcherView, req: RequestView)
    ensures
        resolved(cfg, req) matches Some(q) ==> {
            &&& q.path == req.path
            &&& q.method == req.method
            &&& q.version == req.version
            &&& q.headers == req.headers
        },
        cfg.source_ip is None ==> resolved(cfg, req) == Some(req),
        cfg.source_ip matches Some(p) ==> match run_verdict(p, request_value(req)) {
            Verdict::Text(ip) => resolved(cfg, req) matches Some(q) && q.source_ip == ip,
            _ => resolved(cfg, req) is None,
        },
{
}

} // verus!
