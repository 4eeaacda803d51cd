//! A table of named actions, and answering a request with one of them.

use vstd::prelude::*;
use crate::config::{Action, DEFAULT_STATUS};
use crate::reply::{action_calls, calls_view, Reply};

verus! {

/// Named actions, with a default for names the table lacks.
///
/// The table is a list of entries in which the last entry of a name wins, as
/// in a map built from them in order: vstd specifies `HashMap` lookups only
/// for keys whose hashing it knows, which `String` keys are not, so a list
/// lets the contracts say exactly which action a name selects.
pub struct Agent {
    default: Action,
    actions: Vec<(String, Action)>,
}

/// The mathematical form of an `Agent`.
pub struct AgentView {
    pub default: Action,
    pub actions: Seq<(Seq<char>, Action)>,
}

impl View for Agent {
    type V = AgentView;

    closed spec fn view(&self) -> AgentView {
        AgentView {
            default: self.default,
            actions: self.actions@.map_values(|e: (String, Action)| (e.0@, e.1)),
        }
    }
}

/// Whether an entry at or after `from` carries `name`.
pub open spec fn named_at_or_after(actions: Seq<(Seq<char>, Action)>, name: Seq<char>, from: int) -> bool {
    exists|k: int| from <= k < actions.len() && #[trigger] actions[k].0 == name
}

/// The action that `name` selects: that of the last entry with that name (as
/// when a map is built from the entries in order), else the default.
pub open spec fn named_action(a: AgentView, name: Seq<char>) -> Action {
    if named_at_or_after(a.actions, name, 0) {
        a.actions[choose|i: int| 0 <= i < a.actions.len() && #[trigger] a.actions[i].0 == name
            && !named_at_or_after(a.actions, name, i + 1)].1
    } else {
        a.default
    }
}

impl Agent {
    /// An agent for the given named actions; unknown names get the default
    /// action (no response, handling stops).
    pub fn new(actions: Vec<(String, Action)>) -> (r: Agent)
        ensures
            r@.actions == actions@.map_values(|e: (String, Action)| (e.0@, e.1)),
            r@.default == (Action { response: None, jail: None, proceed: false }),
    {
        Agent { actions, default: Action::default() }
    }

    /// The action that `name` selects; see `named_action`.
    pub fn action(&self, name: &str) -> (a: &Action)
        ensures
            *a == named_action(self@, name@),
    {
        let key = name.to_string();
        let ghost v = self@.actions;
        let mut i: usize = self.actions.len();
        while i > 0
            invariant
                i <= self.actions.len(),
                v == self@.actions,
                key@ == name@,
                !named_at_or_after(v, name@, i as int),
            decreases i,
        {
            assert(v[i - 1].0 == self.actions@[i - 1].0@);
            if self.actions[i - 1].0 == key {
                assert(named_at_or_after(v, name@, 0));
                let ghost c = choose|c: int| 0 <= c < v.len() && #[trigger] v[c].0 == name@
                    && !named_at_or_after(v, name@, c + 1);
                assert(c == i - 1) by {
                    if c < i - 1 {
                        assert(v[i - 1].0 == name@);
                    } else if c > i - 1 {
                        assert(named_at_or_after(v, name@, i as int));
                    }
                }
                return &self.actions[i - 1].1;
            }
            assert(!named_at_or_after(v, name@, i - 1)) by {
                if named_at_or_after(v, name@, i - 1) {
                    let k = choose|k: int| i - 1 <= k < v.len() && #[trigger] v[k].0 == name@;
                    if k > i - 1 {
                        assert(named_at_or_after(v, name@, i as int));
                    }
                }
            }
            i = i - 1;
        }
        &self.default
    }

    /// Answers a request with the action that `action_name` selects: its
    /// response's headers, status (400 where it names none) and body, and its
    /// `continue` flag.
    pub fn perform(&self, action_name: &str) -> (r: Reply)
        ensures
            calls_view(r.calls@) == action_calls(named_action(self@, action_name@), DEFAULT_STATUS),
            r.proceed == named_action(self@, action_name@).proceed,
    {
        self.action(action_name).execute(DEFAULT_STATUS)
    }
}

} // verus!
