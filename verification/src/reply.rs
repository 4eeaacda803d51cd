//! How an action answers a request: the calls to make on the host's response.

use vstd::prelude::*;
use crate::config::{Action, PluginConfig, Response};
use crate::matcher::{MatchError, Outcome};

verus! {

/// One call on the host's response.
#[derive(Debug, Clone, PartialEq, Eq)]
pub enum HostCall {
    /// Set a response header, name and value.
    SetHeader(String, String),
    /// Set the response status.
    SetStatus(i32),
    /// Write the response body.
    WriteBody(String),
}

/// The mathematical form of a `HostCall`.
pub enum HostCallView {
    SetHeader(Seq<char>, Seq<char>),
    SetStatus(i32),
    WriteBody(Seq<char>),
}

impl View for HostCall {
    type V = HostCallView;

    open spec fn view(&self) -> HostCallView {
        match self {
            HostCall::SetHeader(n, v) => HostCallView::SetHeader(n@, v@),
            HostCall::SetStatus(s) => HostCallView::SetStatus(*s),
            HostCall::WriteBody(b) => HostCallView::WriteBody(b@),
        }
    }
}

pub open spec fn calls_view(calls: Seq<HostCall>) -> Seq<HostCallView> {
    calls.map_values(|c: HostCall| c@)
}

/// One `SetHeader` call per configured header, in order.
pub open spec fn header_calls(header: Option<Vec<(String, String)>>) -> Seq<HostCallView> {
    match header {
        Some(h) => h@.map_values(|p: (String, String)| HostCallView::SetHeader(p.0@, p.1@)),
        None => Seq::empty(),
    }
}

/// The status a response is sent with.
pub open spec fn status_of(response: Response, default_status: i32) -> i32 {
    match response.status {
        Some(s) => s,
        None => default_status,
    }
}

/// The calls for a response: its headers, then its status, then its body if it has one.
pub open spec fn response_calls(response: Response, default_status: i32) -> Seq<HostCallView> {
    header_calls(response.header) + seq![HostCallView::SetStatus(status_of(response, default_status))]
        + match response.body {
        Some(b) => seq![HostCallView::WriteBody(b@)],
        None => Seq::empty(),
    }
}

/// The calls for an action: those of its response, none where it has no response.
pub open spec fn action_calls(action: Action, default_status: i32) -> Seq<HostCallView> {
    match action.response {
        Some(r) => response_calls(r, default_status),
        None => Seq::empty(),
    }
}

/// What answering a request with an action comes to: the calls to make on
/// the response, and whether handling goes on afterwards.
#[derive(Debug, Clone, PartialEq, Eq)]
pub struct Reply {
    pub calls: Vec<HostCall>,
    pub proceed: bool,
}

impl Action {
    /// The reply of this action: its response's headers, status (the given
    /// default where the response names none) and body, in that order, and
    /// its `continue` flag.
    pub fn execute(&self, default_status: i32) -> (r: Reply)
        ensures
            calls_view(r.calls@) == action_calls(*self, default_status),
            r.proceed == self.proceed,
    {
        let mut calls: Vec<HostCall> = Vec::new();
        match &self.response {
            None => {},
            Some(resp) => {
                match &resp.header {
                    None => {},
                    Some(h) => {
                        let mut i: usize = 0;
                        while i < h.len()
                            invariant
                                i <= h.len(),
                                calls@.len() == i,
                                forall|k: int| 0 <= k < i ==> #[trigger] calls@[k]@ == HostCallView::SetHeader(h@[k].0@, h@[k].1@),
                            decreases h.len() - i,
                        {
                            let name = h[i].0.clone();
                            let value = h[i].1.clone();
                            calls.push(HostCall::SetHeader(name, value));
                            i = i + 1;
                        }
                    },
                }
                assert(calls_view(calls@) =~= header_calls(resp.header));
                let status = match resp.status {
                    Some(s) => s,
                    None => default_status,
                };
                calls.push(HostCall::SetStatus(status));
                match &resp.body {
                    None => {},
                    Some(b) => {
                        calls.push(HostCall::WriteBody(b.clone()));
                    },
                }
            },
        }
        let r = Reply { calls, proceed: self.proceed };
        assert(calls_view(r.calls@) =~= action_calls(*self, default_status));
        r
    }
}


/// The reply to a request, from what matching it gave: a match is answered by
/// the matched action, no match lets handling go on untouched, and a request
/// that could not be matched is answered by the error action.
pub open spec fn reply_spec(plugin: PluginConfig, result: Result<Outcome, MatchError>) -> (Seq<HostCallView>, bool) {
    match result {
        Ok(Outcome::Match(a)) => (action_calls(*a, plugin.default_status), a.proceed),
        Ok(Outcome::NoMatch) => (Seq::empty(), true),
        Err(_) => (action_calls(plugin.error_action, plugin.default_status), plugin.error_action.proceed),
    }
}

impl PluginConfig {
    /// The reply to a request, from what matching it gave; see `reply_spec`.
    pub fn respond(&self, result: &Result<Outcome, MatchError>) -> (r: Reply)
        ensures
            (calls_view(r.calls@), r.proceed) == reply_spec(*self, *result),
    {
        match result {
            Ok(Outcome::Match(a)) => a.execute(self.default_status),
            Ok(Outcome::NoMatch) => {
                let r = Reply { calls: Vec::new(), proceed: true };
                assert(calls_view(r.calls@) =~= Seq::<HostCallView>::empty());
                r
            },
            Err(_) => self.error_action.execute(self.default_status),
        }
    }
}

/// The calls of an action end with a single `WriteBody` of its response's
/// body, whatever headers and status come before; an action whose response
/// has no body writes none, and an action without a response makes no call.
pub proof fn body_is_written_last_and_once(action: Action, default_status: i32)
    ensures
        action.response is None ==> action_calls(action, default_status).len() == 0,
        action.response matches Some(r) ==> match r.body {
            Some(b) => {
                let calls = action_calls(action, default_status);
                &&& calls.len() > 0
                &&& calls[calls.len() - 1] == HostCallView::WriteBody(b@)
                &&& forall|j: int| 0 <= j < calls.len() - 1 ==> !(#[trigger] calls[j] is WriteBody)
            },
            None => forall|j: int| 0 <= j < action_calls(action, default_status).len()
                ==> !(#[trigger] action_calls(action, default_status)[j] is WriteBody),
        },
{
    if action.response is Some {
        let r = action.response->0;
        let hc = header_calls(r.header);
        assert forall|j: int| 0 <= j < hc.len() implies #[trigger] hc[j] is SetHeader by {}
        let calls = action_calls(action, default_status);
        assert forall|j: int| 0 <= j < hc.len() + 1 implies !(#[trigger] calls[j] is WriteBody) by {
            if j < hc.len() {
                assert(calls[j] == hc[j]);
            }
        }
    }
}

/// A response is sent with exactly one status: the one it names, or else the
/// default status it is executed with; its headers come first, in order.
pub proof fn one_status_named_or_default(response: Response, default_status: i32)
    ensures
        ({
            let calls = action_calls(Action { response: Some(response), jail: None, proceed: false }, default_status);
            let n = match response.header { Some(h) => h@.len() as int, None => 0 };
            &&& calls.len() > n
            &&& forall|j: int| 0 <= j < n ==> (#[trigger] calls[j]) == HostCallView::SetHeader(response.header->0@[j].0@, response.header->0@[j].1@)
            &&& response.status matches Some(s) ==> calls[n] == HostCallView::SetStatus(s)
            &&& response.status is None ==> calls[n] == HostCallView::SetStatus(default_status)
            &&& forall|j: int| 0 <= j < calls.len() && j != n ==> !(#[trigger] calls[j] is SetStatus)
        }),
{
    let hc = header_calls(response.header);
    assert forall|j: int| 0 <= j < hc.len() implies #[trigger] hc[j] is SetHeader by {}
}

/// Every action executes the same way wherever its calls are asked for, and
/// the plugin answers a matched action under its own default status: a
/// response of the action that names no status is sent with the plugin's
/// `default_status`, and handling goes on as the action says.
pub proof fn matched_action_answers_under_plugin_status(plugin: PluginConfig, action: Action)
    ensures
        reply_spec(plugin, Ok(Outcome::Match(&action))).0 == action_calls(action, plugin.default_status),
        reply_spec(plugin, Ok(Outcome::Match(&action))).1 == action.proceed,
        action.response matches Some(r) && r.status is None ==>
            reply_spec(plugin, Ok(Outcome::Match(&action))).0.contains(HostCallView::SetStatus(plugin.default_status)),
{
    if action.response is Some {
        let r = action.response->0;
        if r.status is None {
            one_status_named_or_default(r, plugin.default_status);
            let n = match r.header { Some(h) => h@.len() as int, None => 0 };
            let calls = action_calls(Action { response: Some(r), jail: None, proceed: false }, plugin.default_status);
            assert(calls == action_calls(action, plugin.default_status));
            assert(calls[n] == HostCallView::SetStatus(plugin.default_status));
        }
    }
}

/// Every refusal, whatever its cause, is answered by the error action under the
/// plugin's default status; no match lets handling go on with no call at all.
pub proof fn every_refusal_gets_the_error_action(plugin: PluginConfig, x: MatchError)
    ensures
        reply_spec(plugin, Err(x)).0 == action_calls(plugin.error_action, plugin.default_status),
        reply_spec(plugin, Err(x)).1 == plugin.error_action.proceed,
        reply_spec(plugin, Ok(Outcome::NoMatch)).0.len() == 0,
        reply_spec(plugin, Ok(Outcome::NoMatch)).1,
{
}

} // verus!
