//! Invoking an action of a deployed service: the decisions between the
//! request and its answer.
//!
//! The caller reads the service's record, runs the command on the owning
//! node and hands each outcome back as an event.

use crate::service::{ActionView, AppMetaService, NodeID, ServiceRecord};
use crate::text::{concat2, concat3, same_text};
use vstd::prelude::*;

verus! {

/// The seconds that a remote command is given before the call counts as
/// failed.
pub const RUN_CMD_TIMEOUT_SECS: u64 = 10;

/// A request to run an action of a service.
#[derive(Debug, PartialEq, Eq)]
pub struct RunServiceActionReq {
    pub service: String,
    pub action_cmd: String,
    pub sync: bool,
}

/// A request to run an action, as plain text.
pub struct RunServiceActionReqView {
    pub service: Seq<char>,
    pub action_cmd: Seq<char>,
    pub sync: bool,
}

impl View for RunServiceActionReq {
    type V = RunServiceActionReqView;

    open spec fn view(&self) -> RunServiceActionReqView {
        RunServiceActionReqView {
            service: self.service@,
            action_cmd: self.action_cmd@,
            sync: self.sync,
        }
    }
}

/// The answer to a request to run an action.
#[derive(Debug, PartialEq, Eq)]
pub enum RunServiceActionResp {
    Succ { output: String },
    Fail { msg: String },
}

/// The answer to a request to run an action, as plain text.
pub enum RunServiceActionRespView {
    Succ { output: Seq<char> },
    Fail { msg: Seq<char> },
}

impl View for RunServiceActionResp {
    type V = RunServiceActionRespView;

    open spec fn view(&self) -> RunServiceActionRespView {
        match self {
            RunServiceActionResp::Succ { output } => RunServiceActionRespView::Succ {
                output: output@,
            },
            RunServiceActionResp::Fail { msg } => RunServiceActionRespView::Fail { msg: msg@ },
        }
    }
}

/// How far an invocation has come.
#[derive(Clone, Copy, Debug, PartialEq, Eq, Structural)]
pub enum RunActionState {
    /// Nothing has been done yet.
    Start,
    /// The record of the service is being read.
    LookingUp,
    /// The command is running on the service's node.
    Calling,
    /// The answer has been given.
    Done,
}

impl DeepView for RunActionState {
    type V = RunActionState;

    open spec fn deep_view(&self) -> RunActionState {
        *self
    }
}

/// What the outside world reports back to an invocation.
#[derive(Debug, PartialEq, Eq)]
pub enum RunActionEvent {
    /// The request has arrived.
    Begin,
    /// The record stored for the service; `None` where there is none, or
    /// none that can be read.
    ServiceRead { record: Option<AppMetaService> },
    /// The call did not get through, or took longer than it was given.
    CallFailed { cause: String },
    /// The command ran and the node reported an error.
    CmdFailed { error: String },
    /// The command ran; `output` is what it printed.
    CmdDone { output: String },
}

/// An event of an invocation as plain values.
pub enum RunActionEventView {
    Begin,
    ServiceRead { record: Option<ServiceRecord> },
    CallFailed { cause: Seq<char> },
    CmdFailed { error: Seq<char> },
    CmdDone { output: Seq<char> },
}

impl View for RunActionEvent {
    type V = RunActionEventView;

    open spec fn view(&self) -> RunActionEventView {
        match self {
            RunActionEvent::Begin => RunActionEventView::Begin,
            RunActionEvent::ServiceRead { record } => RunActionEventView::ServiceRead {
                record: record.deep_view(),
            },
            RunActionEvent::CallFailed { cause } => RunActionEventView::CallFailed {
                cause: cause@,
            },
            RunActionEvent::CmdFailed { error } => RunActionEventView::CmdFailed { error: error@ },
            RunActionEvent::CmdDone { output } => RunActionEventView::CmdDone { output: output@ },
        }
    }
}

/// What an invocation asks the outside world to do next.
#[derive(Debug, PartialEq, Eq)]
pub enum RunActionAction {
    /// Read the record stored for the service `name`.
    ReadService { name: String },
    /// Run `cmd` in `workdir` on `node`, and give up after `timeout_secs`.
    RunCmd { node: NodeID, cmd: String, workdir: String, timeout_secs: u64 },
    /// Give `resp` as the answer.
    Reply { resp: RunServiceActionResp },
}

/// An action of an invocation as plain values.
pub enum RunActionActionView {
    ReadService { name: Seq<char> },
    RunCmd { node: NodeID, cmd: Seq<char>, workdir: Seq<char>, timeout_secs: u64 },
    Reply { resp: RunServiceActionRespView },
}

impl View for RunActionAction {
    type V = RunActionActionView;

    open spec fn view(&self) -> RunActionActionView {
        match self {
            RunActionAction::ReadService { name } => RunActionActionView::ReadService {
                name: name@,
            },
            RunActionAction::RunCmd {
                node,
                cmd,
                workdir,
                timeout_secs,
            } => RunActionActionView::RunCmd {
                node: *node,
                cmd: cmd@,
                workdir: workdir@,
                timeout_secs: *timeout_secs,
            },
            RunActionAction::Reply { resp } => RunActionActionView::Reply { resp: resp@ },
        }
    }
}

impl DeepView for RunActionAction {
    type V = RunActionActionView;

    open spec fn deep_view(&self) -> RunActionActionView {
        self@
    }
}

/// The answer to a request that does not wait for the command.
pub open spec fn msg_async_unsupported() -> Seq<char> {
    "unsupported async mode"@
}

/// The answer to a request for a service that has no record.
pub open spec fn msg_service_missing(name: Seq<char>) -> Seq<char> {
    "service "@ + name + " not exist"@
}

/// The answer to a request for an action that the service does not declare.
pub open spec fn msg_action_missing(action_cmd: Seq<char>) -> Seq<char> {
    "action "@ + action_cmd + " not exist"@
}

/// The answer when the call to the node did not get through in time.
pub open spec fn msg_run_call_failed(cause: Seq<char>) -> Seq<char> {
    "call remote_run_cmd_caller failed, err: "@ + cause
}

/// The answer when the command ran and the node reported an error.
pub open spec fn msg_run_cmd_failed(error: Seq<char>) -> Seq<char> {
    "remote run cmd failed: "@ + error
}

/// The first of `actions` whose command is `action_cmd`.
pub open spec fn find_action(actions: Seq<ActionView>, action_cmd: Seq<char>) -> Option<
    ActionView,
>
    decreases actions.len(),
{
    if actions.len() == 0 {
        None
    } else {
        match find_action(actions.drop_last(), action_cmd) {
            Some(found) => Some(found),
            None => if actions.last().cmd == action_cmd {
                Some(actions.last())
            } else {
                None
            },
        }
    }
}

/// A failed invocation with the message `msg`.
pub open spec fn run_failed(msg: Seq<char>) -> (RunActionState, RunActionActionView) {
    (
        RunActionState::Done,
        RunActionActionView::Reply { resp: RunServiceActionRespView::Fail { msg } },
    )
}

/// The step that the invocation `req` in state `state` takes on `event`: the
/// next state and what to do. `None` where the state does not await that
/// event.
pub open spec fn run_service_action_next(
    req: RunServiceActionReqView,
    state: RunActionState,
    event: RunActionEventView,
) -> Option<(RunActionState, RunActionActionView)> {
    match (state, event) {
        (RunActionState::Start, RunActionEventView::Begin) => if !req.sync {
            Some(run_failed(msg_async_unsupported()))
        } else {
            Some(
                (
                    RunActionState::LookingUp,
                    RunActionActionView::ReadService { name: req.service },
                ),
            )
        },
        (RunActionState::LookingUp, RunActionEventView::ServiceRead { record }) => match record {
            None => Some(run_failed(msg_service_missing(req.service))),
            Some(service) => match find_action(service.actions, req.action_cmd) {
                None => Some(run_failed(msg_action_missing(req.action_cmd))),
                Some(action) => Some(
                    (
                        RunActionState::Calling,
                        RunActionActionView::RunCmd {
                            node: service.node,
                            cmd: action.cmd,
                            workdir: service.app_dir,
                            timeout_secs: RUN_CMD_TIMEOUT_SECS,
                        },
                    ),
                ),
            },
        },
        (RunActionState::Calling, RunActionEventView::CallFailed { cause }) => Some(
            run_failed(msg_run_call_failed(cause)),
        ),
        (RunActionState::Calling, RunActionEventView::CmdFailed { error }) => Some(
            run_failed(msg_run_cmd_failed(error)),
        ),
        (RunActionState::Calling, RunActionEventView::CmdDone { output }) => Some(
            (
                RunActionState::Done,
                RunActionActionView::Reply { resp: RunServiceActionRespView::Succ { output } },
            ),
        ),
        _ => None,
    }
}

/// What is found among the first `k` actions is what is found among all.
pub proof fn lemma_find_action_prefix(actions: Seq<ActionView>, action_cmd: Seq<char>, k: int)
    requires
        0 <= k <= actions.len(),
        find_action(actions.take(k), action_cmd) is Some,
    ensures
        find_action(actions, action_cmd) == find_action(actions.take(k), action_cmd),
    decreases actions.len() - k,
{
    if k < actions.len() {
        assert(actions.take(k + 1).drop_last() =~= actions.take(k));
        lemma_find_action_prefix(actions, action_cmd, k + 1);
    } else {
        assert(actions.take(k) =~= actions);
    }
}

/// The command of the first action of `service` that is named `action_cmd`.
fn find_action_cmd(service: &AppMetaService, action_cmd: &str) -> (res: Option<String>)
    ensures
        match find_action(service@.actions, action_cmd@) {
            Some(action) => res matches Some(cmd) && cmd@ == action.cmd,
            None => res is None,
        },
{
    let actions = service.actions();
    let ghost views = actions.deep_view();
    let mut i: usize = 0;
    assert(views.take(0) =~= Seq::empty());
    while i < actions.len()
        invariant
            i <= actions.len(),
            views == actions.deep_view(),
            views == service@.actions,
            find_action(views.take(i as int), action_cmd@) is None,
        decreases actions.len() - i,
    {
        assert(views.take(i as int + 1).drop_last() =~= views.take(i as int));
        assert(views.take(i as int + 1).last() == actions[i as int]@);
        if same_text(actions[i].cmd.as_str(), action_cmd) {
            proof {
                lemma_find_action_prefix(views, action_cmd@, i as int + 1);
            }
            return Some(actions[i].cmd.clone());
        }
        i += 1;
    }
    assert(views.take(actions.len() as int) =~= views);
    None
}

/// The failed invocation with message `msg`.
fn fail_run(msg: String) -> (res: (RunActionState, RunActionAction))
    ensures
        res.deep_view() == run_failed(msg@),
{
    (RunActionState::Done, RunActionAction::Reply { resp: RunServiceActionResp::Fail { msg } })
}

/// Takes one step of the invocation that `req` asks for: from `state` and the
/// `event` that the outside world reports, to the next state and the next
/// thing to do. `None`, and nothing to do, where `state` does not await
/// `event`.
pub fn run_service_action_step(
    req: &RunServiceActionReq,
    state: RunActionState,
    event: RunActionEvent,
) -> (res: Option<(RunActionState, RunActionAction)>)
    ensures
        res.deep_view() == run_service_action_next(req@, state, event@),
{
    match state {
        RunActionState::Start => match event {
            RunActionEvent::Begin => {
                if !req.sync {
                    Some(fail_run("unsupported async mode".to_owned()))
                } else {
                    Some(
                        (
                            RunActionState::LookingUp,
                            RunActionAction::ReadService { name: req.service.clone() },
                        ),
                    )
                }
            },
            _ => None,
        },
        RunActionState::LookingUp => match event {
            RunActionEvent::ServiceRead { record } => match record {
                None => Some(
                    fail_run(concat3("service ", req.service.as_str(), " not exist")),
                ),
                Some(service) => match find_action_cmd(&service, req.action_cmd.as_str()) {
                    None => Some(
                        fail_run(concat3("action ", req.action_cmd.as_str(), " not exist")),
                    ),
                    Some(cmd) => Some(
                        (
                            RunActionState::Calling,
                            RunActionAction::RunCmd {
                                node: service.node(),
                                cmd,
                                workdir: service.app_dir().clone(),
                                timeout_secs: RUN_CMD_TIMEOUT_SECS,
                            },
                        ),
                    ),
                },
            },
            _ => None,
        },
        RunActionState::Calling => match event {
            RunActionEvent::CallFailed { cause } => Some(
                fail_run(concat2("call remote_run_cmd_caller failed, err: ", cause.as_str())),
            ),
            RunActionEvent::CmdFailed { error } => Some(
                fail_run(concat2("remote run cmd failed: ", error.as_str())),
            ),
            RunActionEvent::CmdDone { output } => Some(
                (
                    RunActionState::Done,
                    RunActionAction::Reply { resp: RunServiceActionResp::Succ { output } },
                ),
            ),
            _ => None,
        },
        RunActionState::Done => None,
    }
}

/// A request that does not wait for the command is answered at once with
/// "unsupported async mode", whatever else it asks for, and that ends it: the
/// answer is the first step, and no later event leads to any action. Neither
/// the stored records nor the transport are touched.
pub proof fn lemma_async_rejected_at_once(req: RunServiceActionReqView)
    requires
        !req.sync,
    ensures
        run_service_action_next(req, RunActionState::Start, RunActionEventView::Begin) == Some(
            run_failed("unsupported async mode"@),
        ),
        forall|event: RunActionEventView|
            run_service_action_next(req, RunActionState::Done, event) is None,
{
}

/// Every remote command is given ten seconds, and a call that did not get
/// through in that time ends the invocation with the transport's failure.
pub proof fn lemma_call_has_ten_seconds(
    req: RunServiceActionReqView,
    state: RunActionState,
    event: RunActionEventView,
    cause: Seq<char>,
)
    ensures
        run_service_action_next(req, state, event) matches Some(
            (_, RunActionActionView::RunCmd { timeout_secs, .. }),
        ) ==> timeout_secs == 10,
        run_service_action_next(
            req,
            RunActionState::Calling,
            RunActionEventView::CallFailed { cause },
        ) == Some(run_failed(msg_run_call_failed(cause))),
{
}

/// The message of a call that did not get through differs from the message
/// of a command that failed on the node, whatever the two causes are.
pub proof fn lemma_transport_failure_is_distinct(cause: Seq<char>, error: Seq<char>)
    ensures
        msg_run_call_failed(cause) != msg_run_cmd_failed(error),
        run_failed(msg_run_call_failed(cause)) != run_failed(msg_run_cmd_failed(error)),
{
    reveal_strlit("call remote_run_cmd_caller failed, err: ");
    reveal_strlit("remote run cmd failed: ");
    assert(msg_run_call_failed(cause)[0] == 'c');
    assert(msg_run_cmd_failed(error)[0] == 'r');
}

} // verus!
