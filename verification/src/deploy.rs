//! Deploying a service: the decisions between the request and its answer.
//!
//! The caller owns the outside world. It asks the membership whether a node
//! exists, calls the node, reads and writes the stored name list under its
//! lock, and hands each outcome back as an event; every decision is taken
//! here.

use crate::names::{add_name, with_name};
use crate::service::{
    clone_actions, service_record, AppMetaService, NodeID, ServiceBasic, ServiceBasicView,
    ServiceRecord,
};
use crate::text::{concat2, concat3, decimal, node_text, parse_node_id, parsed_node_id};
use vstd::prelude::*;

verus! {

/// A request to deploy a service.
#[derive(Debug, PartialEq, Eq)]
pub struct AddServiceReq {
    pub service: ServiceBasic,
}

/// The answer to a deployment request.
#[derive(Debug, PartialEq, Eq)]
pub enum AddServiceResp {
    Succ {  },
    Fail { msg: String },
}

/// A deployment answer as plain text.
pub enum AddServiceRespView {
    Succ,
    Fail { msg: Seq<char> },
}

impl View for AddServiceResp {
    type V = AddServiceRespView;

    open spec fn view(&self) -> AddServiceRespView {
        match self {
            AddServiceResp::Succ {  } => AddServiceRespView::Succ,
            AddServiceResp::Fail { msg } => AddServiceRespView::Fail { msg: msg@ },
        }
    }
}

impl DeepView for AddServiceResp {
    type V = AddServiceRespView;

    open spec fn deep_view(&self) -> AddServiceRespView {
        self@
    }
}

/// How far a deployment has come.
#[derive(Clone, Copy, Debug, PartialEq, Eq, Structural)]
pub enum AddServiceState {
    /// Nothing has been done yet.
    Start,
    /// The membership has been asked whether `node` exists.
    CheckingNode { node: NodeID },
    /// `node` has been asked for the content of the service directory.
    VerifyingDir { node: NodeID },
    /// The lock of the name list is held and the list is being read.
    ReadingNames { node: NodeID },
    /// The new name list and the service record are being written.
    Persisting,
    /// The answer has been given.
    Done,
}

impl DeepView for AddServiceState {
    type V = AddServiceState;

    open spec fn deep_view(&self) -> AddServiceState {
        *self
    }
}

/// What the outside world reports back to a deployment.
#[derive(Debug, PartialEq, Eq)]
pub enum AddServiceEvent {
    /// The request has arrived.
    Begin,
    /// The membership has answered.
    NodeChecked { exists: bool },
    /// The call to the node did not get through.
    DirCallFailed { cause: String },
    /// The node answered that it cannot show the directory.
    DirRefused { error: String },
    /// The node showed the directory.
    DirConfirmed,
    /// The stored name list, as it was read under the lock.
    NamesRead { names: Vec<String> },
    /// The name list and the record have been written and the lock released.
    Persisted,
}

/// An event of a deployment as plain text.
pub enum AddServiceEventView {
    Begin,
    NodeChecked { exists: bool },
    DirCallFailed { cause: Seq<char> },
    DirRefused { error: Seq<char> },
    DirConfirmed,
    NamesRead { names: Seq<Seq<char>> },
    Persisted,
}

impl View for AddServiceEvent {
    type V = AddServiceEventView;

    open spec fn view(&self) -> AddServiceEventView {
        match self {
            AddServiceEvent::Begin => AddServiceEventView::Begin,
            AddServiceEvent::NodeChecked { exists } => AddServiceEventView::NodeChecked {
                exists: *exists,
            },
            AddServiceEvent::DirCallFailed { cause } => AddServiceEventView::DirCallFailed {
                cause: cause@,
            },
            AddServiceEvent::DirRefused { error } => AddServiceEventView::DirRefused {
                error: error@,
            },
            AddServiceEvent::DirConfirmed => AddServiceEventView::DirConfirmed,
            AddServiceEvent::NamesRead { names } => AddServiceEventView::NamesRead {
                names: names.deep_view(),
            },
            AddServiceEvent::Persisted => AddServiceEventView::Persisted,
        }
    }
}

/// What a deployment asks the outside world to do next.
#[derive(Debug, PartialEq, Eq)]
pub enum AddServiceAction {
    /// Ask the membership whether `node` exists.
    CheckNode { node: NodeID },
    /// Ask `node` for the content of `path`, with the transport's own timeout.
    GetDirContent { node: NodeID, path: String },
    /// Take the lock of the name list and read the list.
    ReadNames,
    /// Write `names` as the name list and `record` as the record of `name`,
    /// then release the lock.
    Persist { names: Vec<String>, name: String, record: AppMetaService },
    /// Give `resp` as the answer.
    Reply { resp: AddServiceResp },
}

/// An action of a deployment as plain values.
pub enum AddServiceActionView {
    CheckNode { node: NodeID },
    GetDirContent { node: NodeID, path: Seq<char> },
    ReadNames,
    Persist { names: Seq<Seq<char>>, name: Seq<char>, record: ServiceRecord },
    Reply { resp: AddServiceRespView },
}

impl View for AddServiceAction {
    type V = AddServiceActionView;

    open spec fn view(&self) -> AddServiceActionView {
        match self {
            AddServiceAction::CheckNode { node } => AddServiceActionView::CheckNode {
                node: *node,
            },
            AddServiceAction::GetDirContent { node, path } => AddServiceActionView::GetDirContent {
                node: *node,
                path: path@,
            },
            AddServiceAction::ReadNames => AddServiceActionView::ReadNames,
            AddServiceAction::Persist { names, name, record } => AddServiceActionView::Persist {
                names: names.deep_view(),
                name: name@,
                record: record@,
            },
            AddServiceAction::Reply { resp } => AddServiceActionView::Reply { resp: resp@ },
        }
    }
}

impl DeepView for AddServiceAction {
    type V = AddServiceActionView;

    open spec fn deep_view(&self) -> AddServiceActionView {
        self@
    }
}

/// The answer to a request whose node is not a number.
pub open spec fn msg_node_id_not_number() -> Seq<char> {
    "node id should be number"@
}

/// The answer to a request for a node that the cluster does not know.
pub open spec fn msg_node_missing(node: NodeID) -> Seq<char> {
    "node "@ + decimal(node as nat) + " not exist"@
}

/// The answer when the call for the directory content did not get through.
pub open spec fn msg_dir_call_failed(cause: Seq<char>) -> Seq<char> {
    "call remote_get_dir_content_caller failed, err: "@ + cause
}

/// A failed deployment with the message `msg`.
pub open spec fn add_failed(msg: Seq<char>) -> (AddServiceState, AddServiceActionView) {
    (
        AddServiceState::Done,
        AddServiceActionView::Reply { resp: AddServiceRespView::Fail { msg } },
    )
}

/// The step that a deployment of `service` in state `state` takes on
/// `event`: the next state and what to do. `None` where the state does not
/// await that event.
pub open spec fn add_service_next(
    service: ServiceBasicView,
    state: AddServiceState,
    event: AddServiceEventView,
) -> Option<(AddServiceState, AddServiceActionView)> {
    match (state, event) {
        (AddServiceState::Start, AddServiceEventView::Begin) => match parsed_node_id(
            service.node,
        ) {
            None => Some(add_failed(msg_node_id_not_number())),
            Some(node) => Some(
                (AddServiceState::CheckingNode { node }, AddServiceActionView::CheckNode { node }),
            ),
        },
        (
            AddServiceState::CheckingNode { node },
            AddServiceEventView::NodeChecked { exists },
        ) => if exists {
            Some(
                (
                    AddServiceState::VerifyingDir { node },
                    AddServiceActionView::GetDirContent { node, path: service.dir },
                ),
            )
        } else {
            Some(add_failed(msg_node_missing(node)))
        },
        (
            AddServiceState::VerifyingDir { node },
            AddServiceEventView::DirCallFailed { cause },
        ) => Some(add_failed(msg_dir_call_failed(cause))),
        (AddServiceState::VerifyingDir { node }, AddServiceEventView::DirRefused { error }) => Some(
            add_failed(error),
        ),
        (AddServiceState::VerifyingDir { node }, AddServiceEventView::DirConfirmed) => Some(
            (AddServiceState::ReadingNames { node }, AddServiceActionView::ReadNames),
        ),
        (AddServiceState::ReadingNames { node }, AddServiceEventView::NamesRead { names }) => Some(
            (
                AddServiceState::Persisting,
                AddServiceActionView::Persist {
                    names: with_name(names, service.name),
                    name: service.name,
                    record: service_record(service, node),
                },
            ),
        ),
        (AddServiceState::Persisting, AddServiceEventView::Persisted) => Some(
            (
                AddServiceState::Done,
                AddServiceActionView::Reply { resp: AddServiceRespView::Succ },
            ),
        ),
        _ => None,
    }
}

/// Whether `action` contacts the peer transport.
pub open spec fn contacts_transport(action: AddServiceActionView) -> bool {
    action is GetDirContent
}

/// The failed deployment with message `msg`.
fn fail_add(msg: String) -> (res: (AddServiceState, AddServiceAction))
    ensures
        res.deep_view() == add_failed(msg@),
{
    (AddServiceState::Done, AddServiceAction::Reply { resp: AddServiceResp::Fail { msg } })
}

/// Takes one step of the deployment that `req` asks for: from `state` and the
/// `event` that the outside world reports, to the next state and the next
/// thing to do. `None`, and nothing to do, where `state` does not await
/// `event`.
pub fn add_service_step(req: &AddServiceReq, state: AddServiceState, event: AddServiceEvent) -> (res:
    Option<(AddServiceState, AddServiceAction)>)
    ensures
        res.deep_view() == add_service_next(req.service@, state, event@),
{
    match state {
        AddServiceState::Start => match event {
            AddServiceEvent::Begin => match parse_node_id(req.service.node.as_str()) {
                None => Some(fail_add("node id should be number".to_owned())),
                Some(node) => Some(
                    (AddServiceState::CheckingNode { node }, AddServiceAction::CheckNode { node }),
                ),
            },
            _ => None,
        },
        AddServiceState::CheckingNode { node } => match event {
            AddServiceEvent::NodeChecked { exists } => {
                if exists {
                    Some(
                        (
                            AddServiceState::VerifyingDir { node },
                            AddServiceAction::GetDirContent { node, path: req.service.dir.clone() },
                        ),
                    )
                } else {
                    let id = node_text(node);
                    Some(fail_add(concat3("node ", id.as_str(), " not exist")))
                }
            },
            _ => None,
        },
        AddServiceState::VerifyingDir { node } => match event {
            AddServiceEvent::DirCallFailed { cause } => Some(
                fail_add(
                    concat2("call remote_get_dir_content_caller failed, err: ", cause.as_str()),
                ),
            ),
            AddServiceEvent::DirRefused { error } => Some(fail_add(error)),
            AddServiceEvent::DirConfirmed => Some(
                (AddServiceState::ReadingNames { node }, AddServiceAction::ReadNames),
            ),
            _ => None,
        },
        AddServiceState::ReadingNames { node } => match event {
            AddServiceEvent::NamesRead { names } => {
                let record = AppMetaService::new(
                    clone_actions(&req.service.actions),
                    node,
                    req.service.dir.clone(),
                );
                Some(
                    (
                        AddServiceState::Persisting,
                        AddServiceAction::Persist {
                            names: add_name(names, req.service.name.clone()),
                            name: req.service.name.clone(),
                            record,
                        },
                    ),
                )
            },
            _ => None,
        },
        AddServiceState::Persisting => match event {
            AddServiceEvent::Persisted => Some(
                (
                    AddServiceState::Done,
                    AddServiceAction::Reply { resp: AddServiceResp::Succ {  } },
                ),
            ),
            _ => None,
        },
        AddServiceState::Done => None,
    }
}

/// A request whose node text is no number is answered at once with
/// "node id should be number", and that ends it: the answer is the first
/// step, and no later event leads to any action. The transport is never
/// contacted.
pub proof fn lemma_unparsable_node_never_contacts_transport(service: ServiceBasicView)
    requires
        parsed_node_id(service.node) is None,
    ensures
        add_service_next(service, AddServiceState::Start, AddServiceEventView::Begin) == Some(
            add_failed("node id should be number"@),
        ),
        forall|event: AddServiceEventView|
            add_service_next(service, AddServiceState::Done, event) is None,
{
}

/// The transport is contacted in one situation only: the node text was read
/// as the number `node`, and the membership has just confirmed that node.
/// The call then goes to that node, for the directory of the request.
pub proof fn lemma_transport_contacted_after_membership_only(
    service: ServiceBasicView,
    state: AddServiceState,
    event: AddServiceEventView,
)
    requires
        add_service_next(service, state, event) matches Some(step) && contacts_transport(step.1),
    ensures
        state is CheckingNode,
        event == (AddServiceEventView::NodeChecked { exists: true }),
        add_service_next(service, state, event) == Some(
            (
                AddServiceState::VerifyingDir { node: state->CheckingNode_node },
                AddServiceActionView::GetDirContent {
                    node: state->CheckingNode_node,
                    path: service.dir,
                },
            ),
        ),
{
}

/// Every state but `Start` is entered only with the node that the request's
/// node text reads as.
pub proof fn lemma_states_carry_parsed_node(
    service: ServiceBasicView,
    state: AddServiceState,
    event: AddServiceEventView,
    node: NodeID,
)
    requires
        state_node(state) is Some ==> parsed_node_id(service.node) == state_node(state),
        add_service_next(service, state, event) matches Some(step) && state_node(step.0) == Some(
            node,
        ),
    ensures
        parsed_node_id(service.node) == Some(node),
{
}

/// The node that a state carries, if it carries one.
pub open spec fn state_node(state: AddServiceState) -> Option<NodeID> {
    match state {
        AddServiceState::CheckingNode { node } => Some(node),
        AddServiceState::VerifyingDir { node } => Some(node),
        AddServiceState::ReadingNames { node } => Some(node),
        _ => None,
    }
}

/// What a deployment writes is what the listing reads back: the record that
/// is persisted for a request shows, in a listing, the request's name,
/// directory and actions unchanged, and the node in decimal.
pub proof fn lemma_persisted_record_lists_as_requested(
    service: ServiceBasicView,
    node: NodeID,
    names: Seq<Seq<char>>,
)
    ensures
        add_service_next(
            service,
            AddServiceState::ReadingNames { node },
            AddServiceEventView::NamesRead { names },
        ) matches Some((_, AddServiceActionView::Persist { names: written, name, record }))
            && written == with_name(names, service.name) && crate::service::basic_info(name, record)
            == (ServiceBasicView {
            name: service.name,
            node: decimal(node as nat),
            dir: service.dir,
            actions: service.actions,
        }),
{
}

} // verus!
