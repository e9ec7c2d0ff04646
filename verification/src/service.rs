//! Deployed services: what a deployment request carries, what is recorded
//! for a service, and what a listing shows of it.

use crate::text::{decimal, node_text};
use vstd::prelude::*;

verus! {

/// Identifier of a cluster node.
pub type NodeID = u32;

/// A named command that can be invoked on a deployed service.
#[derive(Debug, PartialEq, Eq)]
pub struct Action {
    pub name: String,
    pub cmd: String,
}

/// An action as plain text.
pub struct ActionView {
    pub name: Seq<char>,
    pub cmd: Seq<char>,
}

impl View for Action {
    type V = ActionView;

    open spec fn view(&self) -> ActionView {
        ActionView { name: self.name@, cmd: self.cmd@ }
    }
}

impl DeepView for Action {
    type V = ActionView;

    open spec fn deep_view(&self) -> ActionView {
        self@
    }
}

impl Clone for Action {
    fn clone(&self) -> (res: Self)
        ensures
            res@ == self@,
    {
        Action { name: self.name.clone(), cmd: self.cmd.clone() }
    }
}

/// What a listing shows of a service, and what a deployment request asks
/// for: the service's name, its node as text, its directory and its actions.
#[derive(Debug, PartialEq, Eq)]
pub struct ServiceBasic {
    pub name: String,
    pub node: String,
    pub dir: String,
    pub actions: Vec<Action>,
}

/// A service description as plain text.
pub struct ServiceBasicView {
    pub name: Seq<char>,
    pub node: Seq<char>,
    pub dir: Seq<char>,
    pub actions: Seq<ActionView>,
}

impl View for ServiceBasic {
    type V = ServiceBasicView;

    open spec fn view(&self) -> ServiceBasicView {
        ServiceBasicView {
            name: self.name@,
            node: self.node@,
            dir: self.dir@,
            actions: self.actions.deep_view(),
        }
    }
}

impl DeepView for ServiceBasic {
    type V = ServiceBasicView;

    open spec fn deep_view(&self) -> ServiceBasicView {
        self@
    }
}

/// The record kept for one deployed service.
#[derive(Debug, PartialEq, Eq)]
pub struct AppMetaService {
    actions: Vec<Action>,
    node: NodeID,
    app_dir: String,
}

/// A service record as plain values.
pub struct ServiceRecord {
    pub actions: Seq<ActionView>,
    pub node: NodeID,
    pub app_dir: Seq<char>,
}

impl View for AppMetaService {
    type V = ServiceRecord;

    closed spec fn view(&self) -> ServiceRecord {
        ServiceRecord {
            actions: self.actions.deep_view(),
            node: self.node,
            app_dir: self.app_dir@,
        }
    }
}

impl DeepView for AppMetaService {
    type V = ServiceRecord;

    open spec fn deep_view(&self) -> ServiceRecord {
        self@
    }
}

/// The record that a deployment of `service` on node `node` leaves behind.
pub open spec fn service_record(service: ServiceBasicView, node: NodeID) -> ServiceRecord {
    ServiceRecord { actions: service.actions, node, app_dir: service.dir }
}

/// What a listing shows of the service `name` with record `record`.
pub open spec fn basic_info(name: Seq<char>, record: ServiceRecord) -> ServiceBasicView {
    ServiceBasicView {
        name,
        node: decimal(record.node as nat),
        dir: record.app_dir,
        actions: record.actions,
    }
}

/// A copy of a list of actions.
pub fn clone_actions(actions: &Vec<Action>) -> (res: Vec<Action>)
    ensures
        res.deep_view() == actions.deep_view(),
{
    let mut out: Vec<Action> = Vec::new();
    let mut i: usize = 0;
    while i < actions.len()
        invariant
            i <= actions.len(),
            out.len() == i,
            forall|j: int| 0 <= j < i ==> out[j]@ == actions[j]@,
        decreases actions.len() - i,
    {
        out.push(actions[i].clone());
        i += 1;
    }
    assert(out.deep_view() =~= actions.deep_view());
    out
}

impl AppMetaService {
    /// A record of the given actions, owning node and working directory.
    pub fn new(actions: Vec<Action>, node: NodeID, app_dir: String) -> (res: Self)
        ensures
            res@ == (ServiceRecord { actions: actions.deep_view(), node, app_dir: app_dir@ }),
    {
        AppMetaService { actions, node, app_dir }
    }

    /// The actions that the service declares, in their order.
    pub fn actions(&self) -> (res: &Vec<Action>)
        ensures
            res.deep_view() == self@.actions,
    {
        &self.actions
    }

    /// The node that owns the service.
    pub fn node(&self) -> (res: NodeID)
        ensures
            res == self@.node,
    {
        self.node
    }

    /// The service's working directory on its node.
    pub fn app_dir(&self) -> (res: &String)
        ensures
            res@ == self@.app_dir,
    {
        &self.app_dir
    }
}

/// What a listing shows of one service: its name, its node in decimal, its
/// directory and its actions.
pub fn service_basic(name: &String, service: &AppMetaService) -> (res: ServiceBasic)
    ensures
        res@ == basic_info(name@, service@),
{
    ServiceBasic {
        name: name.clone(),
        node: node_text(service.node),
        dir: service.app_dir.clone(),
        actions: clone_actions(&service.actions),
    }
}

/// The listing of all services: one entry for each name with its record, in
/// the order of the names.
pub fn get_app_meta_basicinfo_list(entries: &Vec<(String, AppMetaService)>) -> (res: Vec<
    ServiceBasic,
>)
    ensures
        res.len() == entries.len(),
        forall|i: int|
            0 <= i < entries.len() ==> (#[trigger] res[i])@ == basic_info(
                entries[i].0@,
                entries[i].1@,
            ),
{
    let mut out: Vec<ServiceBasic> = Vec::new();
    let mut i: usize = 0;
    while i < entries.len()
        invariant
            i <= entries.len(),
            out.len() == i,
            forall|j: int|
                0 <= j < i ==> (#[trigger] out[j])@ == basic_info(entries[j].0@, entries[j].1@),
        decreases entries.len() - i,
    {
        out.push(service_basic(&entries[i].0, &entries[i].1));
        i += 1;
    }
    out
}

/// A deployment leaves a record from which the listing shows the directory
/// and the actions that were asked for, letter for letter, and a node text
/// that reads as the node that was asked for.
pub proof fn lemma_listing_reproduces_deployment(service: ServiceBasicView, node: NodeID)
    requires
        crate::text::parsed_node_id(service.node) == Some(node),
    ensures
        basic_info(service.name, service_record(service, node)).name == service.name,
        basic_info(service.name, service_record(service, node)).dir == service.dir,
        basic_info(service.name, service_record(service, node)).actions == service.actions,
        crate::text::parsed_node_id(basic_info(service.name, service_record(service, node)).node)
            == crate::text::parsed_node_id(service.node),
{
    crate::text::lemma_parse_decimal(node);
}

} // verus!
