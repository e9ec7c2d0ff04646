//! Event routing by key pattern and orchestration of deployed services.
//!
//! The first half answers which functions a write to a key sets off: key
//! patterns, the metadata of functions, the table of an application and the
//! registry with its trigger index. The second half decides how a service is
//! deployed on a node of the cluster and how one of its actions is invoked
//! there; the calls to the node and to the store are the caller's.

pub mod deploy;
pub mod invoke;
pub mod meta;
pub mod names;
pub mod pattern;
pub mod registry;
pub mod service;
pub mod table;
pub mod text;

pub use crate::deploy::{
    add_service_step, AddServiceAction, AddServiceEvent, AddServiceReq, AddServiceResp,
    AddServiceState,
};
pub use crate::invoke::{
    run_service_action_step, RunActionAction, RunActionEvent, RunActionState,
    RunServiceActionReq, RunServiceActionResp, RUN_CMD_TIMEOUT_SECS,
};
pub use crate::meta::{
    DescriptorError, FnArg, FnArgYaml, FnEvent, FnEventYaml, FnMeta, FnMetaYaml, KvMeta, KvOps,
};
pub use crate::names::{add_name, decode_name_list, dedup_names, encode_name_list};
pub use crate::pattern::KeyPattern;
pub use crate::registry::AppMetas;
pub use crate::service::{
    get_app_meta_basicinfo_list, service_basic, Action, AppMetaService, NodeID, ServiceBasic,
};
pub use crate::table::{AppDescriptorError, AppMetaFunction, AppMetaYaml};
