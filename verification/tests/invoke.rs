use appmeta::{
    run_service_action_step, Action, AppMetaService, RunActionAction, RunActionEvent,
    RunActionState, RunServiceActionReq, RunServiceActionResp, RUN_CMD_TIMEOUT_SECS,
};

fn request(action_cmd: &str, sync: bool) -> RunServiceActionReq {
    RunServiceActionReq { service: "svc".to_string(), action_cmd: action_cmd.to_string(), sync }
}

fn record() -> AppMetaService {
    AppMetaService::new(
        vec![
            Action { name: "start".to_string(), cmd: "./start.sh".to_string() },
            Action { name: "stop".to_string(), cmd: "./stop.sh".to_string() },
            Action { name: "again".to_string(), cmd: "./start.sh".to_string() },
        ],
        5,
        "/srv/svc".to_string(),
    )
}

fn fail(msg: &str) -> Option<(RunActionState, RunActionAction)> {
    Some((
        RunActionState::Done,
        RunActionAction::Reply { resp: RunServiceActionResp::Fail { msg: msg.to_string() } },
    ))
}

#[test]
fn asynchronous_request_is_rejected_at_once() {
    let step = run_service_action_step(
        &request("./start.sh", false),
        RunActionState::Start,
        RunActionEvent::Begin,
    );
    assert_eq!(step, fail("unsupported async mode"));
    let unknown =
        run_service_action_step(&request("nope", false), RunActionState::Start, RunActionEvent::Begin);
    assert_eq!(unknown, fail("unsupported async mode"));
}

#[test]
fn synchronous_request_reads_the_record() {
    let step = run_service_action_step(
        &request("./start.sh", true),
        RunActionState::Start,
        RunActionEvent::Begin,
    );
    assert_eq!(
        step,
        Some((RunActionState::LookingUp, RunActionAction::ReadService { name: "svc".to_string() }))
    );
}

#[test]
fn missing_service_is_reported_by_name() {
    let step = run_service_action_step(
        &request("./start.sh", true),
        RunActionState::LookingUp,
        RunActionEvent::ServiceRead { record: None },
    );
    assert_eq!(step, fail("service svc not exist"));
}

#[test]
fn missing_action_is_reported_by_command() {
    let step = run_service_action_step(
        &request("./restart.sh", true),
        RunActionState::LookingUp,
        RunActionEvent::ServiceRead { record: Some(record()) },
    );
    assert_eq!(step, fail("action ./restart.sh not exist"));
    let by_name = run_service_action_step(
        &request("start", true),
        RunActionState::LookingUp,
        RunActionEvent::ServiceRead { record: Some(record()) },
    );
    assert_eq!(by_name, fail("action start not exist"));
}

#[test]
fn known_action_runs_on_the_owning_node_with_ten_seconds() {
    let step = run_service_action_step(
        &request("./stop.sh", true),
        RunActionState::LookingUp,
        RunActionEvent::ServiceRead { record: Some(record()) },
    );
    assert_eq!(
        step,
        Some((
            RunActionState::Calling,
            RunActionAction::RunCmd {
                node: 5,
                cmd: "./stop.sh".to_string(),
                workdir: "/srv/svc".to_string(),
                timeout_secs: 10,
            },
        ))
    );
    assert_eq!(RUN_CMD_TIMEOUT_SECS, 10);
}

#[test]
fn transport_failure_and_command_failure_differ() {
    let req = request("./stop.sh", true);
    let transport = run_service_action_step(
        &req,
        RunActionState::Calling,
        RunActionEvent::CallFailed { cause: "Timeout".to_string() },
    );
    assert_eq!(transport, fail("call remote_run_cmd_caller failed, err: Timeout"));
    let command = run_service_action_step(
        &req,
        RunActionState::Calling,
        RunActionEvent::CmdFailed { error: "Timeout".to_string() },
    );
    assert_eq!(command, fail("remote run cmd failed: Timeout"));
    assert_ne!(transport, command);
}

#[test]
fn finished_command_gives_its_output() {
    let step = run_service_action_step(
        &request("./stop.sh", true),
        RunActionState::Calling,
        RunActionEvent::CmdDone { output: "stopped\n".to_string() },
    );
    assert_eq!(
        step,
        Some((
            RunActionState::Done,
            RunActionAction::Reply { resp: RunServiceActionResp::Succ { output: "stopped\n".to_string() } },
        ))
    );
}

#[test]
fn invocation_events_that_are_not_awaited_lead_nowhere() {
    let req = request("./stop.sh", true);
    assert_eq!(run_service_action_step(&req, RunActionState::Done, RunActionEvent::Begin), None);
    assert_eq!(
        run_service_action_step(
            &req,
            RunActionState::Start,
            RunActionEvent::CmdDone { output: String::new() }
        ),
        None
    );
    assert_eq!(run_service_action_step(&req, RunActionState::LookingUp, RunActionEvent::Begin), None);
    assert_eq!(
        run_service_action_step(
            &req,
            RunActionState::Calling,
            RunActionEvent::ServiceRead { record: None }
        ),
        None
    );
    let rejected = request("./stop.sh", false);
    assert_eq!(
        run_service_action_step(
            &rejected,
            RunActionState::Done,
            RunActionEvent::ServiceRead { record: Some(record()) }
        ),
        None
    );
}
