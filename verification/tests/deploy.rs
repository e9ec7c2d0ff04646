use appmeta::{
    add_service_step, get_app_meta_basicinfo_list, Action, AddServiceAction, AddServiceEvent,
    AddServiceReq, AddServiceResp, AddServiceState, AppMetaService, ServiceBasic,
};

fn request(node: &str) -> AddServiceReq {
    AddServiceReq {
        service: ServiceBasic {
            name: "svc".to_string(),
            node: node.to_string(),
            dir: "/srv/svc".to_string(),
            actions: vec![
                Action { name: "start".to_string(), cmd: "./start.sh".to_string() },
                Action { name: "stop".to_string(), cmd: "./stop.sh".to_string() },
            ],
        },
    }
}

fn fail(msg: &str) -> Option<(AddServiceState, AddServiceAction)> {
    Some((
        AddServiceState::Done,
        AddServiceAction::Reply { resp: AddServiceResp::Fail { msg: msg.to_string() } },
    ))
}

#[test]
fn unparsable_node_id_fails_at_once() {
    for node in ["abc", "", "-1", "1 ", " 1", "1_0", "4294967296", "+", "0x10", "1.5"] {
        let step = add_service_step(&request(node), AddServiceState::Start, AddServiceEvent::Begin);
        assert_eq!(step, fail("node id should be number"));
    }
}

#[test]
fn parsable_node_id_asks_the_membership() {
    for (text, node) in [("3", 3u32), ("+3", 3), ("003", 3), ("0", 0), ("4294967295", u32::MAX)] {
        let step = add_service_step(&request(text), AddServiceState::Start, AddServiceEvent::Begin);
        assert_eq!(
            step,
            Some((AddServiceState::CheckingNode { node }, AddServiceAction::CheckNode { node }))
        );
    }
}

#[test]
fn unknown_node_fails_with_its_number() {
    let step = add_service_step(
        &request("007"),
        AddServiceState::CheckingNode { node: 7 },
        AddServiceEvent::NodeChecked { exists: false },
    );
    assert_eq!(step, fail("node 7 not exist"));
    let big = add_service_step(
        &request("4294967295"),
        AddServiceState::CheckingNode { node: u32::MAX },
        AddServiceEvent::NodeChecked { exists: false },
    );
    assert_eq!(big, fail("node 4294967295 not exist"));
}

#[test]
fn known_node_is_asked_for_the_directory() {
    let step = add_service_step(
        &request("7"),
        AddServiceState::CheckingNode { node: 7 },
        AddServiceEvent::NodeChecked { exists: true },
    );
    assert_eq!(
        step,
        Some((
            AddServiceState::VerifyingDir { node: 7 },
            AddServiceAction::GetDirContent { node: 7, path: "/srv/svc".to_string() },
        ))
    );
}

#[test]
fn failed_directory_call_is_reported_with_its_cause() {
    let step = add_service_step(
        &request("7"),
        AddServiceState::VerifyingDir { node: 7 },
        AddServiceEvent::DirCallFailed { cause: "Timeout".to_string() },
    );
    assert_eq!(step, fail("call remote_get_dir_content_caller failed, err: Timeout"));
}

#[test]
fn refused_directory_is_reported_as_the_node_said() {
    let step = add_service_step(
        &request("7"),
        AddServiceState::VerifyingDir { node: 7 },
        AddServiceEvent::DirRefused { error: "no such directory".to_string() },
    );
    assert_eq!(step, fail("no such directory"));
}

#[test]
fn confirmed_directory_leads_to_the_name_list() {
    let step = add_service_step(
        &request("7"),
        AddServiceState::VerifyingDir { node: 7 },
        AddServiceEvent::DirConfirmed,
    );
    assert_eq!(step, Some((AddServiceState::ReadingNames { node: 7 }, AddServiceAction::ReadNames)));
}

#[test]
fn name_is_appended_and_record_is_written() {
    let req = request("7");
    let step = add_service_step(
        &req,
        AddServiceState::ReadingNames { node: 7 },
        AddServiceEvent::NamesRead { names: vec!["a".to_string(), "b".to_string()] },
    );
    let expected_record = AppMetaService::new(
        vec![
            Action { name: "start".to_string(), cmd: "./start.sh".to_string() },
            Action { name: "stop".to_string(), cmd: "./stop.sh".to_string() },
        ],
        7,
        "/srv/svc".to_string(),
    );
    assert_eq!(
        step,
        Some((
            AddServiceState::Persisting,
            AddServiceAction::Persist {
                names: vec!["a".to_string(), "b".to_string(), "svc".to_string()],
                name: "svc".to_string(),
                record: expected_record,
            },
        ))
    );
}

#[test]
fn known_name_is_not_appended_again() {
    let step = add_service_step(
        &request("7"),
        AddServiceState::ReadingNames { node: 7 },
        AddServiceEvent::NamesRead {
            names: vec!["svc".to_string(), "b".to_string(), "svc".to_string(), "b".to_string()],
        },
    );
    match step {
        Some((AddServiceState::Persisting, AddServiceAction::Persist { names, .. })) => {
            assert_eq!(names, vec!["svc".to_string(), "b".to_string()]);
        }
        other => panic!("unexpected step: {:?}", other),
    }
}

#[test]
fn persisted_deployment_succeeds() {
    let step =
        add_service_step(&request("7"), AddServiceState::Persisting, AddServiceEvent::Persisted);
    assert_eq!(
        step,
        Some((AddServiceState::Done, AddServiceAction::Reply { resp: AddServiceResp::Succ {} }))
    );
}

#[test]
fn events_that_are_not_awaited_lead_nowhere() {
    let req = request("7");
    assert_eq!(add_service_step(&req, AddServiceState::Done, AddServiceEvent::Begin), None);
    assert_eq!(add_service_step(&req, AddServiceState::Done, AddServiceEvent::Persisted), None);
    assert_eq!(add_service_step(&req, AddServiceState::Start, AddServiceEvent::DirConfirmed), None);
    assert_eq!(
        add_service_step(
            &req,
            AddServiceState::CheckingNode { node: 7 },
            AddServiceEvent::DirConfirmed
        ),
        None
    );
    assert_eq!(
        add_service_step(&req, AddServiceState::VerifyingDir { node: 7 }, AddServiceEvent::Begin),
        None
    );
    assert_eq!(
        add_service_step(
            &req,
            AddServiceState::ReadingNames { node: 7 },
            AddServiceEvent::Persisted
        ),
        None
    );
    assert_eq!(
        add_service_step(
            &req,
            AddServiceState::Persisting,
            AddServiceEvent::NodeChecked { exists: true }
        ),
        None
    );
}

#[test]
fn whole_deployment_from_request_to_answer() {
    let req = request("12");
    let mut state = AddServiceState::Start;
    let mut event = AddServiceEvent::Begin;
    let mut asked = Vec::new();
    let mut written: Option<(Vec<String>, String, AppMetaService)> = None;
    let answer = loop {
        let (next, action) = add_service_step(&req, state, event).unwrap();
        state = next;
        event = match action {
            AddServiceAction::CheckNode { node } => {
                asked.push(format!("check {}", node));
                AddServiceEvent::NodeChecked { exists: true }
            }
            AddServiceAction::GetDirContent { node, path } => {
                asked.push(format!("dir {} {}", node, path));
                AddServiceEvent::DirConfirmed
            }
            AddServiceAction::ReadNames => {
                asked.push("read".to_string());
                AddServiceEvent::NamesRead { names: vec!["old".to_string()] }
            }
            AddServiceAction::Persist { names, name, record } => {
                asked.push("persist".to_string());
                written = Some((names, name, record));
                AddServiceEvent::Persisted
            }
            AddServiceAction::Reply { resp } => break resp,
        };
    };
    assert_eq!(answer, AddServiceResp::Succ {});
    assert_eq!(state, AddServiceState::Done);
    assert_eq!(asked, vec!["check 12", "dir 12 /srv/svc", "read", "persist"]);
    let (names, name, record) = written.unwrap();
    assert_eq!(names, vec!["old".to_string(), "svc".to_string()]);
    assert_eq!(name, "svc");
    assert_eq!(record.node(), 12);
    assert_eq!(record.app_dir(), "/srv/svc");
    assert_eq!(record.actions(), &req.service.actions);
}

#[test]
fn written_record_is_listed_as_it_was_requested() {
    let req = request("+0012");
    let step = add_service_step(
        &req,
        AddServiceState::ReadingNames { node: 12 },
        AddServiceEvent::NamesRead { names: vec![] },
    );
    let (names, name, record) = match step {
        Some((_, AddServiceAction::Persist { names, name, record })) => (names, name, record),
        other => panic!("unexpected step: {:?}", other),
    };
    assert_eq!(names, vec!["svc".to_string()]);
    let listed = get_app_meta_basicinfo_list(&vec![(name, record)]);
    assert_eq!(listed.len(), 1);
    assert_eq!(listed[0].name, req.service.name);
    assert_eq!(listed[0].dir, req.service.dir);
    assert_eq!(listed[0].actions, req.service.actions);
    assert_eq!(listed[0].node, "12");
    assert_eq!(listed[0].node.parse::<u32>(), req.service.node.parse::<u32>());
}
