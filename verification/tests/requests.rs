use ranger::conditions::{condition_jobs, condition_message, reading_ids, ConditionAggregator, ConditionError, StreamError};
use ranger::model::{Account, DeployerTypes, DeploymentElement, ElementStatus, NodeType, Source};
use ranger::names::NamedMap;
use ranger::requests::{
    create_condition_request, credentials_of, feature_target, feature_username, inject_target, role_username,
    DeployableInject, DeployableNodeFeatures, RequestError,
};
use ranger::scenario::{Condition, Feature, FeatureType, Inject, Node, Role, Scenario};

fn s(v: &str) -> String {
    v.to_string()
}

const VM_ID: &str = "a1a2a3a4-b1b2-c1c2-d1d2-d3d4d5d6d7d8";

fn account() -> Account {
    Account { username: s("admin"), password: Some(s("secret")), private_key: None }
}

fn roles() -> NamedMap<Role> {
    let mut roles = NamedMap::new();
    roles.insert(s("admin-role"), Role { username: s("admin"), entities: None });
    roles
}

fn vm_node() -> Node {
    let mut conditions = NamedMap::new();
    conditions.insert(s("Ping-Check"), s("admin-role"));
    conditions.insert(s("disk"), s("admin-role"));
    let mut features = NamedMap::new();
    features.insert(s("web"), s("admin-role"));
    features.insert(s("db"), s("missing-role"));
    Node {
        type_field: NodeType::VM,
        source: None,
        resources: None,
        vulnerabilities: None,
        conditions: Some(conditions),
        features: Some(features),
        roles: Some(roles()),
    }
}

fn element(handler: Option<&str>) -> DeploymentElement {
    DeploymentElement {
        id: 1,
        deployment_id: 9,
        scenario_reference: s("server"),
        handler_reference: handler.map(s),
        deployer_type: DeployerTypes::VirtualMachine,
        status: ElementStatus::Success,
        executor_log: None,
        event_id: None,
        parent_node_id: None,
    }
}

fn scenario() -> Scenario {
    let mut features = NamedMap::new();
    features.insert(
        s("web"),
        Feature {
            feature_type: FeatureType::Service,
            source: Some(Source { name: s("nginx"), version: s("1") }),
            dependencies: None,
            vulnerabilities: None,
        },
    );
    features.insert(
        s("db"),
        Feature { feature_type: FeatureType::Artifact, source: None, dependencies: None, vulnerabilities: None },
    );
    Scenario {
        name: s("s"),
        description: None,
        nodes: None,
        features: Some(features),
        infrastructure: None,
        conditions: None,
        vulnerabilities: None,
        metrics: None,
        evaluations: None,
        tlos: None,
        entities: None,
        goals: None,
        injects: None,
        events: None,
        scripts: None,
        stories: None,
        capabilities: None,
    }
}

#[test]
fn credentials_fill_in_missing_secrets_with_empty_text() {
    let c = credentials_of(account());
    assert_eq!((c.username.as_str(), c.password.as_str(), c.private_key.as_str()), ("admin", "secret", ""));
    assert_eq!(role_username(&roles(), &s("admin-role")), Ok(s("admin")));
    assert_eq!(role_username(&roles(), &s("nobody")), Err(RequestError::RoleNotFound));
}

#[test]
fn condition_requests_read_the_interval_as_signed() {
    let condition = Condition { command: Some(s("ping")), interval: Some(30), source: None };
    let r = create_condition_request(&s(VM_ID), &condition, &s("ping-check"), account());
    assert_eq!((r.name.as_str(), r.command.as_str(), r.interval), ("ping-check", "ping", 30));
    assert_eq!(r.account.password, "secret");
    let large = Condition { command: None, interval: Some(3_000_000_000), source: None };
    let r = create_condition_request(&s(VM_ID), &large, &s("c"), account());
    assert_eq!(r.interval, 3_000_000_000u32 as i32);
    assert_eq!(r.command, "");
    let none = Condition { command: None, interval: None, source: None };
    assert_eq!(create_condition_request(&s(VM_ID), &none, &s("c"), account()).interval, 0);
}

#[test]
fn conditions_pair_up_ignoring_ascii_case() {
    let _aggregator = ConditionAggregator::new();
    let mut scenario_conditions = NamedMap::new();
    scenario_conditions.insert(s("ping-check"), Condition { command: None, interval: None, source: None });
    scenario_conditions.insert(s("cpu"), Condition { command: None, interval: None, source: None });
    let jobs = condition_jobs(&Some(scenario_conditions), &vm_node(), &Some(s(VM_ID))).unwrap();
    assert_eq!(jobs.len(), 1);
    assert_eq!(jobs[0].condition_name, "ping-check");
    assert_eq!(jobs[0].node_condition_name, "Ping-Check");
    assert_eq!(jobs[0].node_role_name, "admin-role");
    assert!(matches!(condition_jobs(&None, &vm_node(), &None), Err(ConditionError::ScenarioConditionsNotFound)));
    assert_eq!(condition_jobs(&Some(NamedMap::new()), &vm_node(), &None).unwrap().len(), 0);
    let mut one = NamedMap::new();
    one.insert(s("cpu"), Condition { command: None, interval: None, source: None });
    assert!(matches!(
        condition_jobs(&Some(one), &vm_node(), &None),
        Err(ConditionError::HandlerReferenceNotFound)
    ));
}

#[test]
fn readings_are_stored_under_the_condition_and_machine() {
    let (condition_id, vm_id) = reading_ids(&Some(s(VM_ID)), &s(VM_ID)).unwrap();
    assert_eq!(condition_id, vm_id);
    assert_eq!(reading_ids(&None, &s(VM_ID)), Err(StreamError::ConditionIdNotFound));
    assert_eq!(reading_ids(&Some(s("x")), &s(VM_ID)), Err(StreamError::ConditionIdUnreadable));
    assert_eq!(reading_ids(&Some(s(VM_ID)), &s("x")), Err(StreamError::VirtualMachineIdUnreadable));
    let message = condition_message(4, &element(None), 5, 6, 1.5f64);
    assert_eq!((message.0.exercise_id, message.0.deployment_id, message.0.value), (4, 9, 1.5));
    assert_eq!(message.0.condition_name, "server");
}

#[test]
fn features_need_a_machine_a_package_and_a_role() {
    let web = &scenario().features.unwrap();
    let feature = web.get(&s("web")).unwrap();
    let (vm, source) = feature_target(&Some(s(VM_ID)), feature).unwrap();
    assert_eq!((vm.as_str(), source.name.as_str()), (VM_ID, "nginx"));
    assert_eq!(feature_target(&None, feature).unwrap_err(), RequestError::HandlerReferenceNotFound);
    assert_eq!(feature_username(&vm_node(), &s("web")), Some(Ok(s("admin"))));
    assert_eq!(feature_username(&vm_node(), &s("db")), Some(Err(RequestError::RoleNotFound)));
    assert_eq!(feature_username(&vm_node(), &s("other")), None);
}

#[test]
fn feature_jobs_follow_the_tranche_and_stop_at_the_first_failure() {
    let work = (vec![s("deployer")], scenario(), vm_node(), element(Some(VM_ID)), 1u128, 2u128);
    let jobs = work.feature_jobs(&vec![s("web"), s("unrelated")]).unwrap();
    assert_eq!(jobs.len(), 1);
    assert_eq!((jobs[0].name.as_str(), jobs[0].username.as_str()), ("web", "admin"));
    assert_eq!(jobs[0].feature_type, FeatureType::Service);
    assert_eq!(work.feature_jobs(&vec![s("web"), s("db")]).unwrap_err(), RequestError::SourceNotFound);
    let no_machine = (vec![], scenario(), vm_node(), element(None), 1u128, 2u128);
    assert_eq!(no_machine.feature_jobs(&vec![s("web")]).unwrap_err(), RequestError::HandlerReferenceNotFound);
}

fn inject(source: bool) -> Inject {
    Inject {
        source: if source { Some(Source { name: s("phish"), version: s("2") }) } else { None },
        tlos: None,
        capabilities: None,
        to_entities: Some(vec![s("blue-team")]),
    }
}

#[test]
fn injects_run_on_the_machine_of_their_element() {
    let (vm, vm_id, source) = inject_target(&Some(s(VM_ID)), &inject(true)).unwrap();
    assert_eq!((vm.as_str(), vm_id, source.version.as_str()), (VM_ID, 0xa1a2a3a4b1b2c1c2d1d2d3d4d5d6d7d8, "2"));
    assert_eq!(inject_target(&Some(s("x")), &inject(true)).unwrap_err(), RequestError::VirtualMachineIdUnreadable);
    assert_eq!(inject_target(&Some(s(VM_ID)), &inject(false)).unwrap_err(), RequestError::SourceNotFound);
    let work = (vec![], element(Some(VM_ID)), 1u128, s("trainee"), 2u128, (s("phishing-mail"), inject(true)));
    let (new_element, request) = work.prepare_inject(account()).unwrap();
    assert_eq!(new_element.deployer_type, DeployerTypes::Inject);
    assert_eq!(new_element.parent_node_id, Some(0xa1a2a3a4b1b2c1c2d1d2d3d4d5d6d7d8));
    assert_eq!(new_element.scenario_reference, "phishing-mail");
    assert_eq!(request.account.username, "trainee");
    assert_eq!(request.account.password, "secret");
    assert_eq!(request.to_entities, vec![s("blue-team")]);
}
