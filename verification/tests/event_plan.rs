use ranger::event_plan::{
    create_event_request, event_id_for, event_pollers_enabled, event_work, plan_node_conditions,
    plan_condition_event, recorded_condition, ConditionPlan, ConditionProperties, ConditionStep, EventPlanError,
};
use ranger::events::Timestamp;
use ranger::model::{DeployerTypes, DeploymentElement, ElementStatus, NodeType};
use ranger::names::NamedMap;
use ranger::scenario::{Condition, Event, Node, Role, Scenario, Script};

fn s(v: &str) -> String {
    v.to_string()
}

const VM_ID: &str = "a1a2a3a4-b1b2-c1c2-d1d2-d3d4d5d6d7d8";

fn condition() -> Condition {
    Condition { command: None, interval: None, source: None }
}

fn event(conditions: &[&str]) -> Event {
    Event {
        description: Some(s("an event")),
        source: None,
        conditions: Some(conditions.iter().map(|c| s(c)).collect()),
        injects: vec![],
    }
}

fn scenario() -> Scenario {
    let mut conditions = NamedMap::new();
    conditions.insert(s("c1"), condition());
    conditions.insert(s("c2"), condition());
    conditions.insert(s("c3"), condition());
    let mut events = NamedMap::new();
    events.insert(s("unscripted"), event(&["c1"]));
    events.insert(s("e1"), event(&["c1", "c2"]));
    let mut scripts = NamedMap::new();
    scripts.insert(s("script"), Script { events: vec![s("e1")] });
    Scenario {
        name: s("s"),
        description: None,
        nodes: None,
        features: None,
        infrastructure: None,
        conditions: Some(conditions),
        vulnerabilities: None,
        metrics: None,
        evaluations: None,
        tlos: None,
        entities: None,
        goals: None,
        injects: None,
        events: Some(events),
        scripts: Some(scripts),
        stories: None,
        capabilities: None,
    }
}

fn node(t: NodeType, role_of_c2: &str) -> Node {
    let mut conditions = NamedMap::new();
    conditions.insert(s("c1"), s("admin"));
    conditions.insert(s("c2"), s(role_of_c2));
    conditions.insert(s("c3"), s("admin"));
    let mut roles = NamedMap::new();
    roles.insert(s("admin"), Role { username: s("root"), entities: None });
    Node {
        type_field: t,
        source: None,
        resources: None,
        vulnerabilities: None,
        conditions: Some(conditions),
        features: None,
        roles: Some(roles),
    }
}

#[test]
fn conditions_are_bound_to_their_scripted_events() {
    let plans = plan_node_conditions(&scenario(), &node(NodeType::VM, "admin"), &Some(s(VM_ID))).unwrap();
    let names: Vec<&str> = plans.iter().map(|p| p.name.as_str()).collect();
    assert_eq!(names, vec!["c1", "c2", "c3"]);
    assert_eq!(plans[0].event.as_deref(), Some("e1"));
    assert_eq!(plans[1].event.as_deref(), Some("e1"));
    assert_eq!(plans[2].event, None);
    assert!(plans.iter().all(|p| p.role_name == "admin"));
}

#[test]
fn event_planning_is_refused_when_something_is_missing() {
    let r = plan_node_conditions(&scenario(), &node(NodeType::Switch, "admin"), &Some(s(VM_ID)));
    assert!(matches!(r, Err(EventPlanError::NotVirtualMachine)));
    let r = plan_node_conditions(&scenario(), &node(NodeType::VM, "ghost"), &Some(s(VM_ID)));
    assert!(matches!(r, Err(EventPlanError::RoleNotFound)));
    let r = plan_node_conditions(&scenario(), &node(NodeType::VM, "admin"), &None);
    assert!(matches!(r, Err(EventPlanError::HandlerReferenceNotFound)));
    let mut no_roles = node(NodeType::VM, "admin");
    no_roles.roles = None;
    assert!(matches!(plan_node_conditions(&scenario(), &no_roles, &None), Err(EventPlanError::RolesNotFound)));
}

fn props(name: &str, event: Option<(&str, Option<u128>)>, injects: Option<Vec<(String, String)>>) -> ConditionProperties {
    ConditionProperties {
        name: s(name),
        role_name: s("admin"),
        event_id: event.and_then(|(_, id)| id),
        event_name: event.map(|(n, _)| s(n)),
        injects,
    }
}

#[test]
fn conditions_of_one_event_share_its_identifier() {
    let recorded = vec![props("c1", Some(("e1", Some(77))), None)];
    assert_eq!(event_id_for(&recorded, &s("e1")), Ok(77));
    let fresh_one = event_id_for(&recorded, &s("e2")).unwrap();
    let fresh_two = event_id_for(&recorded, &s("e2")).unwrap();
    assert_ne!(fresh_one, fresh_two);
    let broken = vec![props("c1", Some(("e1", None)), None)];
    assert_eq!(event_id_for(&broken, &s("e1")), Err(EventPlanError::EventIdNotFound));
}

#[test]
fn pollers_watch_the_conditions_of_events_with_injects() {
    let injects = vec![(s("phish"), s("trainee"))];
    let properties = vec![
        props("c1", Some(("e1", Some(1))), None),
        props("c2", Some(("e1", Some(1))), Some(injects.clone())),
        props("c3", Some(("e2", Some(2))), None),
        props("c4", None, None),
    ];
    let work = event_work(&properties);
    assert_eq!(work.len(), 1);
    let (conditions, event_injects) = work.get(1).unwrap();
    assert_eq!(conditions, &vec![(s("c1"), s("admin")), (s("c2"), s("admin"))]);
    assert_eq!(event_injects, &injects);
    assert!(work.get(2).is_none());
    assert!(event_pollers_enabled(&scenario()));
    let mut unscripted = scenario();
    unscripted.scripts = None;
    assert!(!event_pollers_enabled(&unscripted));
}

#[test]
fn events_are_recorded_on_the_machine_of_the_node() {
    let machine = DeploymentElement {
        id: 1,
        deployment_id: 9,
        scenario_reference: s("server"),
        handler_reference: Some(s(VM_ID)),
        deployer_type: DeployerTypes::VirtualMachine,
        status: ElementStatus::Success,
        executor_log: None,
        event_id: None,
        parent_node_id: None,
    };
    let start = Timestamp { seconds: 10, nanoseconds: 0 };
    let end = Timestamp { seconds: 20, nanoseconds: 0 };
    let record = create_event_request(5, &s("e1"), &event(&["c1"]), &machine, start, end).unwrap();
    assert_eq!(record.parent_node_id, 0xa1a2a3a4b1b2c1c2d1d2d3d4d5d6d7d8);
    assert_eq!((record.event_id, record.deployment_id), (5, 9));
    assert_eq!(record.description.as_deref(), Some("an event"));
    assert!(record.use_shared_connection);
}

fn machine() -> DeploymentElement {
    DeploymentElement {
        id: 1,
        deployment_id: 9,
        scenario_reference: s("server"),
        handler_reference: Some(s(VM_ID)),
        deployer_type: DeployerTypes::VirtualMachine,
        status: ElementStatus::Success,
        executor_log: None,
        event_id: None,
        parent_node_id: None,
    }
}

fn plan(name: &str, role: &str, event: Option<&str>) -> ConditionPlan {
    ConditionPlan { name: s(name), role_name: s(role), event: event.map(s) }
}

fn admin_roles() -> NamedMap<Role> {
    let mut roles = NamedMap::new();
    roles.insert(s("admin"), Role { username: s("root"), entities: None });
    roles
}

#[test]
fn a_condition_of_an_event_waits_for_the_stored_event() {
    let mut scenario = scenario();
    let mut events = NamedMap::new();
    let mut e1 = event(&["c1"]);
    e1.injects = vec![s("phish"), s("wipe")];
    events.insert(s("e1"), e1);
    scenario.events = Some(events);
    let start = Timestamp { seconds: 10, nanoseconds: 0 };
    let end = Timestamp { seconds: 20, nanoseconds: 0 };
    let recorded = vec![props("c0", Some(("e1", Some(77))), None)];
    let step = plan_condition_event(&scenario, &admin_roles(), &plan("c1", "admin", Some("e1")), &recorded, &machine(), start, end)
        .unwrap();
    let (request, pending) = match step {
        ConditionStep::Scheduled(request, pending) => (request, pending),
        ConditionStep::Unscheduled(_) => panic!("the condition belongs to an event"),
    };
    assert_eq!((request.event_id, request.deployment_id), (77, 9));
    assert_eq!(request.event_name, "e1");
    assert_eq!((request.start, request.end), (start, end));
    assert_eq!(pending.injects, vec![(s("phish"), s("root")), (s("wipe"), s("root"))]);
    let done = recorded_condition(pending, 88);
    assert_eq!((done.name.as_str(), done.event_id, done.event_name.as_deref()), ("c1", Some(88), Some("e1")));
    assert_eq!(done.injects.unwrap().len(), 2);
}

#[test]
fn a_condition_without_an_event_is_recorded_at_once() {
    let start = Timestamp { seconds: 0, nanoseconds: 0 };
    let step = plan_condition_event(&scenario(), &admin_roles(), &plan("c3", "admin", None), &vec![], &machine(), start, start)
        .unwrap();
    match step {
        ConditionStep::Unscheduled(p) => {
            assert_eq!(p.name, "c3");
            assert!(p.event_id.is_none() && p.event_name.is_none() && p.injects.is_none());
        },
        ConditionStep::Scheduled(..) => panic!("the condition belongs to no event"),
    }
}

#[test]
fn planning_a_condition_event_is_refused_when_something_is_missing() {
    let start = Timestamp { seconds: 0, nanoseconds: 0 };
    let roles = admin_roles();
    let missing_event = plan_condition_event(&scenario(), &roles, &plan("c1", "admin", Some("nope")), &vec![], &machine(), start, start);
    assert!(matches!(missing_event, Err(EventPlanError::EventNotFound)));
    let missing_role = plan_condition_event(&scenario(), &roles, &plan("c1", "guest", Some("e1")), &vec![], &machine(), start, start);
    assert!(matches!(missing_role, Err(EventPlanError::RoleNotFound)));
    let broken = vec![props("c0", Some(("e1", None)), None)];
    let no_id = plan_condition_event(&scenario(), &roles, &plan("c1", "admin", Some("e1")), &broken, &machine(), start, start);
    assert!(matches!(no_id, Err(EventPlanError::EventIdNotFound)));
    let mut unreadable = machine();
    unreadable.handler_reference = Some(s("not-an-id"));
    let r = plan_condition_event(&scenario(), &roles, &plan("c1", "admin", Some("e1")), &vec![], &unreadable, start, start);
    assert!(matches!(r, Err(EventPlanError::ParentNodeIdUnreadable)));
}
