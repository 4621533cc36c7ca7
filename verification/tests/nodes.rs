use ranger::events::Timestamp;
use ranger::model::{DeployerTypes, Deployment, DeploymentElement, ElementStatus, NodeType, Source};
use ranger::names::NamedMap;
use ranger::nodes::{
    deployer_type_of, link_lookups, link_references, node_element, template_element, template_id_from,
    template_lookup, template_sources, vm_nodes, CommandError, Configuration, Deployable, NodeCommand, NodeError,
};
use ranger::scenario::{InfraNode, Node, Resources, Scenario};

fn s(v: &str) -> String {
    v.to_string()
}

fn node(t: NodeType, source: Option<(&str, &str)>) -> Node {
    Node {
        type_field: t,
        source: source.map(|(n, v)| Source { name: s(n), version: s(v) }),
        resources: Some(Resources { ram: 1 << 30, cpu: 2 }),
        vulnerabilities: None,
        conditions: None,
        features: None,
        roles: None,
    }
}

fn deployment() -> Deployment {
    Deployment {
        id: 9,
        name: s("deployment-one"),
        deployment_group: None,
        start: Timestamp { seconds: 0, nanoseconds: 0 },
        end: Timestamp { seconds: 10, nanoseconds: 0 },
    }
}

fn element(handler: Option<&str>) -> DeploymentElement {
    DeploymentElement {
        id: 1,
        deployment_id: 9,
        scenario_reference: s("n"),
        handler_reference: handler.map(s),
        deployer_type: DeployerTypes::VirtualMachine,
        status: ElementStatus::Success,
        executor_log: None,
        event_id: None,
        parent_node_id: None,
    }
}

#[test]
fn node_kinds_go_to_their_deployers() {
    assert_eq!(deployer_type_of(NodeType::VM), DeployerTypes::VirtualMachine);
    assert_eq!(deployer_type_of(NodeType::Switch), DeployerTypes::Switch);
    let e = node_element(9, s("sw-1"), NodeType::Switch);
    assert_eq!(e.deployer_type, DeployerTypes::Switch);
    assert_eq!(e.scenario_reference, "sw-1");
    let t = template_element(9, &Source { name: s("debian"), version: s("1.0") });
    assert_eq!(t.scenario_reference, "debian-1.0");
    assert_eq!(t.deployer_type, DeployerTypes::Template);
}

#[test]
fn virtual_machines_are_requested_with_their_template() {
    let request = (s("vm-0"), node(NodeType::VM, Some(("debian", "1"))), deployment(), s("exercise"), vec![s("sw")], Some(0x0102u128));
    match request.try_to_deployment_command().unwrap() {
        NodeCommand::DeployVirtualMachine { virtual_machine, meta_info } => {
            assert_eq!(virtual_machine.name, "vm-0");
            assert_eq!(virtual_machine.links, vec![s("sw")]);
            assert_eq!(virtual_machine.template_id, "00000000-0000-0000-0000-000000000102");
            assert_eq!(virtual_machine.configuration, Some(Configuration { cpu: 2, ram: 1 << 30 }));
            assert_eq!(meta_info.exercise_name, "exercise");
            assert_eq!(meta_info.deployment_name, "deployment-one");
        },
        _ => panic!("expected a virtual machine"),
    }
    let id = 0x0123_4567_89ab_cdef_0011_2233_4455_6677u128;
    let again = (s("vm-1"), node(NodeType::VM, None), deployment(), s("exercise"), vec![], Some(id));
    match again.try_to_deployment_command().unwrap() {
        NodeCommand::DeployVirtualMachine { virtual_machine, .. } => {
            assert_eq!(virtual_machine.template_id, "01234567-89ab-cdef-0011-223344556677");
            assert_eq!(template_id_from(&Some(virtual_machine.template_id)), Ok(id));
        },
        _ => panic!("expected a virtual machine"),
    }
    let without = (s("vm-0"), node(NodeType::VM, None), deployment(), s("exercise"), vec![], None);
    assert!(matches!(without.try_to_deployment_command(), Err(CommandError::TemplateIdNotFound)));
    let switch = (s("sw"), node(NodeType::Switch, None), deployment(), s("exercise"), vec![], None);
    assert!(matches!(switch.try_to_deployment_command(), Ok(NodeCommand::DeploySwitch { .. })));
    let package = Source { name: s("debian"), version: s("1") };
    let copy = package.try_to_deployment_command().unwrap();
    assert_eq!((copy.name.as_str(), copy.version.as_str()), ("debian", "1"));
}

#[test]
fn templates_are_found_by_package_and_read_back() {
    let lookup = template_lookup(9, &Some(Source { name: s("debian"), version: s("2") })).unwrap();
    assert_eq!((lookup.0, lookup.1.as_str()), (9, "debian-2"));
    assert!(template_lookup(9, &None).is_none());
    let text = s("a1a2a3a4-b1b2-c1c2-d1d2-d3d4d5d6d7d8");
    assert_eq!(template_id_from(&Some(text)), Ok(0xa1a2a3a4b1b2c1c2d1d2d3d4d5d6d7d8));
    assert_eq!(template_id_from(&None), Err(NodeError::HandlerReferenceNotFound));
    assert_eq!(template_id_from(&Some(s("nope"))), Err(NodeError::TemplateIdUnreadable));
}

#[test]
fn links_need_handler_references() {
    let infra = InfraNode { count: 1, links: Some(vec![s("sw-a"), s("sw-b")]), dependencies: None };
    let lookups = link_lookups(9, &infra);
    assert_eq!(lookups.len(), 2);
    assert_eq!(lookups[1].1, "sw-b");
    assert!(link_lookups(9, &InfraNode { count: 1, links: None, dependencies: None }).is_empty());
    assert_eq!(link_references(vec![Some(s("h1")), Some(s("h2"))]), Ok(vec![s("h1"), s("h2")]));
    assert_eq!(link_references(vec![Some(s("h1")), None]), Err(NodeError::HandlerReferenceNotFound));
}

#[test]
fn only_virtual_machines_with_templates_go_on() {
    let results = vec![
        (node(NodeType::VM, None), element(Some("vm-a")), Some(1u128)),
        (node(NodeType::Switch, None), element(Some("sw")), None),
        (node(NodeType::VM, None), element(Some("vm-b")), None),
        (node(NodeType::VM, None), element(Some("vm-c")), Some(3u128)),
    ];
    let vms = vm_nodes(results);
    assert_eq!(vms.len(), 2);
    assert_eq!(vms[0].1.handler_reference.as_deref(), Some("vm-a"));
    assert_eq!(vms[1].2, 3);
}

fn scenario_with(nodes: Option<NamedMap<Node>>) -> Scenario {
    Scenario {
        name: s("s"),
        description: None,
        nodes,
        features: None,
        infrastructure: None,
        conditions: None,
        vulnerabilities: None,
        metrics: None,
        evaluations: None,
        tlos: None,
        entities: None,
        goals: None,
        injects: None,
        events: None,
        scripts: None,
        stories: None,
        capabilities: None,
    }
}

#[test]
fn every_virtual_machine_needs_a_template_package() {
    assert_eq!(template_sources(&scenario_with(None)).unwrap_err(), NodeError::NodesNotFound);
    let mut nodes = NamedMap::new();
    nodes.insert(s("web"), node(NodeType::VM, Some(("debian", "1"))));
    nodes.insert(s("sw"), node(NodeType::Switch, None));
    let sources = template_sources(&scenario_with(Some(nodes))).unwrap();
    assert_eq!(sources.len(), 1);
    assert_eq!(sources[0].0, "web");
    assert_eq!(sources[0].1.name, "debian");
    let mut nodes = NamedMap::new();
    nodes.insert(s("web"), node(NodeType::VM, None));
    assert_eq!(template_sources(&scenario_with(Some(nodes))).unwrap_err(), NodeError::SourceNotFound);
}
