use ranger::model::NodeType;
use ranger::names::NamedMap;
use ranger::nodes::Configuration;
use ranger::scenario::{InfraNode, Node, Resources};
use ranger::templater::{
    deal_round_robin, filter_node_deployments, filter_templation_results, separate_node_deployments_by_type,
    exercise_name, templation_plan, Deployment, NodeDeployment, NodeDescription, NodeIdentifier, TemplaterError,
};

fn s(v: &str) -> String {
    v.to_string()
}

fn node(t: NodeType) -> Node {
    Node {
        type_field: t,
        source: None,
        resources: Some(Resources { ram: 512, cpu: 1 }),
        vulnerabilities: None,
        conditions: None,
        features: None,
        roles: None,
    }
}

fn maps() -> (NamedMap<String>, NamedMap<InfraNode>) {
    let mut templates = NamedMap::new();
    templates.insert(s("web"), s("template-1"));
    let mut infra = NamedMap::new();
    infra.insert(s("web"), InfraNode { count: 1, links: Some(vec![s("lan")]), dependencies: None });
    (templates, infra)
}

#[test]
fn node_deployments_carry_template_links_and_configuration() {
    let (templates, infra) = maps();
    let d = node(NodeType::VM).to_deployment(&s("web"), &s("web-0"), &templates, &infra, &s("ex")).unwrap();
    let p = d.parameters.unwrap();
    assert_eq!((p.name.as_str(), p.exercise_name.as_str(), p.template_id.as_str()), ("web-0", "ex", "template-1"));
    assert_eq!(p.links, vec![s("lan")]);
    let n = d.node.unwrap();
    assert_eq!(n.configuration, Some(Configuration { cpu: 1, ram: 512 }));
    assert_eq!(n.identifier.unwrap().node_type, NodeType::VM);
    let r = node(NodeType::VM).to_deployment(&s("db"), &s("db"), &templates, &infra, &s("ex"));
    assert!(matches!(r, Err(TemplaterError::TemplateNotFound)));
    let sw = node(NodeType::Switch).to_deployment(&s("lan"), &s("lan"), &templates, &infra, &s("ex")).unwrap();
    let p = sw.parameters.unwrap();
    assert_eq!(p.template_id, "");
    assert!(p.links.is_empty());
    assert!(sw.node.unwrap().configuration.is_none());
}

fn deployment_of(kind: Option<Option<NodeType>>) -> NodeDeployment {
    NodeDeployment {
        parameters: None,
        node: kind.map(|k| NodeDescription {
            identifier: k.map(|t| NodeIdentifier { identifier: None, node_type: t }),
            configuration: None,
        }),
    }
}

#[test]
fn node_deployments_are_separated_by_kind() {
    let (vms, switches) = separate_node_deployments_by_type(vec![
        deployment_of(Some(Some(NodeType::VM))),
        deployment_of(Some(Some(NodeType::Switch))),
        deployment_of(Some(Some(NodeType::VM))),
    ])
    .unwrap();
    assert_eq!((vms.len(), switches.len()), (2, 1));
    let r = separate_node_deployments_by_type(vec![deployment_of(Some(Some(NodeType::VM))), deployment_of(None)]);
    assert!(matches!(r, Err(TemplaterError::NodeNotFound)));
    let r = separate_node_deployments_by_type(vec![deployment_of(Some(None)), deployment_of(None)]);
    assert!(matches!(r, Err(TemplaterError::IdentifierNotFound)));
}

#[test]
fn failed_node_deployments_are_dropped() {
    let results: Vec<Result<NodeDeployment, &str>> =
        vec![Err("bad"), Ok(deployment_of(Some(Some(NodeType::VM)))), Err("worse")];
    assert_eq!(filter_node_deployments(results).unwrap().len(), 1);
    let none: Vec<Result<NodeDeployment, &str>> = vec![Err("bad")];
    assert!(matches!(filter_node_deployments(none), Err(TemplaterError::NoNodesToDeploy)));
}

#[test]
fn failed_templations_are_dropped() {
    let mut results: NamedMap<Result<String, &str>> = NamedMap::new();
    results.insert(s("web"), Ok(s("t-1")));
    results.insert(s("db"), Err("no package"));
    results.insert(s("cache"), Ok(s("t-3")));
    let kept = filter_templation_results(results);
    assert_eq!(kept.len(), 2);
    assert_eq!(kept.get(&s("web")).map(|t| t.as_str()), Some("t-1"));
    assert!(kept.get(&s("db")).is_none());
}

#[test]
fn work_is_dealt_out_in_turn() {
    let dealt = deal_round_robin(vec![1, 2, 3, 4, 5], &vec![s("a"), s("b")]);
    let owners: Vec<&str> = dealt.iter().map(|(_, d)| d.as_str()).collect();
    assert_eq!(owners, vec!["a", "b", "a", "b", "a"]);
    assert_eq!(dealt[3].0, 4);
    assert!(deal_round_robin(vec![1, 2], &vec![]).is_empty());
}

fn packaged(t: NodeType, package: Option<(&str, &str)>) -> Node {
    let mut n = node(t);
    n.source = package.map(|(name, version)| ranger::model::Source { name: s(name), version: s(version) });
    n
}

fn scenario_with_nodes(nodes: Option<NamedMap<Node>>) -> ranger::scenario::Scenario {
    ranger::scenario::Scenario {
        name: s("exercise"),
        description: None,
        nodes,
        features: None,
        infrastructure: None,
        conditions: None,
        vulnerabilities: None,
        metrics: None,
        evaluations: None,
        tlos: None,
        entities: None,
        goals: None,
        injects: None,
        events: None,
        scripts: None,
        stories: None,
        capabilities: None,
    }
}

#[test]
fn packaged_nodes_are_dealt_to_templaters_in_turn() {
    let mut nodes = NamedMap::new();
    nodes.insert(s("a"), packaged(NodeType::VM, Some(("debian", "1.0"))));
    nodes.insert(s("sw"), packaged(NodeType::Switch, None));
    nodes.insert(s("b"), packaged(NodeType::VM, Some(("ubuntu", "2.0"))));
    nodes.insert(s("c"), packaged(NodeType::VM, Some(("kali", "3.0"))));
    let templaters = vec![s("t1"), s("t2")];
    let plan = templation_plan(&scenario_with_nodes(Some(nodes)), &templaters).unwrap();
    let summary: Vec<(String, String, String)> =
        plan.into_iter().map(|(node, source, templater)| (node, source.name, templater)).collect();
    assert_eq!(
        summary,
        vec![
            (s("a"), s("debian"), s("t1")),
            (s("b"), s("ubuntu"), s("t1")),
            (s("c"), s("kali"), s("t2")),
        ]
    );
}

#[test]
fn templation_needs_nodes_and_templaters() {
    assert_eq!(
        templation_plan(&scenario_with_nodes(None), &vec![s("t1")]).unwrap_err(),
        TemplaterError::NodesNotFound
    );
    let mut nodes = NamedMap::new();
    nodes.insert(s("a"), packaged(NodeType::VM, Some(("debian", "1.0"))));
    assert!(templation_plan(&scenario_with_nodes(Some(nodes)), &vec![]).unwrap().is_empty());
}

#[test]
fn exercise_name_joins_scenario_name_and_deployment_id() {
    let id: u128 = 0x0123_4567_89ab_cdef_0123_4567_89ab_cdef;
    assert_eq!(exercise_name(&s("exercise"), id), "exercise-01234567-89ab-cdef-0123-456789abcdef");
}
