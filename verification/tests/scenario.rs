use ranger::model::{NodeType, Source};
use ranger::names::NamedMap;
use ranger::entities::flatten_entities;
use ranger::role_filter::{filter_scenario_by_role, get_entities_by_role, get_flattened_entities_by_role};
use ranger::scenario::{
    Condition, Entity, Evaluation, ExerciseRole, Feature, FeatureType, Goal, InfraNode, Metric, Node, Scenario,
    TrainingLearningObjective, Vulnerability,
};
use ranger::scheduler::{CreateDeploymentSchedule, CreateFeatureDeploymentSchedule, ScheduleError};

fn s(v: &str) -> String {
    v.to_string()
}

fn names(v: &[&str]) -> Vec<String> {
    v.iter().map(|x| x.to_string()).collect()
}

fn empty_scenario() -> Scenario {
    Scenario {
        name: s("test-scenario"),
        description: Some(s("a scenario")),
        nodes: None,
        features: None,
        infrastructure: None,
        conditions: None,
        vulnerabilities: None,
        metrics: None,
        evaluations: None,
        tlos: None,
        entities: None,
        goals: None,
        injects: None,
        events: None,
        scripts: None,
        stories: None,
        capabilities: None,
    }
}

fn node(t: NodeType) -> Node {
    Node {
        type_field: t,
        source: Some(Source { name: s("debian"), version: s("1.0.0") }),
        resources: None,
        vulnerabilities: None,
        conditions: None,
        features: None,
        roles: None,
    }
}

fn infra(count: u32, links: &[&str]) -> InfraNode {
    InfraNode { count, links: if links.is_empty() { None } else { Some(names(links)) }, dependencies: None }
}

fn feature(dependencies: &[&str]) -> Feature {
    Feature {
        feature_type: FeatureType::Service,
        source: Some(Source { name: s("pkg"), version: s("0.1.0") }),
        dependencies: if dependencies.is_empty() { None } else { Some(names(dependencies)) },
        vulnerabilities: None,
    }
}

fn instance_names(tranche: &[ranger::scheduler::ScheduledNode]) -> Vec<String> {
    let mut v: Vec<String> = tranche.iter().map(|n| n.name.clone()).collect();
    v.sort();
    v
}

#[test]
fn schedule_deploys_linked_nodes_first_and_counts_instances() {
    let mut scenario = empty_scenario();
    let mut nodes = NamedMap::new();
    nodes.insert(s("vm"), node(NodeType::VM));
    nodes.insert(s("sw"), node(NodeType::Switch));
    scenario.nodes = Some(nodes);
    let mut infrastructure = NamedMap::new();
    infrastructure.insert(s("sw"), infra(1, &[]));
    infrastructure.insert(s("vm"), infra(2, &["sw"]));
    scenario.infrastructure = Some(infrastructure);
    let schedule = CreateDeploymentSchedule(scenario).generate().unwrap();
    assert_eq!(schedule.len(), 2);
    assert_eq!(instance_names(&schedule[0]), names(&["sw"]));
    assert_eq!(instance_names(&schedule[1]), names(&["vm-0", "vm-1"]));
    assert!(schedule[1].iter().all(|n| n.node_name == "vm"));
}

#[test]
fn schedule_is_refused_when_a_link_is_missing() {
    let mut scenario = empty_scenario();
    let mut nodes = NamedMap::new();
    nodes.insert(s("vm"), node(NodeType::VM));
    scenario.nodes = Some(nodes);
    let mut infrastructure = NamedMap::new();
    infrastructure.insert(s("vm"), infra(1, &["missing"]));
    scenario.infrastructure = Some(infrastructure);
    let r = CreateDeploymentSchedule(scenario).generate();
    assert!(matches!(r, Err(ScheduleError::Dependencies(_))));
}

#[test]
fn schedule_is_refused_when_infrastructure_names_no_node() {
    let mut scenario = empty_scenario();
    scenario.nodes = Some(NamedMap::new());
    let mut infrastructure = NamedMap::new();
    infrastructure.insert(s("ghost"), infra(1, &[]));
    scenario.infrastructure = Some(infrastructure);
    let r = CreateDeploymentSchedule(scenario).generate();
    assert!(matches!(r, Err(ScheduleError::NodeValueMissing)));
}

#[test]
fn schedule_without_infrastructure_is_one_empty_tranche() {
    let schedule = CreateDeploymentSchedule(empty_scenario()).generate().unwrap();
    assert_eq!(schedule.len(), 1);
    assert!(schedule[0].is_empty());
}

#[test]
fn instance_names_carry_an_index_only_when_counted() {
    assert_eq!(CreateDeploymentSchedule::create_node_name(&infra(1, &[]), s("web"), 0), "web");
    assert_eq!(CreateDeploymentSchedule::create_node_name(&infra(0, &[]), s("web"), 0), "web");
    assert_eq!(CreateDeploymentSchedule::create_node_name(&infra(3, &[]), s("web"), 2), "web-2");
    assert_eq!(CreateDeploymentSchedule::create_node_name(&infra(12, &[]), s("web"), 10), "web-10");
}

#[test]
fn feature_schedule_puts_dependencies_first() {
    let mut scenario = empty_scenario();
    let mut features = NamedMap::new();
    features.insert(s("app"), feature(&["db", "lib"]));
    features.insert(s("db"), feature(&["lib"]));
    features.insert(s("lib"), feature(&[]));
    scenario.features = Some(features);
    let schedule = CreateFeatureDeploymentSchedule(scenario, node(NodeType::VM)).generate().unwrap();
    assert_eq!(schedule, vec![names(&["lib"]), names(&["db"]), names(&["app"])]);
}

#[test]
fn feature_schedule_puts_each_feature_as_early_as_it_can() {
    let mut scenario = empty_scenario();
    let mut features = NamedMap::new();
    features.insert(s("app"), feature(&["db"]));
    features.insert(s("db"), feature(&[]));
    features.insert(s("tool"), feature(&[]));
    scenario.features = Some(features);
    let schedule = CreateFeatureDeploymentSchedule(scenario, node(NodeType::VM)).generate().unwrap();
    assert_eq!(schedule.len(), 2);
    let mut first = schedule[0].clone();
    first.sort();
    assert_eq!(first, names(&["db", "tool"]));
    assert_eq!(schedule[1], names(&["app"]));
}

#[test]
fn feature_schedule_without_features_is_one_empty_tranche() {
    let schedule = CreateFeatureDeploymentSchedule(empty_scenario(), node(NodeType::VM)).generate().unwrap();
    assert_eq!(schedule, vec![Vec::<String>::new()]);
}

#[test]
fn feature_schedule_is_refused_for_a_cycle() {
    let mut scenario = empty_scenario();
    let mut features = NamedMap::new();
    features.insert(s("a"), feature(&["b"]));
    features.insert(s("b"), feature(&["a"]));
    scenario.features = Some(features);
    let r = CreateFeatureDeploymentSchedule(scenario, node(NodeType::VM)).generate();
    assert!(matches!(r, Err(ScheduleError::Dependencies(_))));
}

fn entity(role: Option<ExerciseRole>, goals: &[&str], vulnerabilities: &[&str]) -> Entity {
    Entity {
        role,
        goals: if goals.is_empty() { None } else { Some(names(goals)) },
        vulnerabilities: if vulnerabilities.is_empty() { None } else { Some(names(vulnerabilities)) },
        entities: None,
    }
}

fn vulnerability(name: &str) -> Vulnerability {
    Vulnerability { name: s(name), description: s("weak"), technical: true, class: s("CWE-1") }
}

fn role_scenario() -> Scenario {
    let mut scenario = empty_scenario();
    let mut entities = NamedMap::new();
    entities.insert(s("blue-team"), entity(Some(ExerciseRole::Blue), &["g1"], &["v1"]));
    entities.insert(s("red-team"), entity(Some(ExerciseRole::Red), &[], &["v2"]));
    scenario.entities = Some(entities);
    let mut vulnerabilities = NamedMap::new();
    vulnerabilities.insert(s("v1"), vulnerability("one"));
    vulnerabilities.insert(s("v2"), vulnerability("two"));
    scenario.vulnerabilities = Some(vulnerabilities);
    let mut goals = NamedMap::new();
    goals.insert(s("g1"), Goal { tlos: names(&["t1"]) });
    scenario.goals = Some(goals);
    let mut tlos = NamedMap::new();
    tlos.insert(s("t1"), TrainingLearningObjective { evaluation: s("e1") });
    scenario.tlos = Some(tlos);
    let mut evaluations = NamedMap::new();
    evaluations.insert(s("e1"), Evaluation { metrics: names(&["m1"]) });
    scenario.evaluations = Some(evaluations);
    let mut metrics = NamedMap::new();
    metrics.insert(s("m1"), Metric { max_score: 10, condition: Some(s("c1")) });
    scenario.metrics = Some(metrics);
    let mut conditions = NamedMap::new();
    conditions.insert(s("c1"), Condition { command: Some(s("check")), interval: Some(30), source: None });
    conditions.insert(s("c2"), Condition { command: None, interval: None, source: None });
    scenario.conditions = Some(conditions);
    let mut node_conditions = NamedMap::new();
    node_conditions.insert(s("c1"), s("admin"));
    let mut monitored = node(NodeType::VM);
    monitored.conditions = Some(node_conditions);
    let mut nodes = NamedMap::new();
    nodes.insert(s("server"), monitored);
    nodes.insert(s("other"), node(NodeType::VM));
    scenario.nodes = Some(nodes);
    scenario
}

#[test]
fn blue_team_sees_what_its_entity_leads_to() {
    let filtered = filter_scenario_by_role(role_scenario(), ExerciseRole::Blue);
    assert_eq!(filtered.name, "test-scenario");
    let vulnerabilities = filtered.vulnerabilities.unwrap();
    assert!(vulnerabilities.contains_key(&s("v1")));
    assert!(!vulnerabilities.contains_key(&s("v2")));
    let conditions = filtered.conditions.unwrap();
    assert!(conditions.contains_key(&s("c1")));
    assert!(!conditions.contains_key(&s("c2")));
    let nodes = filtered.nodes.unwrap();
    assert!(nodes.contains_key(&s("server")));
    assert!(!nodes.contains_key(&s("other")));
    assert!(filtered.goals.unwrap().contains_key(&s("g1")));
    assert!(filtered.tlos.unwrap().contains_key(&s("t1")));
    assert!(filtered.metrics.unwrap().contains_key(&s("m1")));
    let entities = filtered.entities.unwrap();
    assert!(entities.contains_key(&s("blue-team")));
    assert!(!entities.contains_key(&s("red-team")));
    assert!(filtered.injects.is_none());
}

#[test]
fn a_role_without_entities_sees_only_the_name() {
    let filtered = filter_scenario_by_role(role_scenario(), ExerciseRole::White);
    assert_eq!(filtered.name, "test-scenario");
    assert_eq!(filtered.description, Some(s("a scenario")));
    assert!(filtered.nodes.is_none());
    assert!(filtered.entities.is_none());
    assert!(filtered.vulnerabilities.is_none());
    assert!(filtered.conditions.is_none());
}

#[test]
fn nested_entities_are_found_under_dotted_names() {
    let mut scenario = empty_scenario();
    let mut team = entity(Some(ExerciseRole::Red), &[], &[]);
    team.entities = Some(vec![(s("member"), entity(Some(ExerciseRole::Blue), &[], &[]))]);
    let mut entities = NamedMap::new();
    entities.insert(s("team"), team);
    scenario.entities = Some(entities);
    let blue = get_flattened_entities_by_role(&scenario, ExerciseRole::Blue);
    assert_eq!(blue.keys(), names(&["team.member"]));
    assert!(get_entities_by_role(&scenario, ExerciseRole::Blue).is_empty());
    let red = get_entities_by_role(&scenario, ExerciseRole::Red);
    assert_eq!(red.keys(), names(&["team"]));
    let team = red.get(&s("team")).unwrap();
    assert_eq!(team.entities.as_ref().map(|children| children.len()), Some(1));
}

#[test]
fn flattening_keeps_whole_entities_under_every_dotted_name() {
    let pc = entity(None, &[], &["v1"]);
    let mut bob = entity(Some(ExerciseRole::Blue), &["g1"], &[]);
    bob.entities = Some(vec![(s("pc"), pc)]);
    let mut team = entity(Some(ExerciseRole::Blue), &[], &[]);
    team.entities = Some(vec![(s("bob"), bob)]);
    let mut entities = NamedMap::new();
    entities.insert(s("team"), team);
    let flat = flatten_entities(&entities);
    let mut keys = flat.keys();
    keys.sort();
    assert_eq!(keys, names(&["team", "team.bob", "team.bob.pc"]));
    let team = flat.get(&s("team")).unwrap();
    let bob = &team.entities.as_ref().unwrap()[0];
    assert_eq!(bob.0, "bob");
    let flat_bob = flat.get(&s("team.bob")).unwrap();
    assert_eq!(flat_bob.goals, Some(names(&["g1"])));
    assert_eq!(flat_bob.entities.as_ref().unwrap()[0].0, "pc");
    let flat_pc = flat.get(&s("team.bob.pc")).unwrap();
    assert_eq!(flat_pc.vulnerabilities, Some(names(&["v1"])));
    assert!(flat_pc.entities.is_none());
}
