//! The parts of a scenario that a participant of a given exercise role may see.
//!
//! A scenario is kept as named maps of its elements. An element is named by its
//! key in the scenario, so a selection of elements is a list of names; every map
//! of the filtered scenario is the unfiltered map restricted to a selection.

use crate::model::{NodeType, Source};
use crate::names::{lemma_name_set_push, name_set, NamedMap};
use crate::refs::{copy_names, copy_opt_names, known_names, opt_keys, opt_map, opt_names, project, referenced, referenced_names, referring, referring_names, refs_view, RefField};
use vstd::prelude::*;

verus! {

/// The role of a participant in an exercise.
#[derive(PartialEq, Eq, Structural, Clone, Copy, Debug)]
pub enum ExerciseRole {
    White,
    Green,
    Red,
    Blue,
}

pub struct Entity {
    pub role: Option<ExerciseRole>,
    pub goals: Option<Vec<String>>,
    pub vulnerabilities: Option<Vec<String>>,
    /// Entities nested under this one, with their names.
    pub entities: Option<Vec<(String, Entity)>>,
}

pub struct Capability {
    pub condition: String,
    pub vulnerabilities: Option<Vec<String>>,
}

#[derive(PartialEq, Eq, Structural, Clone, Copy, Debug)]
pub enum FeatureType {
    Service,
    Artifact,
    Configuration,
}

pub struct Feature {
    pub feature_type: FeatureType,
    pub source: Option<Source>,
    pub dependencies: Option<Vec<String>>,
    pub vulnerabilities: Option<Vec<String>>,
}

pub struct Resources {
    pub ram: u64,
    pub cpu: u32,
}

pub struct Role {
    pub username: String,
    pub entities: Option<Vec<String>>,
}

pub struct Node {
    pub type_field: NodeType,
    pub source: Option<Source>,
    pub resources: Option<Resources>,
    pub vulnerabilities: Option<Vec<String>>,
    /// Condition name to the name of the role it runs as.
    pub conditions: Option<NamedMap<String>>,
    /// Feature name to the name of the role it is deployed as.
    pub features: Option<NamedMap<String>>,
    pub roles: Option<NamedMap<Role>>,
}

pub struct InfraNode {
    pub count: u32,
    pub links: Option<Vec<String>>,
    pub dependencies: Option<Vec<String>>,
}

pub struct Condition {
    pub command: Option<String>,
    pub interval: Option<u32>,
    pub source: Option<Source>,
}

pub struct Vulnerability {
    pub name: String,
    pub description: String,
    pub technical: bool,
    pub class: String,
}

pub struct Metric {
    pub max_score: u32,
    pub condition: Option<String>,
}

pub struct Evaluation {
    pub metrics: Vec<String>,
}

pub struct TrainingLearningObjective {
    pub evaluation: String,
}

pub struct Goal {
    pub tlos: Vec<String>,
}

pub struct Inject {
    pub source: Option<Source>,
    pub tlos: Option<Vec<String>>,
    pub capabilities: Option<Vec<String>>,
    pub to_entities: Option<Vec<String>>,
}

pub struct Event {
    pub description: Option<String>,
    pub source: Option<Source>,
    pub conditions: Option<Vec<String>>,
    pub injects: Vec<String>,
}

pub struct Script {
    pub events: Vec<String>,
}

pub struct Story {
    pub scripts: Vec<String>,
}

pub struct Scenario {
    pub name: String,
    pub description: Option<String>,
    pub nodes: Option<NamedMap<Node>>,
    pub features: Option<NamedMap<Feature>>,
    pub infrastructure: Option<NamedMap<InfraNode>>,
    pub conditions: Option<NamedMap<Condition>>,
    pub vulnerabilities: Option<NamedMap<Vulnerability>>,
    pub metrics: Option<NamedMap<Metric>>,
    pub evaluations: Option<NamedMap<Evaluation>>,
    pub tlos: Option<NamedMap<TrainingLearningObjective>>,
    pub entities: Option<NamedMap<Entity>>,
    pub goals: Option<NamedMap<Goal>>,
    pub injects: Option<NamedMap<Inject>>,
    pub events: Option<NamedMap<Event>>,
    pub scripts: Option<NamedMap<Script>>,
    pub stories: Option<NamedMap<Story>>,
    pub capabilities: Option<NamedMap<Capability>>,
}

pub open spec fn opt_wf<V>(m: Option<NamedMap<V>>) -> bool {
    match m {
        Some(m) => m.wf(),
        None => true,
    }
}

impl Scenario {
    pub open spec fn wf(&self) -> bool {
        &&& opt_wf(self.nodes)
        &&& opt_wf(self.features)
        &&& opt_wf(self.infrastructure)
        &&& opt_wf(self.conditions)
        &&& opt_wf(self.vulnerabilities)
        &&& opt_wf(self.metrics)
        &&& opt_wf(self.evaluations)
        &&& opt_wf(self.tlos)
        &&& opt_wf(self.entities)
        &&& opt_wf(self.goals)
        &&& opt_wf(self.injects)
        &&& opt_wf(self.events)
        &&& opt_wf(self.scripts)
        &&& opt_wf(self.stories)
        &&& opt_wf(self.capabilities)
        &&& match self.nodes {
            Some(nodes) => forall|k| #[trigger] nodes@.dom().contains(k) ==> nodes@[k].wf(),
            None => true,
        }
    }
}

impl Node {
    pub open spec fn wf(&self) -> bool {
        &&& opt_wf(self.conditions)
        &&& opt_wf(self.features)
        &&& opt_wf(self.roles)
    }
}

// The names each kind of element refers to.
pub open spec fn capability_vulnerabilities(c: Capability) -> Set<Seq<char>> {
    opt_names(c.vulnerabilities)
}

pub open spec fn capability_condition(c: Capability) -> Set<Seq<char>> {
    set![c.condition@]
}

pub open spec fn feature_vulnerabilities(f: Feature) -> Set<Seq<char>> {
    opt_names(f.vulnerabilities)
}

pub open spec fn node_vulnerabilities(n: Node) -> Set<Seq<char>> {
    opt_names(n.vulnerabilities)
}

pub open spec fn node_conditions(n: Node) -> Set<Seq<char>> {
    opt_keys(n.conditions)
}

pub open spec fn node_features(n: Node) -> Set<Seq<char>> {
    opt_keys(n.features)
}

pub open spec fn goal_tlos(g: Goal) -> Set<Seq<char>> {
    name_set(g.tlos@)
}

pub open spec fn tlo_evaluation(t: TrainingLearningObjective) -> Set<Seq<char>> {
    set![t.evaluation@]
}

pub open spec fn inject_tlos(i: Inject) -> Set<Seq<char>> {
    opt_names(i.tlos)
}

pub open spec fn inject_capabilities(i: Inject) -> Set<Seq<char>> {
    opt_names(i.capabilities)
}

pub open spec fn evaluation_metrics(e: Evaluation) -> Set<Seq<char>> {
    name_set(e.metrics@)
}

pub open spec fn metric_condition(m: Metric) -> Set<Seq<char>> {
    match m.condition {
        Some(c) => set![c@],
        None => Set::empty(),
    }
}

pub open spec fn event_injects(e: Event) -> Set<Seq<char>> {
    name_set(e.injects@)
}

pub open spec fn event_conditions(e: Event) -> Set<Seq<char>> {
    opt_names(e.conditions)
}

pub open spec fn script_events(s: Script) -> Set<Seq<char>> {
    name_set(s.events@)
}

pub open spec fn story_scripts(s: Story) -> Set<Seq<char>> {
    name_set(s.scripts@)
}

fn single_name(name: &String) -> (r: Vec<String>)
    ensures
        name_set(r@) == set![name@],
{
    let mut r = Vec::new();
    r.push(name.clone());
    proof {
        lemma_name_set_push(Seq::empty(), *name);
        assert(Seq::<String>::empty().push(*name) == r@);
        assert(name_set(Seq::<String>::empty()) =~= Set::<Seq<char>>::empty());
        assert(set![name@] =~= Set::<Seq<char>>::empty().insert(name@));
    }
    r
}

fn opt_map_keys<V>(m: &Option<NamedMap<V>>) -> (r: Vec<String>)
    ensures
        name_set(r@) == opt_keys(*m),
{
    match m {
        Some(m) => m.keys(),
        None => {
            let r = Vec::new();
            proof {
                assert(name_set(r@) =~= Set::<Seq<char>>::empty());
            }
            r
        },
    }
}

struct CapabilityVulnerabilities;

impl RefField<Capability> for CapabilityVulnerabilities {
    open spec fn refs(t: Capability) -> Set<Seq<char>> {
        capability_vulnerabilities(t)
    }

    fn ref_names(t: &Capability) -> (r: Vec<String>) {
        copy_opt_names(&t.vulnerabilities)
    }
}

struct CapabilityCondition;

impl RefField<Capability> for CapabilityCondition {
    open spec fn refs(t: Capability) -> Set<Seq<char>> {
        capability_condition(t)
    }

    fn ref_names(t: &Capability) -> (r: Vec<String>) {
        single_name(&t.condition)
    }
}

struct FeatureVulnerabilities;

impl RefField<Feature> for FeatureVulnerabilities {
    open spec fn refs(t: Feature) -> Set<Seq<char>> {
        feature_vulnerabilities(t)
    }

    fn ref_names(t: &Feature) -> (r: Vec<String>) {
        copy_opt_names(&t.vulnerabilities)
    }
}

struct NodeVulnerabilities;

impl RefField<Node> for NodeVulnerabilities {
    open spec fn refs(t: Node) -> Set<Seq<char>> {
        node_vulnerabilities(t)
    }

    fn ref_names(t: &Node) -> (r: Vec<String>) {
        copy_opt_names(&t.vulnerabilities)
    }
}

struct NodeConditions;

impl RefField<Node> for NodeConditions {
    open spec fn refs(t: Node) -> Set<Seq<char>> {
        node_conditions(t)
    }

    fn ref_names(t: &Node) -> (r: Vec<String>) {
        opt_map_keys(&t.conditions)
    }
}

struct NodeFeatures;

impl RefField<Node> for NodeFeatures {
    open spec fn refs(t: Node) -> Set<Seq<char>> {
        node_features(t)
    }

    fn ref_names(t: &Node) -> (r: Vec<String>) {
        opt_map_keys(&t.features)
    }
}

struct GoalTlos;

impl RefField<Goal> for GoalTlos {
    open spec fn refs(t: Goal) -> Set<Seq<char>> {
        goal_tlos(t)
    }

    fn ref_names(t: &Goal) -> (r: Vec<String>) {
        copy_names(&t.tlos)
    }
}

struct TloEvaluation;

impl RefField<TrainingLearningObjective> for TloEvaluation {
    open spec fn refs(t: TrainingLearningObjective) -> Set<Seq<char>> {
        tlo_evaluation(t)
    }

    fn ref_names(t: &TrainingLearningObjective) -> (r: Vec<String>) {
        single_name(&t.evaluation)
    }
}

struct InjectTlos;

impl RefField<Inject> for InjectTlos {
    open spec fn refs(t: Inject) -> Set<Seq<char>> {
        inject_tlos(t)
    }

    fn ref_names(t: &Inject) -> (r: Vec<String>) {
        copy_opt_names(&t.tlos)
    }
}

struct InjectCapabilities;

impl RefField<Inject> for InjectCapabilities {
    open spec fn refs(t: Inject) -> Set<Seq<char>> {
        inject_capabilities(t)
    }

    fn ref_names(t: &Inject) -> (r: Vec<String>) {
        copy_opt_names(&t.capabilities)
    }
}

struct EvaluationMetrics;

impl RefField<Evaluation> for EvaluationMetrics {
    open spec fn refs(t: Evaluation) -> Set<Seq<char>> {
        evaluation_metrics(t)
    }

    fn ref_names(t: &Evaluation) -> (r: Vec<String>) {
        copy_names(&t.metrics)
    }
}

struct MetricCondition;

impl RefField<Metric> for MetricCondition {
    open spec fn refs(t: Metric) -> Set<Seq<char>> {
        metric_condition(t)
    }

    fn ref_names(t: &Metric) -> (r: Vec<String>) {
        match &t.condition {
            Some(c) => single_name(c),
            None => {
                let r = Vec::new();
                proof {
                    assert(name_set(r@) =~= Set::<Seq<char>>::empty());
                }
                r
            },
        }
    }
}

struct EventInjects;

impl RefField<Event> for EventInjects {
    open spec fn refs(t: Event) -> Set<Seq<char>> {
        event_injects(t)
    }

    fn ref_names(t: &Event) -> (r: Vec<String>) {
        copy_names(&t.injects)
    }
}

struct EventConditions;

impl RefField<Event> for EventConditions {
    open spec fn refs(t: Event) -> Set<Seq<char>> {
        event_conditions(t)
    }

    fn ref_names(t: &Event) -> (r: Vec<String>) {
        copy_opt_names(&t.conditions)
    }
}

struct ScriptEvents;

impl RefField<Script> for ScriptEvents {
    open spec fn refs(t: Script) -> Set<Seq<char>> {
        script_events(t)
    }

    fn ref_names(t: &Script) -> (r: Vec<String>) {
        copy_names(&t.events)
    }
}

struct StoryScripts;

impl RefField<Story> for StoryScripts {
    open spec fn refs(t: Story) -> Set<Seq<char>> {
        story_scripts(t)
    }

    fn ref_names(t: &Story) -> (r: Vec<String>) {
        copy_names(&t.scripts)
    }
}

/// The names that the selected elements of an optional map refer to through `F`.
fn refs_of<T, F: RefField<T>>(m: &Option<NamedMap<T>>, selected: &Vec<String>) -> (r: Vec<String>)
    requires
        opt_wf(*m),
    ensures
        name_set(r@) == referenced(opt_map(*m).map_values(|t: T| F::refs(t)), name_set(selected@)),
{
    match m {
        Some(m) => {
            let p = project::<T, F>(m);
            referenced_names(&p, selected)
        },
        None => {
            let r = Vec::new();
            proof {
                assert(opt_map(None::<NamedMap<T>>).map_values(|t: T| F::refs(t)) =~= Map::empty());
                assert(name_set(r@) =~= Set::<Seq<char>>::empty());
                assert(referenced(Map::empty(), name_set(selected@)) =~= Set::<Seq<char>>::empty());
            }
            r
        },
    }
}

/// The events that some script of the scenario runs.
pub fn scripted_events(scenario: &Scenario) -> (r: Vec<String>)
    requires
        scenario.wf(),
    ensures
        name_set(r@) == referenced(script_event_refs(*scenario), opt_keys(scenario.scripts)),
{
    match &scenario.scripts {
        Some(m) => {
            let p = project::<Script, ScriptEvents>(m);
            let keys = m.keys();
            let r = referenced_names(&p, &keys);
            proof {
                assert(refs_view(p) =~= script_event_refs(*scenario));
            }
            r
        },
        None => {
            let r = Vec::new();
            proof {
                assert(name_set(r@) =~= Set::<Seq<char>>::empty());
                assert(referenced(script_event_refs(*scenario), Set::empty()) =~= Set::<Seq<char>>::empty());
            }
            r
        },
    }
}

/// The keys of an optional map whose element refers through `F` to a selected name.
fn refs_to<T, F: RefField<T>>(m: &Option<NamedMap<T>>, selected: &Vec<String>) -> (r: Vec<String>)
    requires
        opt_wf(*m),
    ensures
        name_set(r@) == referring(opt_map(*m).map_values(|t: T| F::refs(t)), name_set(selected@)),
{
    match m {
        Some(m) => {
            let p = project::<T, F>(m);
            referring_names(&p, selected)
        },
        None => {
            let r = Vec::new();
            proof {
                assert(opt_map(None::<NamedMap<T>>).map_values(|t: T| F::refs(t)) =~= Map::empty());
                assert(name_set(r@) =~= Set::<Seq<char>>::empty());
                assert(referring(Map::empty(), name_set(selected@)) =~= Set::<Seq<char>>::empty());
            }
            r
        },
    }
}

/// The names of `names` that are keys of an optional map.
fn known_in<V>(names: &Vec<String>, m: &Option<NamedMap<V>>) -> (r: Vec<String>)
    requires
        opt_wf(*m),
    ensures
        name_set(r@) == name_set(names@).intersect(opt_keys(*m)),
{
    match m {
        Some(m) => known_names(names, m),
        None => {
            let r = Vec::new();
            proof {
                assert(name_set(r@) =~= name_set(names@).intersect(Set::<Seq<char>>::empty()));
            }
            r
        },
    }
}

/// Names referred to by the selected elements, among the known names.
pub open spec fn refs_among(
    refs: Map<Seq<char>, Set<Seq<char>>>,
    selected: Set<Seq<char>>,
    known: Set<Seq<char>>,
) -> Set<Seq<char>> {
    referenced(refs, selected).intersect(known)
}

pub open spec fn capability_vulnerability_refs(s: Scenario) -> Map<Seq<char>, Set<Seq<char>>> {
    opt_map(s.capabilities).map_values(|t: Capability| capability_vulnerabilities(t))
}

pub open spec fn capability_condition_refs(s: Scenario) -> Map<Seq<char>, Set<Seq<char>>> {
    opt_map(s.capabilities).map_values(|t: Capability| capability_condition(t))
}

pub open spec fn feature_vulnerability_refs(s: Scenario) -> Map<Seq<char>, Set<Seq<char>>> {
    opt_map(s.features).map_values(|t: Feature| feature_vulnerabilities(t))
}

pub open spec fn node_vulnerability_refs(s: Scenario) -> Map<Seq<char>, Set<Seq<char>>> {
    opt_map(s.nodes).map_values(|t: Node| node_vulnerabilities(t))
}

pub open spec fn node_condition_refs(s: Scenario) -> Map<Seq<char>, Set<Seq<char>>> {
    opt_map(s.nodes).map_values(|t: Node| node_conditions(t))
}

pub open spec fn node_feature_refs(s: Scenario) -> Map<Seq<char>, Set<Seq<char>>> {
    opt_map(s.nodes).map_values(|t: Node| node_features(t))
}

pub open spec fn goal_tlo_refs(s: Scenario) -> Map<Seq<char>, Set<Seq<char>>> {
    opt_map(s.goals).map_values(|t: Goal| goal_tlos(t))
}

pub open spec fn tlo_evaluation_refs(s: Scenario) -> Map<Seq<char>, Set<Seq<char>>> {
    opt_map(s.tlos).map_values(|t: TrainingLearningObjective| tlo_evaluation(t))
}

pub open spec fn inject_tlo_refs(s: Scenario) -> Map<Seq<char>, Set<Seq<char>>> {
    opt_map(s.injects).map_values(|t: Inject| inject_tlos(t))
}

pub open spec fn inject_capability_refs(s: Scenario) -> Map<Seq<char>, Set<Seq<char>>> {
    opt_map(s.injects).map_values(|t: Inject| inject_capabilities(t))
}

pub open spec fn evaluation_metric_refs(s: Scenario) -> Map<Seq<char>, Set<Seq<char>>> {
    opt_map(s.evaluations).map_values(|t: Evaluation| evaluation_metrics(t))
}

pub open spec fn metric_condition_refs(s: Scenario) -> Map<Seq<char>, Set<Seq<char>>> {
    opt_map(s.metrics).map_values(|t: Metric| metric_condition(t))
}

pub open spec fn event_inject_refs(s: Scenario) -> Map<Seq<char>, Set<Seq<char>>> {
    opt_map(s.events).map_values(|t: Event| event_injects(t))
}

pub open spec fn event_condition_refs(s: Scenario) -> Map<Seq<char>, Set<Seq<char>>> {
    opt_map(s.events).map_values(|t: Event| event_conditions(t))
}

pub open spec fn script_event_refs(s: Scenario) -> Map<Seq<char>, Set<Seq<char>>> {
    opt_map(s.scripts).map_values(|t: Script| script_events(t))
}

pub open spec fn story_script_refs(s: Scenario) -> Map<Seq<char>, Set<Seq<char>>> {
    opt_map(s.stories).map_values(|t: Story| story_scripts(t))
}

/// The capabilities, features and nodes that carry one of the given vulnerabilities.
pub fn get_vulnerability_connections(scenario: &Scenario, vulnerabilities: &Vec<String>) -> (r: (Vec<String>, Vec<String>, Vec<String>))
    requires
        scenario.wf(),
    ensures
        name_set(r.0@) == referring(capability_vulnerability_refs(*scenario), name_set(vulnerabilities@)),
        name_set(r.1@) == referring(feature_vulnerability_refs(*scenario), name_set(vulnerabilities@)),
        name_set(r.2@) == referring(node_vulnerability_refs(*scenario), name_set(vulnerabilities@)),
{
    let r0 = refs_to::<Capability, CapabilityVulnerabilities>(&scenario.capabilities, vulnerabilities);
    let r1 = refs_to::<Feature, FeatureVulnerabilities>(&scenario.features, vulnerabilities);
    let r2 = refs_to::<Node, NodeVulnerabilities>(&scenario.nodes, vulnerabilities);
    proof {
        assert(opt_map(scenario.capabilities).map_values(|t: Capability| CapabilityVulnerabilities::refs(t)) =~= capability_vulnerability_refs(*scenario));
        assert(opt_map(scenario.features).map_values(|t: Feature| FeatureVulnerabilities::refs(t)) =~= feature_vulnerability_refs(*scenario));
        assert(opt_map(scenario.nodes).map_values(|t: Node| NodeVulnerabilities::refs(t)) =~= node_vulnerability_refs(*scenario));
    }
    (r0, r1, r2)
}

/// The conditions that the given capabilities check, among the scenario's conditions.
pub fn get_conditions_by_capabilities(scenario: &Scenario, capabilities: &Vec<String>) -> (r: Vec<String>)
    requires
        scenario.wf(),
    ensures
        name_set(r@) == refs_among(capability_condition_refs(*scenario), name_set(capabilities@), opt_keys(scenario.conditions)),
{
    let names0 = refs_of::<Capability, CapabilityCondition>(&scenario.capabilities, capabilities);
    let r0 = known_in(&names0, &scenario.conditions);
    proof {
        assert(opt_map(scenario.capabilities).map_values(|t: Capability| CapabilityCondition::refs(t)) =~= capability_condition_refs(*scenario));
    }
    r0
}

/// The training and learning objectives of the given goals, among the scenario's.
pub fn get_tlos_by_goals(scenario: &Scenario, goals: &Vec<String>) -> (r: Vec<String>)
    requires
        scenario.wf(),
    ensures
        name_set(r@) == refs_among(goal_tlo_refs(*scenario), name_set(goals@), opt_keys(scenario.tlos)),
{
    let names0 = refs_of::<Goal, GoalTlos>(&scenario.goals, goals);
    let r0 = known_in(&names0, &scenario.tlos);
    proof {
        assert(opt_map(scenario.goals).map_values(|t: Goal| GoalTlos::refs(t)) =~= goal_tlo_refs(*scenario));
    }
    r0
}

/// The injects aimed at the given objectives, and the evaluations of the objectives.
pub fn get_tlo_connections(scenario: &Scenario, tlos: &Vec<String>) -> (r: (Vec<String>, Vec<String>))
    requires
        scenario.wf(),
    ensures
        name_set(r.0@) == referring(inject_tlo_refs(*scenario), name_set(tlos@)),
        name_set(r.1@) == refs_among(tlo_evaluation_refs(*scenario), name_set(tlos@), opt_keys(scenario.evaluations)),
{
    let r0 = refs_to::<Inject, InjectTlos>(&scenario.injects, tlos);
    let names1 = refs_of::<TrainingLearningObjective, TloEvaluation>(&scenario.tlos, tlos);
    let r1 = known_in(&names1, &scenario.evaluations);
    proof {
        assert(opt_map(scenario.injects).map_values(|t: Inject| InjectTlos::refs(t)) =~= inject_tlo_refs(*scenario));
        assert(opt_map(scenario.tlos).map_values(|t: TrainingLearningObjective| TloEvaluation::refs(t)) =~= tlo_evaluation_refs(*scenario));
    }
    (r0, r1)
}

/// The metrics of the given evaluations, among the scenario's metrics.
pub fn get_metrics_by_evaluations(scenario: &Scenario, evaluations: &Vec<String>) -> (r: Vec<String>)
    requires
        scenario.wf(),
    ensures
        name_set(r@) == refs_among(evaluation_metric_refs(*scenario), name_set(evaluations@), opt_keys(scenario.metrics)),
{
    let names0 = refs_of::<Evaluation, EvaluationMetrics>(&scenario.evaluations, evaluations);
    let r0 = known_in(&names0, &scenario.metrics);
    proof {
        assert(opt_map(scenario.evaluations).map_values(|t: Evaluation| EvaluationMetrics::refs(t)) =~= evaluation_metric_refs(*scenario));
    }
    r0
}

/// The conditions the given metrics are scored by, among the scenario's conditions.
pub fn get_conditions_by_metrics(scenario: &Scenario, metrics: &Vec<String>) -> (r: Vec<String>)
    requires
        scenario.wf(),
    ensures
        name_set(r@) == refs_among(metric_condition_refs(*scenario), name_set(metrics@), opt_keys(scenario.conditions)),
{
    let names0 = refs_of::<Metric, MetricCondition>(&scenario.metrics, metrics);
    let r0 = known_in(&names0, &scenario.conditions);
    proof {
        assert(opt_map(scenario.metrics).map_values(|t: Metric| MetricCondition::refs(t)) =~= metric_condition_refs(*scenario));
    }
    r0
}

/// The events that carry one of the given injects, and the capabilities the injects need.
pub fn get_inject_connections(scenario: &Scenario, injects: &Vec<String>) -> (r: (Vec<String>, Vec<String>))
    requires
        scenario.wf(),
    ensures
        name_set(r.0@) == referring(event_inject_refs(*scenario), name_set(injects@)),
        name_set(r.1@) == refs_among(inject_capability_refs(*scenario), name_set(injects@), opt_keys(scenario.capabilities)),
{
    let r0 = refs_to::<Event, EventInjects>(&scenario.events, injects);
    let names1 = refs_of::<Inject, InjectCapabilities>(&scenario.injects, injects);
    let r1 = known_in(&names1, &scenario.capabilities);
    proof {
        assert(opt_map(scenario.events).map_values(|t: Event| EventInjects::refs(t)) =~= event_inject_refs(*scenario));
        assert(opt_map(scenario.injects).map_values(|t: Inject| InjectCapabilities::refs(t)) =~= inject_capability_refs(*scenario));
    }
    (r0, r1)
}

/// The nodes that run one of the given conditions.
pub fn get_nodes_by_conditions(scenario: &Scenario, conditions: &Vec<String>) -> (r: Vec<String>)
    requires
        scenario.wf(),
    ensures
        name_set(r@) == referring(node_condition_refs(*scenario), name_set(conditions@)),
{
    let r0 = refs_to::<Node, NodeConditions>(&scenario.nodes, conditions);
    proof {
        assert(opt_map(scenario.nodes).map_values(|t: Node| NodeConditions::refs(t)) =~= node_condition_refs(*scenario));
    }
    r0
}

/// The features, conditions and vulnerabilities of the given nodes, and their
/// infrastructure entries, each among those the scenario has.
pub fn get_node_connections(scenario: &Scenario, nodes: &Vec<String>) -> (r: (Vec<String>, Vec<String>, Vec<String>, Vec<String>))
    requires
        scenario.wf(),
    ensures
        name_set(r.0@) == refs_among(node_feature_refs(*scenario), name_set(nodes@), opt_keys(scenario.features)),
        name_set(r.1@) == refs_among(node_condition_refs(*scenario), name_set(nodes@), opt_keys(scenario.conditions)),
        name_set(r.2@) == refs_among(node_vulnerability_refs(*scenario), name_set(nodes@), opt_keys(scenario.vulnerabilities)),
        name_set(r.3@) == name_set(nodes@).intersect(opt_keys(scenario.infrastructure)),
{
    let names0 = refs_of::<Node, NodeFeatures>(&scenario.nodes, nodes);
    let r0 = known_in(&names0, &scenario.features);
    let names1 = refs_of::<Node, NodeConditions>(&scenario.nodes, nodes);
    let r1 = known_in(&names1, &scenario.conditions);
    let names2 = refs_of::<Node, NodeVulnerabilities>(&scenario.nodes, nodes);
    let r2 = known_in(&names2, &scenario.vulnerabilities);
    let r3 = known_in(nodes, &scenario.infrastructure);
    proof {
        assert(opt_map(scenario.nodes).map_values(|t: Node| NodeFeatures::refs(t)) =~= node_feature_refs(*scenario));
        assert(opt_map(scenario.nodes).map_values(|t: Node| NodeConditions::refs(t)) =~= node_condition_refs(*scenario));
        assert(opt_map(scenario.nodes).map_values(|t: Node| NodeVulnerabilities::refs(t)) =~= node_vulnerability_refs(*scenario));
    }
    (r0, r1, r2, r3)
}

/// The events that wait for one of the given conditions, and the capabilities that check one.
pub fn get_condition_connections(scenario: &Scenario, conditions: &Vec<String>) -> (r: (Vec<String>, Vec<String>))
    requires
        scenario.wf(),
    ensures
        name_set(r.0@) == referring(event_condition_refs(*scenario), name_set(conditions@)),
        name_set(r.1@) == referring(capability_condition_refs(*scenario), name_set(conditions@)),
{
    let r0 = refs_to::<Event, EventConditions>(&scenario.events, conditions);
    let r1 = refs_to::<Capability, CapabilityCondition>(&scenario.capabilities, conditions);
    proof {
        assert(opt_map(scenario.events).map_values(|t: Event| EventConditions::refs(t)) =~= event_condition_refs(*scenario));
        assert(opt_map(scenario.capabilities).map_values(|t: Capability| CapabilityCondition::refs(t)) =~= capability_condition_refs(*scenario));
    }
    (r0, r1)
}

/// The injects of the given events, among the scenario's, and the scripts that run one of the events.
pub fn get_event_connections(scenario: &Scenario, events: &Vec<String>) -> (r: (Vec<String>, Vec<String>))
    requires
        scenario.wf(),
    ensures
        name_set(r.0@) == refs_among(event_inject_refs(*scenario), name_set(events@), opt_keys(scenario.injects)),
        name_set(r.1@) == referring(script_event_refs(*scenario), name_set(events@)),
{
    let names0 = refs_of::<Event, EventInjects>(&scenario.events, events);
    let r0 = known_in(&names0, &scenario.injects);
    let r1 = refs_to::<Script, ScriptEvents>(&scenario.scripts, events);
    proof {
        assert(opt_map(scenario.events).map_values(|t: Event| EventInjects::refs(t)) =~= event_inject_refs(*scenario));
        assert(opt_map(scenario.scripts).map_values(|t: Script| ScriptEvents::refs(t)) =~= script_event_refs(*scenario));
    }
    (r0, r1)
}

/// The vulnerabilities of the given capabilities, among the scenario's.
pub fn get_vulnerabilities_by_capabilities(scenario: &Scenario, capabilities: &Vec<String>) -> (r: Vec<String>)
    requires
        scenario.wf(),
    ensures
        name_set(r@) == refs_among(capability_vulnerability_refs(*scenario), name_set(capabilities@), opt_keys(scenario.vulnerabilities)),
{
    let names0 = refs_of::<Capability, CapabilityVulnerabilities>(&scenario.capabilities, capabilities);
    let r0 = known_in(&names0, &scenario.vulnerabilities);
    proof {
        assert(opt_map(scenario.capabilities).map_values(|t: Capability| CapabilityVulnerabilities::refs(t)) =~= capability_vulnerability_refs(*scenario));
    }
    r0
}

/// The stories that play one of the given scripts.
pub fn get_stories_by_scripts(scenario: &Scenario, scripts: &Vec<String>) -> (r: Vec<String>)
    requires
        scenario.wf(),
    ensures
        name_set(r@) == referring(story_script_refs(*scenario), name_set(scripts@)),
{
    let r0 = refs_to::<Story, StoryScripts>(&scenario.stories, scripts);
    proof {
        assert(opt_map(scenario.stories).map_values(|t: Story| StoryScripts::refs(t)) =~= story_script_refs(*scenario));
    }
    r0
}

} // verus!
