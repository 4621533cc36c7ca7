//! The view of a scenario that a participant with a given role is shown.

use crate::entities::{
    facts_view, filter_entities_by_role, flatten_entities, flatten_spec, level_facts, with_role,
    names_of, EntityFacts,
};
use crate::names::{lemma_name_set, name_set, NamedMap};
use crate::refs::{
    extend_names, lemma_name_set_concat, opt_keys, opt_map, project, referenced, referenced_names,
    referring, RefField,
};
use crate::scenario::{
    capability_condition_refs, capability_vulnerability_refs, event_condition_refs, event_inject_refs,
    evaluation_metric_refs, feature_vulnerability_refs, get_condition_connections,
    get_conditions_by_capabilities, get_conditions_by_metrics, get_event_connections,
    get_inject_connections, get_metrics_by_evaluations, get_node_connections, get_nodes_by_conditions,
    get_stories_by_scripts, get_tlo_connections, get_tlos_by_goals, get_vulnerabilities_by_capabilities,
    get_vulnerability_connections, goal_tlo_refs, inject_capability_refs, inject_tlo_refs,
    metric_condition_refs, node_condition_refs, node_feature_refs, node_vulnerability_refs, opt_wf,
    node_features, refs_among, script_event_refs, story_script_refs, tlo_evaluation_refs, Entity, ExerciseRole, Scenario,
};
use vstd::prelude::*;

verus! {

struct FlatGoals;

impl RefField<Entity> for FlatGoals {
    open spec fn refs(t: Entity) -> Set<Seq<char>> {
        crate::refs::opt_names(t.goals)
    }

    fn ref_names(t: &Entity) -> (r: Vec<String>) {
        crate::refs::copy_opt_names(&t.goals)
    }
}

struct FlatVulnerabilities;

impl RefField<Entity> for FlatVulnerabilities {
    open spec fn refs(t: Entity) -> Set<Seq<char>> {
        crate::refs::opt_names(t.vulnerabilities)
    }

    fn ref_names(t: &Entity) -> (r: Vec<String>) {
        crate::refs::copy_opt_names(&t.vulnerabilities)
    }
}

/// The goals of the given entities.
pub open spec fn entity_goal_refs(m: Map<Seq<char>, EntityFacts>) -> Map<Seq<char>, Set<Seq<char>>> {
    m.map_values(|f: EntityFacts| names_of(f.goals))
}

/// The vulnerabilities of the given entities.
pub open spec fn entity_vulnerability_refs(m: Map<Seq<char>, EntityFacts>) -> Map<Seq<char>, Set<Seq<char>>> {
    m.map_values(|f: EntityFacts| names_of(f.vulnerabilities))
}

/// The entities of the scenario at every depth, under dotted names.
pub open spec fn scenario_flat_entities(s: Scenario) -> Map<Seq<char>, EntityFacts> {
    match s.entities {
        Some(e) => flatten_spec(e.spec_entries()),
        None => Map::empty(),
    }
}

/// The entities of the scenario at every depth that have the given role.
pub open spec fn flat_entities_with_role(s: Scenario, role: ExerciseRole) -> Map<Seq<char>, EntityFacts> {
    let flat = scenario_flat_entities(s);
    flat.restrict(with_role(flat, role))
}

/// The entities at the top level of the scenario.
pub open spec fn top_entities(s: Scenario) -> Map<Seq<char>, EntityFacts> {
    match s.entities {
        Some(e) => level_facts(e.spec_entries()),
        None => Map::empty(),
    }
}

/// The entities at the top level of the scenario that have the given role.
pub open spec fn top_entities_with_role(s: Scenario, role: ExerciseRole) -> Map<Seq<char>, EntityFacts> {
    top_entities(s).restrict(with_role(top_entities(s), role))
}

/// Entities at any depth that have the given role, under their dotted names.
pub fn get_flattened_entities_by_role(scenario: &Scenario, role: ExerciseRole) -> (r: NamedMap<Entity>)
    ensures
        r.wf(),
        facts_view(r) == flat_entities_with_role(*scenario, role),
{
    match &scenario.entities {
        Some(entities) => {
            let flat = flatten_entities(entities);
            filter_entities_by_role(flat, role)
        },
        None => {
            let r = NamedMap::new();
            proof {
                assert(facts_view(r) =~= Map::<Seq<char>, EntityFacts>::empty());
                assert(flat_entities_with_role(*scenario, role) =~= Map::<Seq<char>, EntityFacts>::empty());
            }
            r
        },
    }
}

/// The top-level entities that have the given role, under their names.
pub fn get_entities_by_role(scenario: &Scenario, role: ExerciseRole) -> (r: NamedMap<Entity>)
    ensures
        r.wf(),
        facts_view(r) == top_entities_with_role(*scenario, role),
{
    match &scenario.entities {
        Some(entities) => {
            let level = crate::entities::level_map_of(entities.entries());
            filter_entities_by_role(level, role)
        },
        None => {
            let r = NamedMap::new();
            proof {
                assert(facts_view(r) =~= Map::<Seq<char>, EntityFacts>::empty());
                assert(top_entities_with_role(*scenario, role) =~= Map::<Seq<char>, EntityFacts>::empty());
            }
            r
        },
    }
}

/// The vulnerabilities of the given entities, among the scenario's.
pub fn get_entity_vulnerabilitites(scenario: &Scenario, entities: &NamedMap<Entity>) -> (r: Vec<String>)
    requires
        scenario.wf(),
        entities.wf(),
    ensures
        name_set(r@) == referenced(
            entity_vulnerability_refs(facts_view(*entities)),
            facts_view(*entities).dom(),
        ).intersect(opt_keys(scenario.vulnerabilities)),
{
    let p = project::<Entity, FlatVulnerabilities>(entities);
    let keys = entities.keys();
    let names = referenced_names(&p, &keys);
    proof {
        assert(crate::refs::refs_view(p) =~= entity_vulnerability_refs(facts_view(*entities)));
    }
    known_in_scenario(&names, &scenario.vulnerabilities)
}

/// The goals of the given entities, among the scenario's.
pub fn get_goals_by_entities(scenario: &Scenario, entities: &NamedMap<Entity>) -> (r: Vec<String>)
    requires
        scenario.wf(),
        entities.wf(),
    ensures
        name_set(r@) == referenced(
            entity_goal_refs(facts_view(*entities)),
            facts_view(*entities).dom(),
        ).intersect(opt_keys(scenario.goals)),
{
    let p = project::<Entity, FlatGoals>(entities);
    let keys = entities.keys();
    let names = referenced_names(&p, &keys);
    proof {
        assert(crate::refs::refs_view(p) =~= entity_goal_refs(facts_view(*entities)));
    }
    known_in_scenario(&names, &scenario.goals)
}

fn known_in_scenario<V>(names: &Vec<String>, m: &Option<NamedMap<V>>) -> (r: Vec<String>)
    requires
        opt_wf(*m),
    ensures
        name_set(r@) == name_set(names@).intersect(opt_keys(*m)),
{
    match m {
        Some(m) => crate::refs::known_names(names, m),
        None => {
            let r = Vec::new();
            proof {
                assert(name_set(r@) =~= name_set(names@).intersect(Set::<Seq<char>>::empty()));
            }
            r
        },
    }
}

/// The elements of each kind that a participant is shown, by name.
pub struct RoleSelection {
    /// Whether some entity at any depth has the role; if none has, nothing is shown.
    pub visible: bool,
    pub capabilities: Set<Seq<char>>,
    pub conditions: Set<Seq<char>>,
    pub entities: Set<Seq<char>>,
    pub evaluations: Set<Seq<char>>,
    pub events: Set<Seq<char>>,
    pub features: Set<Seq<char>>,
    pub goals: Set<Seq<char>>,
    pub infrastructure: Set<Seq<char>>,
    pub injects: Set<Seq<char>>,
    pub metrics: Set<Seq<char>>,
    pub nodes: Set<Seq<char>>,
    pub scripts: Set<Seq<char>>,
    pub stories: Set<Seq<char>>,
    pub tlos: Set<Seq<char>>,
    pub vulnerabilities: Set<Seq<char>>,
}

/// What a participant with `role` is shown of scenario `s`.
///
/// Starting from the entities that have the role (at any depth), the selection
/// follows references: their vulnerabilities and goals; what carries those
/// vulnerabilities; the conditions that capabilities and metrics check; the
/// objectives, injects, evaluations and metrics of the goals; the nodes that run
/// a selected condition; the features, conditions, vulnerabilities and
/// infrastructure of the selected nodes; the events and capabilities tied to the
/// conditions; the injects and scripts of the events; the stories of the
/// scripts; and the vulnerabilities of all selected capabilities.
pub open spec fn role_selection(s: Scenario, role: ExerciseRole) -> RoleSelection {
    let flat = flat_entities_with_role(s, role);
    let v0 = referenced(entity_vulnerability_refs(flat), flat.dom()).intersect(opt_keys(s.vulnerabilities));
    let c0 = referring(capability_vulnerability_refs(s), v0);
    let f0 = referring(feature_vulnerability_refs(s), v0);
    let n0 = referring(node_vulnerability_refs(s), v0);
    let k0 = refs_among(capability_condition_refs(s), c0, opt_keys(s.conditions));
    let g = referenced(entity_goal_refs(flat), flat.dom()).intersect(opt_keys(s.goals));
    let t = refs_among(goal_tlo_refs(s), g, opt_keys(s.tlos));
    let i0 = referring(inject_tlo_refs(s), t);
    let e = refs_among(tlo_evaluation_refs(s), t, opt_keys(s.evaluations));
    let m = refs_among(evaluation_metric_refs(s), e, opt_keys(s.metrics));
    let k1 = k0.union(refs_among(metric_condition_refs(s), m, opt_keys(s.conditions)));
    let ev0 = referring(event_inject_refs(s), i0);
    let c1 = c0.union(refs_among(inject_capability_refs(s), i0, opt_keys(s.capabilities)));
    let n1 = n0.union(referring(node_condition_refs(s), k1));
    let f1 = f0.union(refs_among(node_feature_refs(s), n1, opt_keys(s.features)));
    let k2 = k1.union(refs_among(node_condition_refs(s), n1, opt_keys(s.conditions)));
    let v1 = v0.union(refs_among(node_vulnerability_refs(s), n1, opt_keys(s.vulnerabilities)));
    let inf = n1.intersect(opt_keys(s.infrastructure));
    let ev1 = ev0.union(referring(event_condition_refs(s), k2));
    let c2 = c1.union(referring(capability_condition_refs(s), k2));
    let i1 = i0.union(refs_among(event_inject_refs(s), ev1, opt_keys(s.injects)));
    let sc = referring(script_event_refs(s), ev1);
    let st = referring(story_script_refs(s), sc);
    let v2 = v1.union(refs_among(capability_vulnerability_refs(s), c2, opt_keys(s.vulnerabilities)));
    RoleSelection {
        visible: flat.dom() != Set::<Seq<char>>::empty(),
        capabilities: c2,
        conditions: k2,
        entities: with_role(top_entities(s), role),
        evaluations: e,
        events: ev1,
        features: f1,
        goals: g,
        infrastructure: inf,
        injects: i1,
        metrics: m,
        nodes: n1,
        scripts: sc,
        stories: st,
        tlos: t,
        vulnerabilities: v2,
    }
}

/// What a participant is shown is closed under the references the filter
/// follows: the features, conditions, vulnerabilities and infrastructure of every
/// shown node, the injects of every shown event, the events of every shown
/// condition, the scripts of every shown event and the stories of every shown
/// script are shown too (as far as the scenario defines them).
pub proof fn lemma_role_selection_follows_references(s: Scenario, role: ExerciseRole)
    ensures
        refs_among(node_feature_refs(s), role_selection(s, role).nodes, opt_keys(s.features)).subset_of(
            role_selection(s, role).features,
        ),
        refs_among(node_condition_refs(s), role_selection(s, role).nodes, opt_keys(s.conditions)).subset_of(
            role_selection(s, role).conditions,
        ),
        refs_among(node_vulnerability_refs(s), role_selection(s, role).nodes, opt_keys(s.vulnerabilities)).subset_of(
            role_selection(s, role).vulnerabilities,
        ),
        role_selection(s, role).nodes.intersect(opt_keys(s.infrastructure)).subset_of(
            role_selection(s, role).infrastructure,
        ),
        refs_among(event_inject_refs(s), role_selection(s, role).events, opt_keys(s.injects)).subset_of(
            role_selection(s, role).injects,
        ),
        referring(event_condition_refs(s), role_selection(s, role).conditions).subset_of(
            role_selection(s, role).events,
        ),
        referring(script_event_refs(s), role_selection(s, role).events).subset_of(role_selection(s, role).scripts),
        referring(story_script_refs(s), role_selection(s, role).scripts).subset_of(role_selection(s, role).stories),
{
}

/// The elements of `unfiltered` that a selection keeps; no map when none is kept.
pub open spec fn shown<T>(kept: Option<NamedMap<T>>, unfiltered: Option<NamedMap<T>>, selected: Set<Seq<char>>) -> bool {
    &&& opt_wf(kept)
    &&& opt_map(kept) == opt_map(unfiltered).restrict(selected)
    &&& (kept is Some <==> opt_map(unfiltered).restrict(selected) != Map::<Seq<char>, T>::empty())
}

/// Keeps the selected elements of an optional map, or none at all.
fn keep_selected<T>(m: Option<NamedMap<T>>, selected: &Vec<String>) -> (r: Option<NamedMap<T>>)
    requires
        opt_wf(m),
    ensures
        shown(r, m, name_set(selected@)),
{
    match m {
        Some(m) => {
            let kept = m.restrict(selected);
            if kept.is_empty() {
                None
            } else {
                Some(kept)
            }
        },
        None => {
            proof {
                assert(opt_map(None::<NamedMap<T>>).restrict(name_set(selected@)) =~= Map::<Seq<char>, T>::empty());
            }
            None
        },
    }
}

/// The scenario with its name and description and nothing else.
pub fn set_optionals_to_none(scenario: Scenario) -> (r: Scenario)
    ensures
        r.name == scenario.name,
        r.description == scenario.description,
        r.wf(),
        r.nodes is None && r.features is None && r.infrastructure is None && r.conditions is None
            && r.vulnerabilities is None && r.metrics is None && r.evaluations is None && r.tlos is None
            && r.entities is None && r.goals is None && r.injects is None && r.events is None
            && r.scripts is None && r.stories is None && r.capabilities is None,
{
    Scenario {
        name: scenario.name,
        description: scenario.description,
        nodes: None,
        features: None,
        infrastructure: None,
        conditions: None,
        vulnerabilities: None,
        metrics: None,
        evaluations: None,
        tlos: None,
        entities: None,
        goals: None,
        injects: None,
        events: None,
        scripts: None,
        stories: None,
        capabilities: None,
    }
}

fn union_names(a: Vec<String>, b: &Vec<String>) -> (r: Vec<String>)
    ensures
        name_set(r@) == name_set(a@).union(name_set(b@)),
{
    let mut r = a;
    let ghost a0 = r@;
    extend_names(&mut r, b);
    proof {
        lemma_name_set_concat(a0, b@);
    }
    r
}

/// The scenario as a participant with `role` is shown it: its name and
/// description, and of every kind of element the selected ones (see
/// `role_selection`); a kind of which nothing is selected is left out.
pub fn filter_scenario_by_role(scenario: Scenario, role: ExerciseRole) -> (r: Scenario)
    requires
        scenario.wf(),
    ensures
        r.wf(),
        r.name == scenario.name,
        r.description == scenario.description,
        !role_selection(scenario, role).visible ==> r == set_optionals_to_none_spec(scenario),
        role_selection(scenario, role).visible ==> {
            let sel = role_selection(scenario, role);
            &&& shown(r.capabilities, scenario.capabilities, sel.capabilities)
            &&& shown(r.conditions, scenario.conditions, sel.conditions)
            &&& shown(r.entities, scenario.entities, sel.entities)
            &&& shown(r.evaluations, scenario.evaluations, sel.evaluations)
            &&& shown(r.events, scenario.events, sel.events)
            &&& shown(r.features, scenario.features, sel.features)
            &&& shown(r.goals, scenario.goals, sel.goals)
            &&& shown(r.infrastructure, scenario.infrastructure, sel.infrastructure)
            &&& shown(r.injects, scenario.injects, sel.injects)
            &&& shown(r.metrics, scenario.metrics, sel.metrics)
            &&& shown(r.nodes, scenario.nodes, sel.nodes)
            &&& shown(r.scripts, scenario.scripts, sel.scripts)
            &&& shown(r.stories, scenario.stories, sel.stories)
            &&& shown(r.tlos, scenario.tlos, sel.tlos)
            &&& shown(r.vulnerabilities, scenario.vulnerabilities, sel.vulnerabilities)
        },
        forall|k: Seq<char>, f: Seq<char>|
            #![trigger opt_map(r.nodes)[k], opt_keys(scenario.features).contains(f)]
            opt_map(r.nodes).dom().contains(k) && node_features(opt_map(r.nodes)[k]).contains(f) && opt_keys(
                scenario.features,
            ).contains(f) ==> opt_keys(r.features).contains(f),
{
    let ghost sel = role_selection(scenario, role);
    let flattened_entities = get_flattened_entities_by_role(&scenario, role);
    if flattened_entities.is_empty() {
        proof {
            assert(flat_entities_with_role(scenario, role).dom() =~= Set::<Seq<char>>::empty());
        }
        return set_optionals_to_none(scenario);
    }
    proof {
        if flat_entities_with_role(scenario, role).dom() == Set::<Seq<char>>::empty() {
            assert(facts_view(flattened_entities) =~= Map::<Seq<char>, EntityFacts>::empty());
            assert(flattened_entities@ =~= Map::<Seq<char>, Entity>::empty());
        }
    }
    let vulnerabilities = get_entity_vulnerabilitites(&scenario, &flattened_entities);
    let (capabilities, features, nodes) = get_vulnerability_connections(&scenario, &vulnerabilities);
    let conditions = get_conditions_by_capabilities(&scenario, &capabilities);
    let goals = get_goals_by_entities(&scenario, &flattened_entities);
    let tlos = get_tlos_by_goals(&scenario, &goals);
    let (injects, evaluations) = get_tlo_connections(&scenario, &tlos);
    let metrics = get_metrics_by_evaluations(&scenario, &evaluations);
    let metric_conditions = get_conditions_by_metrics(&scenario, &metrics);
    let conditions = union_names(conditions, &metric_conditions);
    let (events, inject_capabilities) = get_inject_connections(&scenario, &injects);
    let capabilities = union_names(capabilities, &inject_capabilities);
    let condition_nodes = get_nodes_by_conditions(&scenario, &conditions);
    let nodes = union_names(nodes, &condition_nodes);
    let (node_features, node_conditions, node_vulnerabilities, infrastructure) = get_node_connections(
        &scenario,
        &nodes,
    );
    let features = union_names(features, &node_features);
    let conditions = union_names(conditions, &node_conditions);
    let vulnerabilities = union_names(vulnerabilities, &node_vulnerabilities);
    let (condition_events, condition_capabilities) = get_condition_connections(&scenario, &conditions);
    let events = union_names(events, &condition_events);
    let capabilities = union_names(capabilities, &condition_capabilities);
    let (event_injects, scripts) = get_event_connections(&scenario, &events);
    let injects = union_names(injects, &event_injects);
    let stories = get_stories_by_scripts(&scenario, &scripts);
    let capability_vulnerabilities = get_vulnerabilities_by_capabilities(&scenario, &capabilities);
    let vulnerabilities = union_names(vulnerabilities, &capability_vulnerabilities);
    let role_entities = get_entities_by_role(&scenario, role);
    let entities = role_entities.keys();
    proof {
        assert(facts_view(role_entities).dom() == role_entities@.dom());
        assert(name_set(entities@) =~= with_role(top_entities(scenario), role));
    }
    let ghost orig = scenario;
    let Scenario {
        name,
        description,
        nodes: s_nodes,
        features: s_features,
        infrastructure: s_infrastructure,
        conditions: s_conditions,
        vulnerabilities: s_vulnerabilities,
        metrics: s_metrics,
        evaluations: s_evaluations,
        tlos: s_tlos,
        entities: s_entities,
        goals: s_goals,
        injects: s_injects,
        events: s_events,
        scripts: s_scripts,
        stories: s_stories,
        capabilities: s_capabilities,
    } = scenario;
    let r = Scenario {
        name,
        description,
        capabilities: keep_selected(s_capabilities, &capabilities),
        conditions: keep_selected(s_conditions, &conditions),
        entities: keep_selected(s_entities, &entities),
        evaluations: keep_selected(s_evaluations, &evaluations),
        events: keep_selected(s_events, &events),
        features: keep_selected(s_features, &features),
        goals: keep_selected(s_goals, &goals),
        infrastructure: keep_selected(s_infrastructure, &infrastructure),
        injects: keep_selected(s_injects, &injects),
        metrics: keep_selected(s_metrics, &metrics),
        nodes: keep_selected(s_nodes, &nodes),
        scripts: keep_selected(s_scripts, &scripts),
        stories: keep_selected(s_stories, &stories),
        tlos: keep_selected(s_tlos, &tlos),
        vulnerabilities: keep_selected(s_vulnerabilities, &vulnerabilities),
    };
    proof {
        assert(facts_view(flattened_entities) == flat_entities_with_role(orig, role));
        lemma_role_selection_follows_references(orig, role);
        assert forall|k: Seq<char>, f: Seq<char>|
            #![trigger opt_map(r.nodes)[k], opt_keys(orig.features).contains(f)]
            opt_map(r.nodes).dom().contains(k) && crate::scenario::node_features(opt_map(r.nodes)[k]).contains(f) && opt_keys(
                orig.features,
            ).contains(f) implies opt_keys(r.features).contains(f) by {
            assert(node_feature_refs(orig).dom().contains(k));
            assert(node_feature_refs(orig)[k].contains(f));
            assert(refs_among(node_feature_refs(orig), sel.nodes, opt_keys(orig.features)).contains(f));
            assert(opt_map(orig.features).restrict(sel.features).dom().contains(f));
        }
        assert(r.wf()) by {
            if let Some(n) = r.nodes {
                assert forall|k| #[trigger] n@.dom().contains(k) implies n@[k].wf() by {
                    assert(orig.nodes.unwrap()@.dom().contains(k));
                }
            }
        }
    }
    r
}

/// The scenario with its name and description and nothing else.
pub open spec fn set_optionals_to_none_spec(s: Scenario) -> Scenario {
    Scenario {
        name: s.name,
        description: s.description,
        nodes: None,
        features: None,
        infrastructure: None,
        conditions: None,
        vulnerabilities: None,
        metrics: None,
        evaluations: None,
        tlos: None,
        entities: None,
        goals: None,
        injects: None,
        events: None,
        scripts: None,
        stories: None,
        capabilities: None,
    }
}

/// A participant is never shown more than the scenario holds: every map of a
/// filtered scenario holds only entries of the unfiltered one, unchanged.
pub proof fn lemma_shown_is_part_of_unfiltered<T>(
    kept: Option<NamedMap<T>>,
    unfiltered: Option<NamedMap<T>>,
    selected: Set<Seq<char>>,
)
    requires
        shown(kept, unfiltered, selected),
    ensures
        opt_map(kept).submap_of(opt_map(unfiltered)),
        opt_map(kept).dom().subset_of(selected),
{
}

} // verus!
