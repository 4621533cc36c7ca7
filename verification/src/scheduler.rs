//! The order in which nodes and features of a scenario are deployed.

use crate::names::{lemma_name_set, name_set, view_names, NamedMap};
use crate::refs::copy_names;
use crate::scenario::{Feature, InfraNode, Node, Scenario};
use crate::text::{append_decimal, decimal};
use vstd::prelude::*;

verus! {

/// Produces deployment schedules.
pub struct Scheduler;

impl Scheduler {
    pub fn new() -> Self {
        Scheduler
    }
}

/// One instance of a node to deploy: its own name and the name of the node it instantiates.
pub struct ScheduledNode {
    pub name: String,
    pub node_name: String,
}

/// Why no schedule could be made.
#[derive(Debug)]
pub enum ScheduleError {
    /// The dependencies could not be ordered (a missing element or a cycle).
    Dependencies(String),
    /// A scheduled node has infrastructure but no node definition.
    NodeValueMissing,
    /// A scheduled feature has no definition.
    FeatureValueMissing,
}

/// The name of the `n`-th instance of a node deployed `count` times: the node's
/// own name when it is deployed at most once, else the name and the index.
pub open spec fn node_instance_name(node_name: Seq<char>, count: nat, n: nat) -> Seq<char> {
    if count <= 1 {
        node_name
    } else {
        node_name + seq!['-'] + decimal(n)
    }
}

pub open spec fn scheduled_view(s: ScheduledNode) -> (Seq<char>, Seq<char>) {
    (s.name@, s.node_name@)
}

pub open spec fn tranche_view(t: Vec<ScheduledNode>) -> Seq<(Seq<char>, Seq<char>)> {
    t@.map_values(|s: ScheduledNode| scheduled_view(s))
}

/// The instances of a node deployed `count` times, in order.
pub open spec fn expand_node(node_name: Seq<char>, count: nat) -> Seq<(Seq<char>, Seq<char>)> {
    Seq::new(count, |n: int| (node_instance_name(node_name, count, n as nat), node_name))
}

/// The instances that a tranche of node names deploys: every node that has an
/// infrastructure entry, as many times as the entry says; other names deploy nothing.
pub open spec fn tranche_schedule(tranche: Seq<Seq<char>>, infrastructure: Map<Seq<char>, InfraNode>) -> Seq<
    (Seq<char>, Seq<char>),
>
    decreases tranche.len(),
{
    if tranche.len() == 0 {
        Seq::empty()
    } else {
        let name = tranche.last();
        tranche_schedule(tranche.drop_last(), infrastructure) + if infrastructure.dom().contains(name) {
            expand_node(name, infrastructure[name].count as nat)
        } else {
            Seq::empty()
        }
    }
}

/// Whether some tranche names a node that has infrastructure but no definition.
pub open spec fn node_definition_missing(
    tranches: Seq<Vec<String>>,
    infrastructure: Map<Seq<char>, InfraNode>,
    nodes: Map<Seq<char>, Node>,
) -> bool {
    exists|i: int, j: int|
        #![trigger tranches[i]@[j]]
        0 <= i < tranches.len() && 0 <= j < tranches[i]@.len() && infrastructure.dom().contains(
            tranches[i]@[j]@,
        ) && !nodes.dom().contains(tranches[i]@[j]@)
}

impl CreateDeploymentSchedule {
    /// The name of the `count`-th instance of `node_name`.
    pub fn create_node_name(infra_node: &InfraNode, node_name: String, count: u32) -> (r: String)
        ensures
            r@ == node_instance_name(node_name@, infra_node.count as nat, count as nat),
    {
        if infra_node.count <= 1 {
            node_name
        } else {
            let mut name = node_name;
            name.append("-");
            append_decimal(&mut name, count);
            proof {
                reveal_strlit("-");
            }
            name
        }
    }
}

/// Asks for the node deployment schedule of a scenario.
pub struct CreateDeploymentSchedule(pub Scenario);

/// Asks for the feature deployment schedule of a scenario for one of its nodes.
pub struct CreateFeatureDeploymentSchedule(pub Scenario, pub Node);

fn schedule_tranche(
    tranche: &Vec<String>,
    infrastructure: &NamedMap<InfraNode>,
    nodes: &NamedMap<Node>,
) -> (r: Result<Vec<ScheduledNode>, ScheduleError>)
    requires
        infrastructure.wf(),
        nodes.wf(),
    ensures
        r is Err <==> exists|j: int|
            #![trigger tranche@[j]]
            0 <= j < tranche@.len() && infrastructure@.dom().contains(tranche@[j]@) && !nodes@.dom().contains(
                tranche@[j]@,
            ),
        r matches Err(e) ==> e is NodeValueMissing,
        r matches Ok(t) ==> tranche_view(t) == tranche_schedule(view_names(tranche@), infrastructure@),
{
    let mut new_tranche: Vec<ScheduledNode> = Vec::new();
    let mut i: usize = 0;
    while i < tranche.len()
        invariant
            infrastructure.wf(),
            nodes.wf(),
            i <= tranche@.len(),
            tranche_view(new_tranche) == tranche_schedule(view_names(tranche@).take(i as int), infrastructure@),
            forall|j: int|
                #![trigger tranche@[j]]
                0 <= j < i ==> !(infrastructure@.dom().contains(tranche@[j]@) && !nodes@.dom().contains(
                    tranche@[j]@,
                )),
        decreases tranche@.len() - i,
    {
        let node_name = &tranche[i];
        let ghost prefix = view_names(tranche@).take(i as int);
        proof {
            assert(view_names(tranche@).take(i + 1).drop_last() =~= prefix);
            assert(view_names(tranche@).take(i + 1).last() == node_name@);
        }
        match infrastructure.get(node_name) {
            Some(infra_value) => {
                if !nodes.contains_key(node_name) {
                    return Err(ScheduleError::NodeValueMissing);
                }
                let ghost base = tranche_view(new_tranche);
                let mut n: u32 = 0;
                while n < infra_value.count
                    invariant
                        n <= infra_value.count,
                        tranche_view(new_tranche) == base + expand_node(node_name@, infra_value.count as nat).take(
                            n as int,
                        ),
                    decreases infra_value.count - n,
                {
                    let name = CreateDeploymentSchedule::create_node_name(infra_value, node_name.clone(), n);
                    let ghost before = new_tranche@;
                    new_tranche.push(ScheduledNode { name, node_name: node_name.clone() });
                    proof {
                        let e = expand_node(node_name@, infra_value.count as nat);
                        assert(e[n as int] == scheduled_view(new_tranche@.last()));
                        assert(new_tranche@ == before.push(new_tranche@.last()));
                        assert(tranche_view(new_tranche) =~= before.map_values(|s: ScheduledNode| scheduled_view(s)).push(e[n as int]));
                        assert(e.take(n + 1) =~= e.take(n as int).push(e[n as int]));
                        assert(tranche_view(new_tranche) =~= base + e.take(n + 1));
                    }
                    n = n + 1;
                }
                proof {
                    assert(expand_node(node_name@, infra_value.count as nat).take(n as int) =~= expand_node(
                        node_name@,
                        infra_value.count as nat,
                    ));
                }
            },
            None => {
                proof {
                    assert(tranche_schedule(view_names(tranche@).take(i + 1), infrastructure@) =~= tranche_schedule(
                        prefix,
                        infrastructure@,
                    ));
                }
            },
        }
        i = i + 1;
    }
    proof {
        assert(view_names(tranche@).take(i as int) =~= view_names(tranche@));
    }
    Ok(new_tranche)
}

/// The node instances to deploy, tranche by tranche, for the given dependency tranches.
pub fn schedule_node_tranches(
    tranches: &Vec<Vec<String>>,
    infrastructure: &NamedMap<InfraNode>,
    nodes: &NamedMap<Node>,
) -> (r: Result<Vec<Vec<ScheduledNode>>, ScheduleError>)
    requires
        infrastructure.wf(),
        nodes.wf(),
    ensures
        r is Err <==> node_definition_missing(tranches@, infrastructure@, nodes@),
        r matches Err(e) ==> e is NodeValueMissing,
        r matches Ok(s) ==> s@.len() == tranches@.len() && forall|i: int|
            0 <= i < s@.len() ==> #[trigger] tranche_view(s@[i]) == tranche_schedule(
                view_names(tranches@[i]@),
                infrastructure@,
            ),
{
    let mut node_deployments: Vec<Vec<ScheduledNode>> = Vec::new();
    let mut i: usize = 0;
    while i < tranches.len()
        invariant
            infrastructure.wf(),
            nodes.wf(),
            i <= tranches@.len(),
            node_deployments@.len() == i,
            forall|k: int|
                0 <= k < i ==> #[trigger] tranche_view(node_deployments@[k]) == tranche_schedule(
                    view_names(tranches@[k]@),
                    infrastructure@,
                ),
            forall|k: int, j: int|
                #![trigger tranches@[k]@[j]]
                0 <= k < i && 0 <= j < tranches@[k]@.len() ==> !(infrastructure@.dom().contains(
                    tranches@[k]@[j]@,
                ) && !nodes@.dom().contains(tranches@[k]@[j]@)),
        decreases tranches@.len() - i,
    {
        match schedule_tranche(&tranches[i], infrastructure, nodes) {
            Ok(t) => {
                node_deployments.push(t);
            },
            Err(e) => {
                proof {
                    let j = choose|j: int|
                        #![trigger tranches@[i as int]@[j]]
                        0 <= j < tranches@[i as int]@.len() && infrastructure@.dom().contains(
                            tranches@[i as int]@[j]@,
                        ) && !nodes@.dom().contains(tranches@[i as int]@[j]@);
                    assert(node_definition_missing(tranches@, infrastructure@, nodes@)) by {
                        assert(tranches@[i as int]@[j] == tranches@[i as int]@[j]);
                    }
                }
                return Err(e);
            },
        }
        i = i + 1;
    }
    Ok(node_deployments)
}

/// The features to deploy, tranche by tranche: the tranches themselves, provided
/// every name in them is a feature of the scenario.
pub fn schedule_feature_tranches(tranches: &Vec<Vec<String>>, features: &NamedMap<Feature>) -> (r: Result<
    Vec<Vec<String>>,
    ScheduleError,
>)
    requires
        features.wf(),
    ensures
        r is Err <==> exists|i: int, j: int|
            #![trigger tranches@[i]@[j]]
            0 <= i < tranches@.len() && 0 <= j < tranches@[i]@.len() && !features@.dom().contains(
                tranches@[i]@[j]@,
            ),
        r matches Err(e) ==> e is FeatureValueMissing,
        r matches Ok(s) ==> s@.len() == tranches@.len() && forall|i: int|
            0 <= i < s@.len() ==> #[trigger] s@[i]@ == tranches@[i]@,
{
    let mut feature_deployments: Vec<Vec<String>> = Vec::new();
    let mut i: usize = 0;
    while i < tranches.len()
        invariant
            features.wf(),
            i <= tranches@.len(),
            feature_deployments@.len() == i,
            forall|k: int| 0 <= k < i ==> #[trigger] feature_deployments@[k]@ == tranches@[k]@,
            forall|k: int, j: int|
                #![trigger tranches@[k]@[j]]
                0 <= k < i && 0 <= j < tranches@[k]@.len() ==> features@.dom().contains(tranches@[k]@[j]@),
        decreases tranches@.len() - i,
    {
        let tranche = &tranches[i];
        let mut j: usize = 0;
        while j < tranche.len()
            invariant
                features.wf(),
                i < tranches@.len(),
                *tranche == tranches@[i as int],
                j <= tranche@.len(),
                forall|l: int| 0 <= l < j ==> features@.dom().contains(#[trigger] tranche@[l]@),
            decreases tranche@.len() - j,
        {
            if !features.contains_key(&tranche[j]) {
                proof {
                    assert(tranches@[i as int]@[j as int] == tranche@[j as int]);
                }
                return Err(ScheduleError::FeatureValueMissing);
            }
            j = j + 1;
        }
        feature_deployments.push(copy_names(tranche));
        i = i + 1;
    }
    Ok(feature_deployments)
}

/// The names that some tranche holds.
pub open spec fn tranche_names(tranches: Seq<Seq<Seq<char>>>) -> Set<Seq<char>> {
    Set::new(|x: Seq<char>| exists|k: int| 0 <= k < tranches.len() && #[trigger] tranches[k].contains(x))
}

/// Whether `tranches` orders the elements of `dependencies`: every element lies in
/// exactly one tranche and once there, and every dependency of an element lies in
/// an earlier tranche.
pub open spec fn valid_tranching(tranches: Seq<Seq<Seq<char>>>, dependencies: Map<Seq<char>, Set<Seq<char>>>) -> bool {
    &&& tranche_names(tranches) == dependencies.dom()
    &&& forall|k: int| 0 <= k < tranches.len() ==> (#[trigger] tranches[k]).no_duplicates()
    &&& forall|k1: int, k2: int, x: Seq<char>|
        0 <= k1 < tranches.len() && 0 <= k2 < tranches.len() && #[trigger] tranches[k1].contains(x)
            && #[trigger] tranches[k2].contains(x) ==> k1 == k2
    &&& forall|k: int, x: Seq<char>, d: Seq<char>|
        0 <= k < tranches.len() && #[trigger] tranches[k].contains(x) && #[trigger] dependencies[x].contains(d)
            ==> exists|k2: int| 0 <= k2 < k && #[trigger] tranches[k2].contains(d)
}

/// Whether `tranches` is the layering of `dependencies`: a valid tranching in
/// which no tranche is empty and every element of a later tranche depends on an
/// element of the tranche just before it (so each element comes as early as its
/// dependencies allow).
pub open spec fn layered(tranches: Seq<Seq<Seq<char>>>, dependencies: Map<Seq<char>, Set<Seq<char>>>) -> bool {
    &&& valid_tranching(tranches, dependencies)
    &&& forall|k: int| 0 <= k < tranches.len() ==> #[trigger] tranches[k].len() > 0
    &&& forall|k: int, x: Seq<char>|
        0 < k < tranches.len() && #[trigger] tranches[k].contains(x) ==> exists|d: Seq<char>|
            #[trigger] dependencies[x].contains(d) && tranches[k - 1].contains(d)
}

/// Whether some element depends on a name that is not an element.
pub open spec fn dependency_missing(dependencies: Map<Seq<char>, Set<Seq<char>>>) -> bool {
    exists|x: Seq<char>, d: Seq<char>|
        dependencies.dom().contains(x) && #[trigger] dependencies[x].contains(d) && !dependencies.dom().contains(d)
}

pub open spec fn tranches_view(tranches: Seq<Vec<String>>) -> Seq<Seq<Seq<char>>> {
    tranches.map_values(|t: Vec<String>| view_names(t@))
}

pub open spec fn dependency_sets(elements: Map<Seq<char>, Vec<String>>) -> Map<Seq<char>, Set<Seq<char>>> {
    elements.map_values(|d: Vec<String>| name_set(d@))
}

#[verifier::external_type_specification]
#[verifier::external_body]
pub struct ExDependenciesBuilder(depper::DependenciesBuilder);

#[verifier::external_type_specification]
#[verifier::external_body]
pub struct ExDependencies(depper::Dependencies);

/// The elements a `depper::DependenciesBuilder` holds, each with the
/// dependencies it was last given.
pub uninterp spec fn builder_elements(b: depper::DependenciesBuilder) -> Map<Seq<char>, Seq<Seq<char>>>;

/// Every dependency ever given to a `depper::DependenciesBuilder`, also those
/// of an element that was given again.
pub uninterp spec fn builder_required(b: depper::DependenciesBuilder) -> Set<Seq<char>>;

/// The elements of a built `depper::Dependencies`, each with its dependencies.
pub uninterp spec fn built_elements(d: depper::Dependencies) -> Map<Seq<char>, Seq<Seq<char>>>;

/// Whether the graph of a `depper::DependenciesBuilder` holds no edges yet: so
/// for a new builder, and kept by `add_element`; `build` leaves edges in it.
pub uninterp spec fn builder_unlinked(b: depper::DependenciesBuilder) -> bool;

/// Whether the elements can be ordered: every dependency is an element and
/// there is no cycle, so some tranching orders them.
pub open spec fn orderable(elements: Map<Seq<char>, Seq<Seq<char>>>) -> bool {
    exists|t: Seq<Seq<Seq<char>>>| valid_tranching(t, dependency_sets_of(elements))
}

/// `depper::Dependencies::builder` makes an empty builder.
pub assume_specification[ depper::Dependencies::builder ]() -> (fresh: depper::DependenciesBuilder)
    ensures
        builder_elements(fresh) =~= Map::empty(),
        builder_required(fresh) =~= Set::empty(),
        builder_unlinked(fresh),
;

/// `depper::DependenciesBuilder::add_element`: the element is recorded with the
/// given dependencies (replacing those it had), and the dependencies are added
/// to the ones the builder requires.
#[verifier::external_body]
fn add_dependency_element(builder: depper::DependenciesBuilder, name: String, dependencies: Vec<String>) -> (r:
    depper::DependenciesBuilder)
    ensures
        builder_elements(r) == builder_elements(builder).insert(name@, view_names(dependencies@)),
        builder_required(r) == builder_required(builder).union(name_set(dependencies@)),
        builder_unlinked(r) == builder_unlinked(builder),
{
    builder.add_element(name, dependencies)
}

/// `depper::DependenciesBuilder::build`: refused when a required dependency is
/// not an element; what it builds holds the builder's elements, with every
/// dependency an element and no cycle (the source checks both before building).
/// On a builder that was never built, it succeeds when every required
/// dependency is an element and the elements can be ordered (then the graph it
/// checks has no cycle). Not stated: whether the builder's graph is left
/// without edges.
#[verifier::external_body]
fn build_dependencies(builder: &mut depper::DependenciesBuilder) -> (r: Result<depper::Dependencies, anyhow::Error>)
    ensures
        builder_elements(*final(builder)) == builder_elements(*old(builder)),
        builder_required(*final(builder)) == builder_required(*old(builder)),
        (builder_unlinked(*old(builder)) && (forall|d: Seq<char>|
            #[trigger] builder_required(*old(builder)).contains(d) ==> builder_elements(*old(builder)).dom().contains(
                d,
            )) && orderable(builder_elements(*old(builder)))) ==> r is Ok,
        (exists|d: Seq<char>|
            #[trigger] builder_required(*old(builder)).contains(d) && !builder_elements(*old(builder)).dom().contains(
                d,
            )) ==> r is Err,
        r matches Ok(d) ==> built_elements(d) == builder_elements(*old(builder)) && orderable(built_elements(d)),
{
    builder.build()
}

/// `depper::Dependencies::generate_tranches`: layer by layer, the elements
/// whose dependencies all lie in earlier layers. It only ends when the elements
/// can be ordered, hence the requirement; then it succeeds, since its one error
/// ("Node not found") is for a name just read from the graph, which holds each
/// name once. Each layer is the set of elements left without a dependency
/// outside the earlier layers, so no layer is empty and an element of a later
/// layer was held back by one of the layer just before. Not stated: the order
/// within a layer.
#[verifier::external_body]
fn generate_dependency_tranches(dependencies: &depper::Dependencies) -> (r: Result<Vec<Vec<String>>, anyhow::Error>)
    requires
        orderable(built_elements(*dependencies)),
    ensures
        r is Ok,
        r matches Ok(t) ==> layered(tranches_view(t@), dependency_sets_of(built_elements(*dependencies))),
{
    dependencies.generate_tranches()
}

/// The dependencies of the elements, as lists of names.
pub open spec fn dependency_lists(elements: Map<Seq<char>, Vec<String>>) -> Map<Seq<char>, Seq<Seq<char>>> {
    elements.map_values(|d: Vec<String>| view_names(d@))
}

/// A dependency of an element of an orderable collection is itself an element.
proof fn lemma_orderable_dependency_is_element(elements: Map<Seq<char>, Seq<Seq<char>>>, x: Seq<char>, d: Seq<char>)
    requires
        orderable(elements),
        elements.dom().contains(x),
        elements[x].contains(d),
    ensures
        elements.dom().contains(d),
{
    let ds = dependency_sets_of(elements);
    let t = choose|t: Seq<Seq<Seq<char>>>| valid_tranching(t, ds);
    assert(ds.dom().contains(x));
    assert(tranche_names(t).contains(x));
    let k = choose|k: int| 0 <= k < t.len() && #[trigger] t[k].contains(x);
    assert(ds[x].contains(d));
    let k2 = choose|k2: int| 0 <= k2 < k && #[trigger] t[k2].contains(d);
    assert(tranche_names(t).contains(d));
}

/// Orders named elements by their dependencies with `depper`: refused exactly
/// when they cannot be ordered (a dependency is not an element, or there is a
/// cycle); otherwise the layering of the elements: tranches in which every
/// element lies once, after its dependencies, as early as they allow.
fn dependency_tranches(elements: &NamedMap<Vec<String>>) -> (r: Result<Vec<Vec<String>>, String>)
    requires
        elements.wf(),
    ensures
        r is Ok <==> orderable(dependency_lists(elements@)),
        dependency_missing(dependency_sets(elements@)) ==> r is Err,
        r matches Ok(t) ==> layered(tranches_view(t@), dependency_sets(elements@)),
{
    let entries = elements.entries();
    let mut builder = depper::Dependencies::builder();
    let mut i: usize = 0;
    proof {
        crate::names::lemma_entries_map_dom(entries@);
    }
    while i < entries.len()
        invariant
            elements.wf(),
            entries@ == elements.spec_entries(),
            i <= entries@.len(),
            builder_elements(builder) == dependency_lists(crate::names::entries_map(entries@.take(i as int))),
            builder_unlinked(builder),
            forall|d: Seq<char>| #[trigger]
                builder_required(builder).contains(d) <==> exists|j: int|
                    0 <= j < i && #[trigger] name_set(entries@[j].1@).contains(d),
        decreases entries@.len() - i,
    {
        let (name, dependencies) = &entries[i];
        builder = add_dependency_element(builder, name.clone(), copy_names(dependencies));
        proof {
            assert(entries@.take(i + 1).drop_last() =~= entries@.take(i as int));
            assert(entries@.take(i + 1).last() == entries@[i as int]);
            assert(builder_elements(builder) =~= dependency_lists(crate::names::entries_map(entries@.take(i + 1))));
            assert forall|d: Seq<char>| #[trigger]
                builder_required(builder).contains(d) <==> exists|j: int|
                    0 <= j < i + 1 && #[trigger] name_set(entries@[j].1@).contains(d) by {
                if exists|j: int| 0 <= j < i + 1 && #[trigger] name_set(entries@[j].1@).contains(d) {
                    let j = choose|j: int| 0 <= j < i + 1 && #[trigger] name_set(entries@[j].1@).contains(d);
                    if j < i {
                        assert(exists|j2: int| 0 <= j2 < i && #[trigger] name_set(entries@[j2].1@).contains(d));
                    }
                }
            }
        }
        i = i + 1;
    }
    proof {
        assert(entries@.take(i as int) =~= entries@);
        assert(dependency_sets_of(builder_elements(builder)) =~= dependency_sets(elements@)) by {
            assert forall|k| #[trigger] dependency_sets(elements@).dom().contains(k) implies dependency_sets_of(
                builder_elements(builder),
            )[k] == dependency_sets(elements@)[k] by {
                lemma_name_set(elements@[k]@);
                assert(view_names(elements@[k]@).to_set() =~= name_set(elements@[k]@));
            }
        }
        if dependency_missing(dependency_sets(elements@)) {
            let (x, d) = choose|x: Seq<char>, d: Seq<char>|
                dependency_sets(elements@).dom().contains(x) && #[trigger] dependency_sets(elements@)[x].contains(d)
                    && !dependency_sets(elements@).dom().contains(d);
            assert(crate::names::entry_keys(entries@).to_set().contains(x));
            let j = choose|j: int|
                0 <= j < crate::names::entry_keys(entries@).len() && crate::names::entry_keys(entries@)[j] == x;
            crate::names::lemma_entries_map_index(entries@, j);
            assert(name_set(entries@[j].1@).contains(d));
            assert(builder_required(builder).contains(d));
        }
        assert(builder_elements(builder) == dependency_lists(elements@));
        if orderable(dependency_lists(elements@)) {
            assert forall|d: Seq<char>| #[trigger] builder_required(builder).contains(d) implies builder_elements(
                builder,
            ).dom().contains(d) by {
                let j = choose|j: int| 0 <= j < entries@.len() && #[trigger] name_set(entries@[j].1@).contains(d);
                crate::names::lemma_entries_map_index(entries@, j);
                let x = entries@[j].0@;
                lemma_name_set(entries@[j].1@);
                assert(dependency_lists(elements@)[x] == view_names(entries@[j].1@));
                assert(view_names(entries@[j].1@).to_set().contains(d));
                lemma_orderable_dependency_is_element(dependency_lists(elements@), x, d);
            }
        }
    }
    let built = build_dependencies(&mut builder);
    let dependencies = match built {
        Ok(d) => d,
        Err(error) => {
            return Err(crate::utilities::error_text(&error));
        },
    };
    match generate_dependency_tranches(&dependencies) {
        Ok(t) => Ok(t),
        Err(error) => Err(crate::utilities::error_text(&error)),
    }
}

pub open spec fn opt_seq(names: Option<Vec<String>>) -> Seq<Seq<char>> {
    match names {
        Some(v) => view_names(v@),
        None => Seq::empty(),
    }
}

/// What a node of the infrastructure waits for: the nodes it links to, then its
/// declared dependencies.
pub open spec fn infra_dependencies(n: InfraNode) -> Seq<Seq<char>> {
    opt_seq(n.links) + opt_seq(n.dependencies)
}

/// The elements of the node dependency graph: every node, depending on nothing
/// unless it has an infrastructure entry, whose links and dependencies it then
/// depends on; an infrastructure entry without a node is an element too.
pub open spec fn node_dependencies(s: Scenario) -> Map<Seq<char>, Seq<Seq<char>>> {
    let nodes = crate::refs::opt_keys(s.nodes);
    let infra = crate::refs::opt_map(s.infrastructure);
    Map::new(
        |k: Seq<char>| nodes.contains(k) || infra.dom().contains(k),
        |k: Seq<char>|
            if infra.dom().contains(k) {
                infra_dependencies(infra[k])
            } else {
                Seq::empty()
            },
    )
}

/// The elements of the feature dependency graph: every feature with its declared dependencies.
pub open spec fn feature_dependencies(s: Scenario) -> Map<Seq<char>, Seq<Seq<char>>> {
    crate::refs::opt_map(s.features).map_values(|f: Feature| opt_seq(f.dependencies))
}

fn copy_opt_list(names: &Option<Vec<String>>) -> (r: Vec<String>)
    ensures
        view_names(r@) == opt_seq(*names),
{
    match names {
        Some(v) => copy_names(v),
        None => {
            let r = Vec::new();
            proof {
                assert(view_names(r@) =~= Seq::<Seq<char>>::empty());
            }
            r
        },
    }
}

/// The node dependency graph of a scenario.
pub fn node_dependency_elements(scenario: &Scenario) -> (r: NamedMap<Vec<String>>)
    requires
        scenario.wf(),
    ensures
        r.wf(),
        r@.dom() == node_dependencies(*scenario).dom(),
        forall|k| #[trigger] r@.dom().contains(k) ==> view_names(r@[k]@) == node_dependencies(*scenario)[k],
{
    let mut r: NamedMap<Vec<String>> = NamedMap::new();
    let ghost spec_map = node_dependencies(*scenario);
    let ghost nodes = crate::refs::opt_keys(scenario.nodes);
    let ghost infra = crate::refs::opt_map(scenario.infrastructure);
    if let Some(nodes_value) = &scenario.nodes {
        let keys = nodes_value.keys();
        let mut i: usize = 0;
        while i < keys.len()
            invariant
                r.wf(),
                i <= keys@.len(),
                name_set(keys@) == nodes,
                r@.dom() == name_set(keys@.take(i as int)),
                forall|k| #[trigger] r@.dom().contains(k) ==> r@[k]@ == Seq::<String>::empty(),
            decreases keys@.len() - i,
        {
            r.insert(keys[i].clone(), Vec::new());
            proof {
                crate::names::lemma_name_set_take(keys@, i as int);
            }
            i = i + 1;
        }
        proof {
            assert(keys@.take(i as int) =~= keys@);
        }
    } else {
        proof {
            assert(r@.dom() =~= nodes);
        }
    }
    let ghost after_nodes = r@.dom();
    if let Some(infrastructure) = &scenario.infrastructure {
        let keys = infrastructure.keys();
        let mut i: usize = 0;
        while i < keys.len()
            invariant
                r.wf(),
                infrastructure.wf(),
                infra == infrastructure@,
                i <= keys@.len(),
                name_set(keys@) == infrastructure@.dom(),
                after_nodes == nodes,
                r@.dom() == nodes.union(name_set(keys@.take(i as int))),
                forall|k| #[trigger] r@.dom().contains(k) ==> (if name_set(keys@.take(i as int)).contains(k) {
                    view_names(r@[k]@) == infra_dependencies(infra[k])
                } else {
                    r@[k]@ == Seq::<String>::empty()
                }),
            decreases keys@.len() - i,
        {
            let key = &keys[i];
            proof {
                lemma_name_set(keys@);
                assert(infrastructure@.dom().contains(key@));
            }
            let infra_node = infrastructure.get(key).unwrap();
            let mut dependencies = copy_opt_list(&infra_node.links);
            let more = copy_opt_list(&infra_node.dependencies);
            let ghost first = dependencies@;
            crate::refs::extend_names(&mut dependencies, &more);
            proof {
                assert(view_names(dependencies@) =~= view_names(first) + view_names(more@));
            }
            r.insert(key.clone(), dependencies);
            proof {
                crate::names::lemma_name_set_take(keys@, i as int);
            }
            i = i + 1;
        }
        proof {
            assert(keys@.take(i as int) =~= keys@);
            assert(r@.dom() =~= spec_map.dom());
        }
    } else {
        proof {
            assert(r@.dom() =~= spec_map.dom());
        }
    }
    proof {
        assert forall|k| #[trigger] r@.dom().contains(k) implies view_names(r@[k]@) == spec_map[k] by {
            if !infra.dom().contains(k) {
                assert(view_names(r@[k]@) =~= Seq::<Seq<char>>::empty());
            }
        }
    }
    r
}

/// In any ordering of a scenario's nodes, every node that an infrastructure
/// entry links to or declares as a dependency lies in an earlier tranche than
/// the entry's node.
pub proof fn lemma_infrastructure_dependencies_come_first(
    s: Scenario,
    tranches: Seq<Seq<Seq<char>>>,
    k: Seq<char>,
    d: Seq<char>,
    i: int,
)
    requires
        valid_tranching(tranches, dependency_sets_of(node_dependencies(s))),
        crate::refs::opt_map(s.infrastructure).dom().contains(k),
        opt_seq(crate::refs::opt_map(s.infrastructure)[k].dependencies).contains(d) || opt_seq(
            crate::refs::opt_map(s.infrastructure)[k].links,
        ).contains(d),
        0 <= i < tranches.len(),
        tranches[i].contains(k),
    ensures
        exists|j: int| 0 <= j < i && #[trigger] tranches[j].contains(d),
{
    let deps = dependency_sets_of(node_dependencies(s));
    let infra = crate::refs::opt_map(s.infrastructure)[k];
    assert(node_dependencies(s).dom().contains(k));
    assert(node_dependencies(s)[k] == opt_seq(infra.links) + opt_seq(infra.dependencies));
    if opt_seq(infra.dependencies).contains(d) {
        let m = choose|m: int| 0 <= m < opt_seq(infra.dependencies).len() && opt_seq(infra.dependencies)[m] == d;
        assert(node_dependencies(s)[k][opt_seq(infra.links).len() + m] == d);
    } else {
        let m = choose|m: int| 0 <= m < opt_seq(infra.links).len() && opt_seq(infra.links)[m] == d;
        assert(node_dependencies(s)[k][m] == d);
    }
    assert(node_dependencies(s)[k].contains(d));
    assert(deps[k].contains(d));
}

/// The feature dependency graph of a scenario.
pub fn feature_dependency_elements(scenario: &Scenario) -> (r: NamedMap<Vec<String>>)
    requires
        scenario.wf(),
    ensures
        r.wf(),
        r@.dom() == feature_dependencies(*scenario).dom(),
        forall|k| #[trigger] r@.dom().contains(k) ==> view_names(r@[k]@) == feature_dependencies(*scenario)[k],
{
    let mut r: NamedMap<Vec<String>> = NamedMap::new();
    if let Some(features) = &scenario.features {
        let keys = features.keys();
        let mut i: usize = 0;
        while i < keys.len()
            invariant
                r.wf(),
                features.wf(),
                i <= keys@.len(),
                name_set(keys@) == features@.dom(),
                r@.dom() == name_set(keys@.take(i as int)),
                forall|k| #[trigger] r@.dom().contains(k) ==> view_names(r@[k]@) == opt_seq(features@[k].dependencies),
            decreases keys@.len() - i,
        {
            let key = &keys[i];
            proof {
                lemma_name_set(keys@);
                assert(features@.dom().contains(key@));
            }
            let feature = features.get(key).unwrap();
            r.insert(key.clone(), copy_opt_list(&feature.dependencies));
            proof {
                crate::names::lemma_name_set_take(keys@, i as int);
            }
            i = i + 1;
        }
        proof {
            assert(keys@.take(i as int) =~= keys@);
        }
    }
    proof {
        assert(r@.dom() =~= feature_dependencies(*scenario).dom());
    }
    r
}

/// The node instances a schedule deploys, tranche by tranche.
pub open spec fn node_schedule(tranches: Seq<Seq<Seq<char>>>, infrastructure: Map<Seq<char>, InfraNode>) -> Seq<
    Seq<(Seq<char>, Seq<char>)>,
> {
    tranches.map_values(|t: Seq<Seq<char>>| tranche_schedule(t, infrastructure))
}

pub open spec fn schedule_view(s: Seq<Vec<ScheduledNode>>) -> Seq<Seq<(Seq<char>, Seq<char>)>> {
    s.map_values(|t: Vec<ScheduledNode>| tranche_view(t))
}

/// Whether the scenario has an infrastructure entry for a name that has no node.
pub open spec fn infrastructure_without_node(s: Scenario) -> bool {
    match (s.infrastructure, s.nodes) {
        (Some(infrastructure), Some(nodes)) => exists|k: Seq<char>|
            #[trigger] infrastructure@.dom().contains(k) && !nodes@.dom().contains(k),
        _ => false,
    }
}

/// The tranches of the node graph name an infrastructure entry without a node
/// exactly when the scenario has one, since they hold every element.
proof fn lemma_missing_node_in_tranches(
    tranches: Seq<Vec<String>>,
    s: Scenario,
    infrastructure: NamedMap<InfraNode>,
    nodes: NamedMap<Node>,
)
    requires
        valid_tranching(tranches_view(tranches), dependency_sets_of(node_dependencies(s))),
        s.infrastructure == Some(infrastructure),
        s.nodes == Some(nodes),
    ensures
        node_definition_missing(tranches, infrastructure@, nodes@) <==> infrastructure_without_node(s),
{
    if node_definition_missing(tranches, infrastructure@, nodes@) {
        let (i, j) = choose|i: int, j: int|
            #![trigger tranches[i]@[j]]
            0 <= i < tranches.len() && 0 <= j < tranches[i]@.len() && infrastructure@.dom().contains(
                tranches[i]@[j]@,
            ) && !nodes@.dom().contains(tranches[i]@[j]@);
        assert(infrastructure@.dom().contains(tranches[i]@[j]@));
    }
    if infrastructure_without_node(s) {
        let tv = tranches_view(tranches);
        let k = choose|k: Seq<char>| #[trigger] infrastructure@.dom().contains(k) && !nodes@.dom().contains(k);
        assert(dependency_sets_of(node_dependencies(s)).dom().contains(k));
        assert(tranche_names(tv).contains(k));
        let a = choose|a: int| 0 <= a < tv.len() && #[trigger] tv[a].contains(k);
        assert(tv[a] == view_names(tranches[a]@));
        let j = choose|j: int| 0 <= j < tv[a].len() && tv[a][j] == k;
        assert(tranches[a]@[j]@ == k);
        assert(node_definition_missing(tranches, infrastructure@, nodes@));
    }
}

impl CreateDeploymentSchedule {
    /// The node instances of the scenario to deploy, tranche by tranche, nodes
    /// after the nodes they depend on, each as early as they allow. Refused when
    /// the node graph cannot be ordered, or when an infrastructure entry has no
    /// node. Without infrastructure or nodes the schedule is one empty tranche.
    pub fn generate(&self) -> (r: Result<Vec<Vec<ScheduledNode>>, ScheduleError>)
        requires
            self.0.wf(),
        ensures
            r is Ok <==> orderable(node_dependencies(self.0)) && !infrastructure_without_node(self.0),
            !orderable(node_dependencies(self.0)) ==> r matches Err(ScheduleError::Dependencies(_)),
            orderable(node_dependencies(self.0)) && infrastructure_without_node(self.0) ==> r matches Err(
                ScheduleError::NodeValueMissing,
            ),
            r matches Ok(s) ==> match (self.0.infrastructure, self.0.nodes) {
                (Some(infrastructure), Some(nodes)) => exists|t: Seq<Seq<Seq<char>>>|
                    layered(t, dependency_sets_of(node_dependencies(self.0)))
                        && schedule_view(s@) == node_schedule(t, infrastructure@),
                _ => s@.len() == 1 && s@[0]@.len() == 0,
            },
    {
        let scenario = &self.0;
        let elements = node_dependency_elements(scenario);
        proof {
            assert(dependency_sets(elements@) =~= dependency_sets_of(node_dependencies(*scenario)));
            assert(dependency_lists(elements@) =~= node_dependencies(*scenario));
        }
        let tranches = match dependency_tranches(&elements) {
            Ok(t) => t,
            Err(message) => {
                return Err(ScheduleError::Dependencies(message));
            },
        };
        if let Some(infrastructure) = &scenario.infrastructure {
            if let Some(nodes) = &scenario.nodes {
                let r = schedule_node_tranches(&tranches, infrastructure, nodes);
                proof {
                    lemma_missing_node_in_tranches(tranches@, *scenario, *infrastructure, *nodes);
                    if r is Ok {
                        assert(schedule_view(r->Ok_0@) =~= node_schedule(tranches_view(tranches@), infrastructure@));
                    }
                }
                return r;
            }
        }
        let mut s: Vec<Vec<ScheduledNode>> = Vec::new();
        s.push(Vec::new());
        Ok(s)
    }
}

impl CreateFeatureDeploymentSchedule {
    /// The features of the scenario to deploy, tranche by tranche, features after
    /// the features they depend on, each as early as they allow. Refused exactly
    /// when the features cannot be ordered. Without features the schedule is one
    /// empty tranche.
    pub fn generate(&self) -> (r: Result<Vec<Vec<String>>, ScheduleError>)
        requires
            self.0.wf(),
        ensures
            r is Ok <==> orderable(feature_dependencies(self.0)),
            r matches Err(e) ==> e is Dependencies,
            r matches Ok(s) ==> match self.0.features {
                Some(features) => layered(tranches_view(s@), dependency_sets_of(feature_dependencies(self.0))),
                None => s@.len() == 1 && s@[0]@.len() == 0,
            },
    {
        let scenario = &self.0;
        let elements = feature_dependency_elements(scenario);
        proof {
            assert(dependency_sets(elements@) =~= dependency_sets_of(feature_dependencies(*scenario)));
            assert(dependency_lists(elements@) =~= feature_dependencies(*scenario));
        }
        let tranches = match dependency_tranches(&elements) {
            Ok(t) => t,
            Err(message) => {
                return Err(ScheduleError::Dependencies(message));
            },
        };
        if let Some(features) = &scenario.features {
            let r = schedule_feature_tranches(&tranches, features);
            proof {
                if r is Err {
                    let tv = tranches_view(tranches@);
                    let (i, j) = choose|i: int, j: int|
                        #![trigger tranches@[i]@[j]]
                        0 <= i < tranches@.len() && 0 <= j < tranches@[i]@.len() && !features@.dom().contains(
                            tranches@[i]@[j]@,
                        );
                    assert(tv[i] == view_names(tranches@[i]@));
                    assert(tv[i][j] == tranches@[i]@[j]@);
                    assert(tv[i].contains(tranches@[i]@[j]@));
                    assert(tranche_names(tv).contains(tranches@[i]@[j]@));
                    assert(dependency_sets_of(feature_dependencies(*scenario)).dom().contains(tranches@[i]@[j]@));
                }
                if r is Ok {
                    assert(tranches_view(r->Ok_0@) =~= tranches_view(tranches@));
                }
            }
            return r;
        }
        let mut s: Vec<Vec<String>> = Vec::new();
        s.push(Vec::new());
        Ok(s)
    }
}

/// The dependency sets of a graph given as lists.
pub open spec fn dependency_sets_of(elements: Map<Seq<char>, Seq<Seq<char>>>) -> Map<Seq<char>, Set<Seq<char>>> {
    elements.map_values(|d: Seq<Seq<char>>| d.to_set())
}

} // verus!
