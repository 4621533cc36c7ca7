//! Deploying the templates and nodes of a scenario: the requests sent to
//! deployers, the records they need, and which nodes go on to get features,
//! conditions and events.

use crate::ids::{parse_uuid, parsed_uuid, uuid_text, uuid_to_string};
use crate::ledger::LedgerKey;
use crate::model::{
    DeployerTypes, Deployment, DeploymentElement, GetDeploymentElementByDeploymentIdByScenarioReference, NodeType,
    Source, Uuid,
};
use crate::names::{name_set, NamedMap};
use crate::refs::copy_names;
use crate::scenario::{InfraNode, Node, Resources, Scenario};
use vstd::prelude::*;

verus! {

/// The kind of deployer that deploys a kind of node.
pub fn deployer_type_of(node_type: NodeType) -> (t: DeployerTypes)
    ensures
        t == (match node_type {
            NodeType::VM => DeployerTypes::VirtualMachine,
            NodeType::Switch => DeployerTypes::Switch,
        }),
{
    match node_type {
        NodeType::VM => DeployerTypes::VirtualMachine,
        NodeType::Switch => DeployerTypes::Switch,
    }
}

/// Names of the exercise and deployment a node belongs to.
pub struct MetaInfo {
    pub exercise_name: String,
    pub deployment_name: String,
}

/// The processors and memory of a virtual machine.
#[derive(PartialEq, Eq, Structural, Clone, Copy, Debug)]
pub struct Configuration {
    pub cpu: u32,
    pub ram: u64,
}

pub struct VirtualMachine {
    pub name: String,
    pub links: Vec<String>,
    pub configuration: Option<Configuration>,
    /// The text of the identifier of the template the machine is made from.
    pub template_id: String,
}

pub struct Switch {
    pub name: String,
    pub links: Vec<String>,
}

/// A request to deploy a node.
pub enum NodeCommand {
    DeployVirtualMachine { virtual_machine: VirtualMachine, meta_info: MetaInfo },
    DeploySwitch { switch: Switch, meta_info: MetaInfo },
}

/// Why no deployment request could be made.
#[derive(PartialEq, Eq, Structural, Clone, Copy, Debug)]
pub enum CommandError {
    /// A virtual machine needs a template.
    TemplateIdNotFound,
}

/// Something for which a deployment request can be made.
pub trait Deployable {
    type Command;

    /// Whether `r` is the request (or the refusal) that `self` makes.
    spec fn command_spec(&self, r: Result<Self::Command, CommandError>) -> bool;

    fn try_to_deployment_command(&self) -> (r: Result<Self::Command, CommandError>)
        ensures
            self.command_spec(r),
    ;
}

/// A template is requested by its package.
impl Deployable for Source {
    type Command = Source;

    open spec fn command_spec(&self, r: Result<Source, CommandError>) -> bool {
        r == Ok::<Source, CommandError>(Source { name: self.name, version: self.version })
    }

    fn try_to_deployment_command(&self) -> (r: Result<Source, CommandError>) {
        Ok(Source { name: self.name.clone(), version: self.version.clone() })
    }
}

/// The configuration a node's resources ask for.
pub open spec fn configuration_of(resources: Option<Resources>) -> Option<Configuration> {
    match resources {
        Some(r) => Some(Configuration { cpu: r.cpu, ram: r.ram }),
        None => None,
    }
}

fn configuration(resources: &Option<Resources>) -> (c: Option<Configuration>)
    ensures
        c == configuration_of(*resources),
{
    match resources {
        Some(r) => Some(Configuration { cpu: r.cpu, ram: r.ram }),
        None => None,
    }
}

/// A node instance is requested by its unique name, the node, the deployment,
/// the exercise's name, the handler references of the nodes it links to, and
/// the template a virtual machine is made from.
impl Deployable for (String, Node, Deployment, String, Vec<String>, Option<Uuid>) {
    type Command = NodeCommand;

    open spec fn command_spec(&self, r: Result<NodeCommand, CommandError>) -> bool {
        let (name, node, deployment, exercise_name, links, template_id) = *self;
        match node.type_field {
            NodeType::VM => match template_id {
                None => r == Err::<NodeCommand, CommandError>(CommandError::TemplateIdNotFound),
                Some(id) => r matches Ok(NodeCommand::DeployVirtualMachine { virtual_machine, meta_info }) && {
                    &&& virtual_machine.name@ == name@
                    &&& virtual_machine.links@ == links@
                    &&& virtual_machine.configuration == configuration_of(node.resources)
                    &&& virtual_machine.template_id@ == uuid_text(id)
                    &&& meta_info.exercise_name@ == exercise_name@
                    &&& meta_info.deployment_name@ == deployment.name@
                },
            },
            NodeType::Switch => r matches Ok(NodeCommand::DeploySwitch { switch, meta_info }) && {
                &&& switch.name@ == name@
                &&& switch.links@ == links@
                &&& meta_info.exercise_name@ == exercise_name@
                &&& meta_info.deployment_name@ == deployment.name@
            },
        }
    }

    fn try_to_deployment_command(&self) -> (r: Result<NodeCommand, CommandError>) {
        let (name, node, deployment, exercise_name, links, template_id) = self;
        let meta_info = MetaInfo {
            exercise_name: exercise_name.clone(),
            deployment_name: deployment.name.clone(),
        };
        match node.type_field {
            NodeType::VM => match template_id {
                Some(id) => Ok(
                    NodeCommand::DeployVirtualMachine {
                        virtual_machine: VirtualMachine {
                            name: name.clone(),
                            links: copy_names(links),
                            configuration: configuration(&node.resources),
                            template_id: uuid_to_string(*id),
                        },
                        meta_info,
                    },
                ),
                None => Err(CommandError::TemplateIdNotFound),
            },
            NodeType::Switch => Ok(
                NodeCommand::DeploySwitch {
                    switch: Switch { name: name.clone(), links: copy_names(links) },
                    meta_info,
                },
            ),
        }
    }
}

/// Why a template or node could not be deployed.
#[derive(PartialEq, Eq, Structural, Clone, Copy, Debug)]
pub enum NodeError {
    /// The scenario has no nodes.
    NodesNotFound,
    /// A virtual machine has no source to make its template from.
    SourceNotFound,
    /// The element of a template or linked node carries no handler reference.
    HandlerReferenceNotFound,
    /// A template's handler reference is not the text of an identifier.
    TemplateIdUnreadable,
}

/// The element that records the deployment of a node instance.
pub fn node_element(deployment_id: Uuid, unique_name: String, node_type: NodeType) -> (e: DeploymentElement)
    ensures
        e.deployment_id == deployment_id,
        e.scenario_reference == unique_name,
        e.deployer_type == (match node_type {
            NodeType::VM => DeployerTypes::VirtualMachine,
            NodeType::Switch => DeployerTypes::Switch,
        }),
        e.status == crate::model::ElementStatus::Ongoing,
        e.handler_reference is None,
        e.event_id is None,
        e.parent_node_id is None,
{
    DeploymentElement::new_ongoing(deployment_id, unique_name, deployer_type_of(node_type), None, None)
}

/// The element that records the deployment of a template; it is found again by
/// the package it is made from.
pub fn template_element(deployment_id: Uuid, source: &Source) -> (e: DeploymentElement)
    ensures
        e.deployment_id == deployment_id,
        e.scenario_reference@ == source.spec_key(),
        e.deployer_type == DeployerTypes::Template,
        e.status == crate::model::ElementStatus::Ongoing,
        e.handler_reference is None,
        e.event_id is None,
        e.parent_node_id is None,
{
    DeploymentElement::new_ongoing(deployment_id, source.get_key(), DeployerTypes::Template, None, None)
}

/// Where to find the template of a node: the element of the deployment that
/// records the template of the node's package; nowhere for a node without one.
pub fn template_lookup(deployment_id: Uuid, source: &Option<Source>) -> (r: Option<
    GetDeploymentElementByDeploymentIdByScenarioReference,
>)
    ensures
        match *source {
            None => r is None,
            Some(s) => r matches Some(GetDeploymentElementByDeploymentIdByScenarioReference(d, reference))
                && d == deployment_id && reference@ == s.spec_key(),
        },
{
    match source {
        None => None,
        Some(s) => Some(GetDeploymentElementByDeploymentIdByScenarioReference(deployment_id, s.get_key())),
    }
}

/// The template identifier recorded in a template's element.
pub fn template_id_from(handler_reference: &Option<String>) -> (r: Result<Uuid, NodeError>)
    ensures
        match *handler_reference {
            None => r == Err::<Uuid, NodeError>(NodeError::HandlerReferenceNotFound),
            Some(h) => match parsed_uuid(h@) {
                Some(id) => r == Ok::<Uuid, NodeError>(id),
                None => r == Err::<Uuid, NodeError>(NodeError::TemplateIdUnreadable),
            },
        },
{
    match handler_reference {
        None => Err(NodeError::HandlerReferenceNotFound),
        Some(h) => match parse_uuid(h.as_str()) {
            Some(id) => Ok(id),
            None => Err(NodeError::TemplateIdUnreadable),
        },
    }
}

/// Where to find the nodes an instance links to: the elements of the deployment
/// named by the instance's links, in order.
pub fn link_lookups(deployment_id: Uuid, infra_node: &InfraNode) -> (r: Vec<
    GetDeploymentElementByDeploymentIdByScenarioReference,
>)
    ensures
        r@.len() == (match infra_node.links {
            Some(l) => l@.len(),
            None => 0,
        }),
        forall|i: int|
            0 <= i < r@.len() ==> (#[trigger] r@[i]).0 == deployment_id && r@[i].1 == infra_node.links->0@[i],
{
    let mut r: Vec<GetDeploymentElementByDeploymentIdByScenarioReference> = Vec::new();
    if let Some(links) = &infra_node.links {
        let mut i: usize = 0;
        while i < links.len()
            invariant
                infra_node.links == Some(*links),
                i <= links@.len(),
                r@.len() == i,
                forall|j: int|
                    0 <= j < i ==> (#[trigger] r@[j]).0 == deployment_id && r@[j].1 == links@[j],
            decreases links@.len() - i,
        {
            r.push(GetDeploymentElementByDeploymentIdByScenarioReference(deployment_id, links[i].clone()));
            i = i + 1;
        }
    }
    r
}

/// The handler references of the linked nodes, in order; refused when one of
/// them has none.
pub fn link_references(handlers: Vec<Option<String>>) -> (r: Result<Vec<String>, NodeError>)
    ensures
        (forall|i: int| 0 <= i < handlers@.len() ==> (#[trigger] handlers@[i]) is Some) ==> (r matches Ok(v)
            && v@.len() == handlers@.len() && forall|i: int| 0 <= i < v@.len() ==> Some(#[trigger] v@[i]) == handlers@[i]),
        !(forall|i: int| 0 <= i < handlers@.len() ==> (#[trigger] handlers@[i]) is Some) ==> r == Err::<
            Vec<String>,
            NodeError,
        >(NodeError::HandlerReferenceNotFound),
{
    let mut v: Vec<String> = Vec::new();
    let mut i: usize = 0;
    while i < handlers.len()
        invariant
            i <= handlers@.len(),
            v@.len() == i,
            forall|j: int| 0 <= j < i ==> Some(#[trigger] v@[j]) == handlers@[j],
        decreases handlers@.len() - i,
    {
        match &handlers[i] {
            Some(h) => v.push(h.clone()),
            None => {
                return Err(NodeError::HandlerReferenceNotFound);
            },
        }
        i = i + 1;
    }
    proof {
        assert forall|j: int| 0 <= j < handlers@.len() implies (#[trigger] handlers@[j]) is Some by {
            assert(Some(v@[j]) == handlers@[j]);
        }
    }
    Ok(v)
}

/// The deployed virtual machines with the templates they were made from, in
/// order; switches, and machines without a template, are left out.
pub open spec fn vm_selection(results: Seq<(Node, DeploymentElement, Option<Uuid>)>) -> Seq<
    (Node, DeploymentElement, Uuid),
>
    decreases results.len(),
{
    if results.len() == 0 {
        Seq::empty()
    } else {
        let (node, element, template_id) = results.last();
        vm_selection(results.drop_last()) + if node.type_field == NodeType::VM && template_id is Some {
            seq![(node, element, template_id->0)]
        } else {
            Seq::empty()
        }
    }
}

proof fn lemma_vm_selection_prepend(x: (Node, DeploymentElement, Option<Uuid>), rest: Seq<(Node, DeploymentElement, Option<Uuid>)>)
    ensures
        vm_selection(seq![x] + rest) == vm_selection(seq![x]) + vm_selection(rest),
    decreases rest.len(),
{
    if rest.len() == 0 {
        assert(seq![x] + rest =~= seq![x]);
        assert(vm_selection(seq![x]) + vm_selection(rest) =~= vm_selection(seq![x]));
    } else {
        lemma_vm_selection_prepend(x, rest.drop_last());
        assert((seq![x] + rest).drop_last() =~= seq![x] + rest.drop_last());
        assert((seq![x] + rest).last() == rest.last());
        let (node, element, template_id) = rest.last();
        let tail = if node.type_field == NodeType::VM && template_id is Some {
            seq![(node, element, template_id->0)]
        } else {
            Seq::<(Node, DeploymentElement, Uuid)>::empty()
        };
        assert(vm_selection(seq![x]) + vm_selection(rest.drop_last()) + tail =~= vm_selection(seq![x]) + (
        vm_selection(rest.drop_last()) + tail));
    }
}

/// The nodes that go on to get features, conditions and events: the virtual
/// machines among the deployed nodes, each with its template.
pub fn vm_nodes(results: Vec<(Node, DeploymentElement, Option<Uuid>)>) -> (r: Vec<(Node, DeploymentElement, Uuid)>)
    ensures
        r@ == vm_selection(results@),
{
    let ghost all = results@;
    let mut rest = results;
    let mut r: Vec<(Node, DeploymentElement, Uuid)> = Vec::new();
    while rest.len() > 0
        invariant
            vm_selection(all) == r@ + vm_selection(rest@),
        decreases rest@.len(),
    {
        let ghost before = rest@;
        let (node, element, template_id) = rest.remove(0);
        proof {
            assert(before =~= seq![before[0]] + rest@);
            lemma_vm_selection_prepend(before[0], rest@);
            reveal_with_fuel(vm_selection, 2);
            assert(seq![before[0]].drop_last() =~= Seq::<(Node, DeploymentElement, Option<Uuid>)>::empty());
        }
        let keep = match node.type_field {
            NodeType::VM => template_id.is_some(),
            NodeType::Switch => false,
        };
        if keep {
            let id = template_id.unwrap();
            r.push((node, element, id));
        }
        proof {
            assert(r@ + vm_selection(rest@) =~= vm_selection(all));
        }
    }
    proof {
        assert(r@ + vm_selection(rest@) =~= r@);
    }
    r
}

/// The names of a list of named packages.
pub open spec fn source_keys(v: Seq<(String, Source)>) -> Seq<Seq<char>> {
    v.map_values(|e: (String, Source)| e.0@)
}

/// The virtual machines of a map of nodes.
pub open spec fn vm_node_names(nodes: Map<Seq<char>, Node>) -> Set<Seq<char>> {
    Set::new(|k: Seq<char>| nodes.dom().contains(k) && nodes[k].type_field == NodeType::VM)
}

/// The templates to deploy for a scenario: one for every virtual machine, made
/// from the machine's package. Refused when the scenario has no nodes or a
/// virtual machine has no package.
pub fn template_sources(scenario: &Scenario) -> (r: Result<Vec<(String, Source)>, NodeError>)
    requires
        scenario.wf(),
    ensures
        scenario.nodes is None ==> r == Err::<Vec<(String, Source)>, NodeError>(NodeError::NodesNotFound),
        scenario.nodes matches Some(nodes) ==> {
            let missing = exists|k: Seq<char>| #[trigger] vm_node_names(nodes@).contains(k) && nodes@[k].source is None;
            &&& missing ==> r == Err::<Vec<(String, Source)>, NodeError>(NodeError::SourceNotFound)
            &&& !missing ==> (r matches Ok(v) && {
                &&& source_keys(v@).no_duplicates()
                &&& source_keys(v@).to_set() == vm_node_names(nodes@)
                &&& forall|i: int| 0 <= i < v@.len() ==> nodes@[(#[trigger] v@[i]).0@].source == Some(v@[i].1)
            })
        },
{
    let nodes = match &scenario.nodes {
        Some(n) => n,
        None => {
            return Err(NodeError::NodesNotFound);
        },
    };
    let entries = nodes.entries();
    proof {
        crate::names::lemma_entries_map_dom(entries@);
    }
    let mut v: Vec<(String, Source)> = Vec::new();
    let mut i: usize = 0;
    while i < entries.len()
        invariant
            scenario.nodes == Some(*nodes),
            nodes.wf(),
            entries@ == nodes.spec_entries(),
            nodes@ == crate::names::entries_map(entries@),
            i <= entries@.len(),
            source_keys(v@).no_duplicates(),
            forall|k: Seq<char>|
                #![trigger source_keys(v@).contains(k)]
                source_keys(v@).contains(k) <==> (exists|j: int|
                    0 <= j < i && #[trigger] entries@[j].0@ == k && entries@[j].1.type_field == NodeType::VM),
            forall|j: int| 0 <= j < v@.len() ==> nodes@[(#[trigger] v@[j]).0@].source == Some(v@[j].1),
            forall|j: int|
                0 <= j < i && (#[trigger] entries@[j]).1.type_field == NodeType::VM ==> entries@[j].1.source is Some,
        decreases entries@.len() - i,
    {
        let (name, node) = &entries[i];
        proof {
            crate::names::lemma_entries_map_index(entries@, i as int);
        }
        if node.type_field == NodeType::VM {
            match &node.source {
                Some(source) => {
                    let ghost keys_before = source_keys(v@);
                    v.push((name.clone(), Source { name: source.name.clone(), version: source.version.clone() }));
                    proof {
                        let keys_after = source_keys(v@);
                        assert(keys_after =~= keys_before.push(name@));
                        assert forall|a: int, b: int|
                            #![trigger keys_after[a], keys_after[b]]
                            0 <= a < b < v@.len() implies keys_after[a] != keys_after[b] by {
                            if b == v@.len() - 1 {
                                let k = keys_before[a];
                                assert(keys_before.contains(k));
                                let j = choose|j: int|
                                    0 <= j < i && #[trigger] entries@[j].0@ == k && entries@[j].1.type_field
                                        == NodeType::VM;
                                assert(crate::names::entry_keys(entries@)[j] == k);
                                assert(crate::names::entry_keys(entries@)[i as int] == name@);
                            }
                        }
                        assert forall|k: Seq<char>|
                            #![trigger keys_after.contains(k)]
                            keys_after.contains(k) <==> (exists|j: int|
                                0 <= j < i + 1 && #[trigger] entries@[j].0@ == k && entries@[j].1.type_field
                                    == NodeType::VM) by {
                            if keys_after.contains(k) {
                                let idx = choose|idx: int| 0 <= idx < keys_after.len() && keys_after[idx] == k;
                                if idx < keys_before.len() {
                                    assert(keys_before[idx] == k);
                                    assert(keys_before.contains(k));
                                } else {
                                    assert(k == name@);
                                    assert(entries@[i as int].0@ == k);
                                }
                            }
                            if exists|j: int|
                                0 <= j < i + 1 && #[trigger] entries@[j].0@ == k && entries@[j].1.type_field
                                    == NodeType::VM {
                                let j = choose|j: int|
                                    0 <= j < i + 1 && #[trigger] entries@[j].0@ == k && entries@[j].1.type_field
                                        == NodeType::VM;
                                if j == i {
                                    assert(keys_after[v@.len() - 1] == k);
                                } else {
                                    assert(keys_before.contains(k));
                                    let idx = choose|idx: int| 0 <= idx < keys_before.len() && keys_before[idx] == k;
                                    assert(keys_after[idx] == k);
                                }
                            }
                        }
                    }
                },
                None => {
                    proof {
                        assert(vm_node_names(nodes@).contains(name@));
                    }
                    return Err(NodeError::SourceNotFound);
                },
            }
        }
        i = i + 1;
    }
    proof {
        assert forall|k: Seq<char>| #[trigger] vm_node_names(nodes@).contains(k) implies nodes@[k].source is Some by {
            assert(crate::names::entry_keys(entries@).to_set().contains(k));
            let j = choose|j: int|
                0 <= j < crate::names::entry_keys(entries@).len() && crate::names::entry_keys(entries@)[j] == k;
            crate::names::lemma_entries_map_index(entries@, j);
        }
        assert(source_keys(v@).to_set() =~= vm_node_names(nodes@)) by {
            assert forall|k: Seq<char>|
                source_keys(v@).to_set().contains(k) <==> vm_node_names(nodes@).contains(
                    k,
                ) by {
                if vm_node_names(nodes@).contains(k) {
                    assert(crate::names::entry_keys(entries@).to_set().contains(k));
                    let j = choose|j: int|
                        0 <= j < crate::names::entry_keys(entries@).len() && crate::names::entry_keys(entries@)[j]
                            == k;
                    crate::names::lemma_entries_map_index(entries@, j);
                    assert(entries@[j].0@ == k);
                }
                if source_keys(v@).contains(k) {
                    let j = choose|j: int|
                        0 <= j < i && #[trigger] entries@[j].0@ == k && entries@[j].1.type_field == NodeType::VM;
                    crate::names::lemma_entries_map_index(entries@, j);
                }
            }
        }
    }
    Ok(v)
}

} // verus!
