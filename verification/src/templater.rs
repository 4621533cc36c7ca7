//! Node deployments sent to machine and switch deployers, the templates made
//! for them, and how the work is spread over the deployers of a group.

use crate::ids::{uuid_text, uuid_to_string};
use crate::model::{Identifier, NodeType, Source, Uuid};
use crate::requests::copy_source;
use crate::names::{entries_map, entry_keys, lemma_entries_map_dom, lemma_entries_map_index, NamedMap};
use crate::nodes::{configuration_of, Configuration};
use crate::refs::copy_names;
use crate::scenario::{InfraNode, Node, Resources, Scenario};
use vstd::prelude::*;

verus! {

/// The name, exercise, template and links of a node deployment.
pub struct DeploymentParameters {
    pub name: String,
    pub exercise_name: String,
    pub template_id: String,
    pub links: Vec<String>,
}

/// What kind of node is deployed, and under which identifier once it is.
pub struct NodeIdentifier {
    pub identifier: Option<Identifier>,
    pub node_type: NodeType,
}

/// The node of a node deployment.
pub struct NodeDescription {
    pub identifier: Option<NodeIdentifier>,
    pub configuration: Option<Configuration>,
}

/// A request to deploy a node, as machine and switch deployers take it.
pub struct NodeDeployment {
    pub parameters: Option<DeploymentParameters>,
    pub node: Option<NodeDescription>,
}

/// Why node deployments could not be made or sorted.
#[derive(PartialEq, Eq, Structural, Clone, Copy, Debug)]
pub enum TemplaterError {
    /// A node deployment has no node.
    NodeNotFound,
    /// The node of a node deployment has no identifier.
    IdentifierNotFound,
    /// No node deployment could be made.
    NoNodesToDeploy,
    /// No template was made for a virtual machine.
    TemplateNotFound,
    /// The scenario has no nodes.
    NodesNotFound,
}

/// Whether `d` deploys a switch with the given name, exercise and links.
pub open spec fn is_switch_deployment(d: NodeDeployment, name: Seq<char>, exercise_name: Seq<char>, links: Seq<String>) -> bool {
    &&& d.parameters matches Some(p) && p.name@ == name && p.exercise_name@ == exercise_name && p.template_id@
        == Seq::<char>::empty() && p.links@ == links
    &&& d.node matches Some(n) && n.configuration is None && (n.identifier matches Some(id) && id.identifier is None
        && id.node_type == NodeType::Switch)
}

/// Whether `d` deploys a virtual machine with the given name, exercise,
/// template, links and configuration.
pub open spec fn is_vm_deployment(
    d: NodeDeployment,
    name: Seq<char>,
    exercise_name: Seq<char>,
    template_id: Seq<char>,
    links: Seq<String>,
    configuration: Option<Configuration>,
) -> bool {
    &&& d.parameters matches Some(p) && p.name@ == name && p.exercise_name@ == exercise_name && p.template_id@
        == template_id && p.links@ == links
    &&& d.node matches Some(n) && n.configuration == configuration && (n.identifier matches Some(id)
        && id.identifier is None && id.node_type == NodeType::VM)
}

/// The links of a node: those of its infrastructure entry, none without one.
pub open spec fn infra_links(infra: Map<Seq<char>, InfraNode>, node_name: Seq<char>) -> Seq<String> {
    if infra.dom().contains(node_name) && infra[node_name].links is Some {
        infra[node_name].links->0@
    } else {
        Seq::empty()
    }
}

/// A node that can be turned into a node deployment.
pub trait Deployment {
    spec fn spec_type(&self) -> NodeType;

    spec fn spec_resources(&self) -> Option<Resources>;

    fn get_type(&self) -> (t: NodeType)
        ensures
            t == self.spec_type(),
    ;

    fn new_switch(&self, name: &str, exercise_name: &str, links: Vec<String>) -> (d: NodeDeployment)
        ensures
            is_switch_deployment(d, name@, exercise_name@, links@),
    ;

    fn new_virtual_machine(&self, name: &str, exercise_name: &str, template_id: &str, links: Vec<String>) -> (d:
        NodeDeployment)
        ensures
            is_vm_deployment(d, name@, exercise_name@, template_id@, links@, configuration_of(self.spec_resources())),
    ;

    /// The deployment of the node named `node_name`, shown as `display_name`: a
    /// virtual machine needs a template; both kinds get the links of their
    /// infrastructure entry.
    fn to_deployment(
        &self,
        node_name: &String,
        display_name: &String,
        template_ids_map: &NamedMap<String>,
        infranode_map: &NamedMap<InfraNode>,
        exercise_name: &String,
    ) -> (r: Result<NodeDeployment, TemplaterError>)
        requires
            template_ids_map.wf(),
            infranode_map.wf(),
        ensures
            match self.spec_type() {
                NodeType::VM => if template_ids_map@.dom().contains(node_name@) {
                    r matches Ok(d) && is_vm_deployment(
                        d,
                        display_name@,
                        exercise_name@,
                        template_ids_map@[node_name@]@,
                        infra_links(infranode_map@, node_name@),
                        configuration_of(self.spec_resources()),
                    )
                } else {
                    r == Err::<NodeDeployment, TemplaterError>(TemplaterError::TemplateNotFound)
                },
                NodeType::Switch => r matches Ok(d) && is_switch_deployment(
                    d,
                    display_name@,
                    exercise_name@,
                    infra_links(infranode_map@, node_name@),
                ),
            },
    {
        let links = match infranode_map.get(node_name) {
            Some(infra) => match &infra.links {
                Some(l) => copy_names(l),
                None => Vec::new(),
            },
            None => Vec::new(),
        };
        proof {
            assert(links@ =~= infra_links(infranode_map@, node_name@));
        }
        match self.get_type() {
            NodeType::VM => match template_ids_map.get(node_name) {
                Some(template_id) => Ok(
                    self.new_virtual_machine(display_name.as_str(), exercise_name.as_str(), template_id.as_str(), links),
                ),
                None => Err(TemplaterError::TemplateNotFound),
            },
            NodeType::Switch => Ok(self.new_switch(display_name.as_str(), exercise_name.as_str(), links)),
        }
    }
}

impl Deployment for Node {
    open spec fn spec_type(&self) -> NodeType {
        self.type_field
    }

    open spec fn spec_resources(&self) -> Option<Resources> {
        self.resources
    }

    fn get_type(&self) -> (t: NodeType) {
        self.type_field
    }

    fn new_switch(&self, name: &str, exercise_name: &str, links: Vec<String>) -> (d: NodeDeployment) {
        NodeDeployment {
            parameters: Some(
                DeploymentParameters {
                    name: name.to_owned(),
                    exercise_name: exercise_name.to_owned(),
                    template_id: String::new(),
                    links,
                },
            ),
            node: Some(
                NodeDescription {
                    identifier: Some(NodeIdentifier { identifier: None, node_type: NodeType::Switch }),
                    configuration: None,
                },
            ),
        }
    }

    fn new_virtual_machine(&self, name: &str, exercise_name: &str, template_id: &str, links: Vec<String>) -> (d:
        NodeDeployment) {
        let configuration = match &self.resources {
            Some(r) => Some(Configuration { cpu: r.cpu, ram: r.ram }),
            None => None,
        };
        NodeDeployment {
            parameters: Some(
                DeploymentParameters {
                    name: name.to_owned(),
                    exercise_name: exercise_name.to_owned(),
                    template_id: template_id.to_owned(),
                    links,
                },
            ),
            node: Some(
                NodeDescription {
                    identifier: Some(NodeIdentifier { identifier: None, node_type: NodeType::VM }),
                    configuration,
                },
            ),
        }
    }
}

/// The kind of node a node deployment deploys, if it says.
pub open spec fn deployment_kind(d: NodeDeployment) -> Result<NodeType, TemplaterError> {
    match d.node {
        None => Err(TemplaterError::NodeNotFound),
        Some(n) => match n.identifier {
            None => Err(TemplaterError::IdentifierNotFound),
            Some(id) => Ok(id.node_type),
        },
    }
}

/// Node deployments split into those of virtual machines and those of switches,
/// each in order; refused at the first one that does not say its kind.
pub open spec fn separation(s: Seq<NodeDeployment>) -> Result<(Seq<NodeDeployment>, Seq<NodeDeployment>), TemplaterError>
    decreases s.len(),
{
    if s.len() == 0 {
        Ok((Seq::empty(), Seq::empty()))
    } else {
        match separation(s.drop_last()) {
            Err(e) => Err(e),
            Ok((vms, switches)) => match deployment_kind(s.last()) {
                Err(e) => Err(e),
                Ok(NodeType::VM) => Ok((vms.push(s.last()), switches)),
                Ok(NodeType::Switch) => Ok((vms, switches.push(s.last()))),
            },
        }
    }
}

pub fn separate_node_deployments_by_type(node_deployments: Vec<NodeDeployment>) -> (r: Result<
    (Vec<NodeDeployment>, Vec<NodeDeployment>),
    TemplaterError,
>)
    ensures
        match separation(node_deployments@) {
            Ok((vms, switches)) => r matches Ok((v, s)) && v@ == vms && s@ == switches,
            Err(e) => r == Err::<(Vec<NodeDeployment>, Vec<NodeDeployment>), TemplaterError>(e),
        },
{
    let ghost all = node_deployments@;
    let total = node_deployments.len();
    let mut rest = node_deployments;
    let mut vms: Vec<NodeDeployment> = Vec::new();
    let mut switches: Vec<NodeDeployment> = Vec::new();
    let mut done: usize = 0;
    while rest.len() > 0
        invariant
            rest@ == all.skip(done as int),
            done <= all.len(),
            all.len() == total,
            all == node_deployments@,
            separation(all.take(done as int)) == Ok::<(Seq<NodeDeployment>, Seq<NodeDeployment>), TemplaterError>(
                (vms@, switches@),
            ),
        decreases rest@.len(),
    {
        let d = rest.remove(0);
        proof {
            assert(d == all[done as int]);
            assert(all.take(done + 1).drop_last() =~= all.take(done as int));
            assert(all.take(done + 1).last() == d);
        }
        let kind = match &d.node {
            None => Err(TemplaterError::NodeNotFound),
            Some(n) => match &n.identifier {
                None => Err(TemplaterError::IdentifierNotFound),
                Some(id) => Ok(id.node_type),
            },
        };
        match kind {
            Err(e) => {
                proof {
                    assert(separation(all.take(done + 1)) == Err::<(Seq<NodeDeployment>, Seq<NodeDeployment>), TemplaterError>(e));
                    lemma_separation_err_extends(all, done + 1);
                }
                return Err(e);
            },
            Ok(NodeType::VM) => vms.push(d),
            Ok(NodeType::Switch) => switches.push(d),
        }
        done = done + 1;
        proof {
            assert(rest@ =~= all.skip(done as int));
        }
    }
    proof {
        assert(all.take(done as int) =~= all);
    }
    Ok((vms, switches))
}

/// Once a prefix is refused, every longer prefix is refused the same way.
proof fn lemma_separation_err_extends(s: Seq<NodeDeployment>, n: int)
    requires
        0 <= n <= s.len(),
        separation(s.take(n)) is Err,
    ensures
        separation(s) == separation(s.take(n)),
    decreases s.len() - n,
{
    if n < s.len() {
        assert(s.take(n + 1).drop_last() =~= s.take(n));
        lemma_separation_err_extends(s, n + 1);
    } else {
        assert(s.take(n) =~= s);
    }
}

/// The node deployments that could be made, in order; refused when there are none.
pub open spec fn successful<E>(s: Seq<Result<NodeDeployment, E>>) -> Seq<NodeDeployment>
    decreases s.len(),
{
    if s.len() == 0 {
        Seq::empty()
    } else {
        successful(s.drop_last()) + match s.last() {
            Ok(d) => seq![d],
            Err(_) => Seq::empty(),
        }
    }
}

pub fn filter_node_deployments<E>(node_deployment_results: Vec<Result<NodeDeployment, E>>) -> (r: Result<
    Vec<NodeDeployment>,
    TemplaterError,
>)
    ensures
        successful(node_deployment_results@).len() == 0 ==> r == Err::<Vec<NodeDeployment>, TemplaterError>(
            TemplaterError::NoNodesToDeploy,
        ),
        successful(node_deployment_results@).len() > 0 ==> (r matches Ok(v) && v@ == successful(
            node_deployment_results@,
        )),
{
    let ghost all = node_deployment_results@;
    let total = node_deployment_results.len();
    let mut rest = node_deployment_results;
    let mut kept: Vec<NodeDeployment> = Vec::new();
    let mut done: usize = 0;
    while rest.len() > 0
        invariant
            rest@ == all.skip(done as int),
            done <= all.len(),
            all.len() == total,
            kept@ == successful(all.take(done as int)),
        decreases rest@.len(),
    {
        let x = rest.remove(0);
        proof {
            assert(x == all[done as int]);
            assert(all.take(done + 1).drop_last() =~= all.take(done as int));
            assert(all.take(done + 1).last() == x);
        }
        match x {
            Ok(d) => kept.push(d),
            Err(_) => {},
        }
        done = done + 1;
        proof {
            assert(rest@ =~= all.skip(done as int));
            assert(kept@ =~= successful(all.take(done as int)));
        }
    }
    proof {
        assert(all.take(done as int) =~= all);
    }
    if kept.len() == 0 {
        Err(TemplaterError::NoNodesToDeploy)
    } else {
        Ok(kept)
    }
}

/// The templates that were made, by node name; the nodes whose templating failed are left out.
pub open spec fn successful_templates<E>(m: Map<Seq<char>, Result<String, E>>) -> Map<Seq<char>, String> {
    Map::new(|k: Seq<char>| m.dom().contains(k) && m[k] is Ok, |k: Seq<char>| m[k]->Ok_0)
}

pub fn filter_templation_results<E>(template_ids: NamedMap<Result<String, E>>) -> (r: NamedMap<String>)
    requires
        template_ids.wf(),
    ensures
        r.wf(),
        r@ == successful_templates(template_ids@),
{
    let ghost orig = template_ids.spec_entries();
    let ghost orig_map = template_ids@;
    let mut rest = template_ids.into_entries();
    let mut kept: NamedMap<String> = NamedMap::new();
    proof {
        lemma_entries_map_dom(orig);
    }
    while rest.len() > 0
        invariant
            kept.wf(),
            entry_keys(orig).no_duplicates(),
            orig_map == entries_map(orig),
            rest@ == orig.take(rest@.len() as int),
            rest@.len() <= orig.len(),
            forall|k| #[trigger]
                kept@.dom().contains(k) <==> (exists|j: int|
                    rest@.len() <= j < orig.len() && orig[j].0@ == k && orig[j].1 is Ok),
            forall|k| #[trigger] kept@.dom().contains(k) ==> orig_map[k] == Ok::<String, E>(kept@[k]),
        decreases rest@.len(),
    {
        let ghost n = rest@.len() as int;
        let (k, v) = rest.pop().unwrap();
        proof {
            assert(orig[n - 1] == (k, v));
            lemma_entries_map_index(orig, n - 1);
            assert(rest@ == orig.take(n - 1));
        }
        match v {
            Ok(id) => kept.insert(k, id),
            Err(_) => {},
        }
        proof {
            assert forall|key| #[trigger]
                kept@.dom().contains(key) <==> (exists|j: int|
                    n - 1 <= j < orig.len() && orig[j].0@ == key && orig[j].1 is Ok) by {
                if exists|j: int| n - 1 <= j < orig.len() && orig[j].0@ == key && orig[j].1 is Ok {
                    let j = choose|j: int| n - 1 <= j < orig.len() && orig[j].0@ == key && orig[j].1 is Ok;
                    if j != n - 1 {
                        assert(n <= j < orig.len() && orig[j].0@ == key && orig[j].1 is Ok);
                    }
                }
                if kept@.dom().contains(key) && key != orig[n - 1].0@ {
                    let j = choose|j: int| n <= j < orig.len() && orig[j].0@ == key && orig[j].1 is Ok;
                    assert(n - 1 <= j);
                }
            }
        }
    }
    proof {
        assert(kept@ =~= successful_templates(orig_map)) by {
            assert forall|k| kept@.dom().contains(k) <==> successful_templates(orig_map).dom().contains(k) by {
                if orig_map.dom().contains(k) {
                    assert(entry_keys(orig).to_set().contains(k));
                    let j = choose|j: int| 0 <= j < entry_keys(orig).len() && entry_keys(orig)[j] == k;
                    assert(orig[j].0@ == k);
                    lemma_entries_map_index(orig, j);
                }
                if kept@.dom().contains(k) {
                    let j = choose|j: int| 0 <= j < orig.len() && orig[j].0@ == k && orig[j].1 is Ok;
                    lemma_entries_map_index(orig, j);
                }
            }
        }
    }
    kept
}

/// The deployer each item goes to when items are dealt out to deployers in
/// turn, starting again with the first one after the last: the `i`-th item goes
/// to deployer `i` modulo their number. Without deployers nothing is dealt out.
pub fn deal_round_robin<T>(items: Vec<T>, deployers: &Vec<String>) -> (r: Vec<(T, String)>)
    ensures
        deployers@.len() == 0 ==> r@.len() == 0,
        deployers@.len() > 0 ==> r@.len() == items@.len(),
        deployers@.len() > 0 ==> forall|i: int|
            0 <= i < r@.len() ==> (#[trigger] r@[i]).0 == items@[i] && r@[i].1 == deployers@[i % deployers@.len() as int],
{
    let mut r: Vec<(T, String)> = Vec::new();
    if deployers.len() == 0 {
        return r;
    }
    let ghost all = items@;
    let total = items.len();
    let mut rest = items;
    let mut i: usize = 0;
    while rest.len() > 0
        invariant
            deployers@.len() > 0,
            rest@ == all.skip(i as int),
            i <= all.len(),
            all.len() == total,
            r@.len() == i,
            forall|j: int|
                0 <= j < i ==> (#[trigger] r@[j]).0 == all[j] && r@[j].1 == deployers@[j % deployers@.len() as int],
        decreases rest@.len(),
    {
        let x = rest.remove(0);
        proof {
            assert(x == all[i as int]);
        }
        let d = deployers[i % deployers.len()].clone();
        r.push((x, d));
        i = i + 1;
        proof {
            assert(rest@ =~= all.skip(i as int));
        }
    }
    r
}

/// How many of the first `m` items dealt out in turn to `n` deployers go to deployer `d`.
pub open spec fn count_dealt(m: nat, n: nat, d: int) -> nat
    decreases m,
{
    if m == 0 {
        0
    } else {
        count_dealt((m - 1) as nat, n, d) + if ((m - 1) as int) % (n as int) == d {
            1nat
        } else {
            0nat
        }
    }
}

proof fn lemma_count_dealt(m: nat, n: nat, d: int)
    requires
        n > 0,
        0 <= d < n,
    ensures
        count_dealt(m, n, d) == (m as int) / (n as int) + if d < (m as int) % (n as int) {
            1int
        } else {
            0int
        },
    decreases m,
{
    if m == 0 {
        assert((m as int) / (n as int) == 0 && (m as int) % (n as int) == 0) by (nonlinear_arith)
            requires
                m == 0,
                n > 0,
        ;
    } else {
        let k = (m - 1) as int;
        lemma_count_dealt((m - 1) as nat, n, d);
        let q = k / (n as int);
        let r = k % (n as int);
        assert(k == q * n + r && 0 <= r < n) by (nonlinear_arith)
            requires
                n > 0,
                q == k / (n as int),
                r == k % (n as int),
        ;
        assert(count_dealt(m, n, d) == count_dealt((m - 1) as nat, n, d) + if r == d {
            1int
        } else {
            0int
        });
        if r + 1 < n {
            assert((m as int) / (n as int) == q && (m as int) % (n as int) == r + 1) by (nonlinear_arith)
                requires
                    m == k + 1,
                    k == q * n + r,
                    0 <= r,
                    r + 1 < n,
            ;
        } else {
            assert(m == (q + 1) * n) by (nonlinear_arith)
                requires
                    m == k + 1,
                    k == q * n + r,
                    r + 1 == n,
            ;
            vstd::arithmetic::div_mod::lemma_div_multiples_vanish(q + 1, n as int);
            vstd::arithmetic::div_mod::lemma_mod_multiples_basic(q + 1, n as int);
            assert((q + 1) * (n as int) == (n as int) * (q + 1)) by (nonlinear_arith);
            assert((m as int) / (n as int) == q + 1);
            assert((m as int) % (n as int) == 0);
        }
    }
}

/// Dealing items out in turn spreads them evenly: no deployer gets more than one
/// item more than another, and the first ones get the extra items.
pub proof fn lemma_round_robin_is_even(m: nat, n: nat, d1: int, d2: int)
    requires
        n > 0,
        0 <= d1 < d2 < n,
    ensures
        count_dealt(m, n, d2) <= count_dealt(m, n, d1) <= count_dealt(m, n, d2) + 1,
{
    lemma_count_dealt(m, n, d1);
    lemma_count_dealt(m, n, d2);
}

/// The templates to make for the nodes of a scenario, in order: the nodes are
/// dealt out to the templaters in turn, and each node with a package gets a
/// template from the templater it was dealt to; nodes without one get none.
pub open spec fn templation_spec(entries: Seq<(String, Node)>, templaters: Seq<String>) -> Seq<
    (Seq<char>, Source, Seq<char>),
>
    decreases entries.len(),
{
    if entries.len() == 0 || templaters.len() == 0 {
        Seq::empty()
    } else {
        let i = entries.len() - 1;
        templation_spec(entries.drop_last(), templaters) + match entries.last().1.source {
            Some(source) => seq![(entries.last().0@, source, templaters[i % (templaters.len() as int)]@)],
            None => Seq::empty(),
        }
    }
}

pub open spec fn templation_view(v: Seq<(String, Source, String)>) -> Seq<(Seq<char>, Source, Seq<char>)> {
    v.map_values(|t: (String, Source, String)| (t.0@, t.1, t.2@))
}

/// The template requests for the nodes of a scenario: which node's package goes
/// to which templater. Refused when the scenario has no nodes.
pub fn templation_plan(scenario: &Scenario, templaters: &Vec<String>) -> (r: Result<
    Vec<(String, Source, String)>,
    TemplaterError,
>)
    ensures
        match scenario.nodes {
            None => r == Err::<Vec<(String, Source, String)>, TemplaterError>(TemplaterError::NodesNotFound),
            Some(nodes) => r matches Ok(v) && templation_view(v@) == templation_spec(nodes.spec_entries(), templaters@),
        },
{
    let nodes = match &scenario.nodes {
        Some(n) => n,
        None => {
            return Err(TemplaterError::NodesNotFound);
        },
    };
    let entries = nodes.entries();
    let mut plan: Vec<(String, Source, String)> = Vec::new();
    if templaters.len() == 0 {
        proof {
            assert(templation_spec(entries@, templaters@) =~= Seq::<(Seq<char>, Source, Seq<char>)>::empty());
            assert(templation_view(plan@) =~= Seq::<(Seq<char>, Source, Seq<char>)>::empty());
        }
        return Ok(plan);
    }
    let mut i: usize = 0;
    while i < entries.len()
        invariant
            entries@ == nodes.spec_entries(),
            templaters@.len() > 0,
            i <= entries@.len(),
            templation_view(plan@) == templation_spec(entries@.take(i as int), templaters@),
        decreases entries@.len() - i,
    {
        let ghost before = templation_view(plan@);
        if let Some(source) = &entries[i].1.source {
            let templater = templaters[i % templaters.len()].clone();
            plan.push((entries[i].0.clone(), copy_source(source), templater));
            proof {
                assert(templation_view(plan@) =~= before.push(
                    (entries@[i as int].0@, *source, templaters@[(i as int) % (templaters@.len() as int)]@),
                ));
            }
        }
        proof {
            assert(entries@.take(i + 1).drop_last() =~= entries@.take(i as int));
            assert(entries@.take(i + 1).last() == entries@[i as int]);
            assert(templation_view(plan@) =~= templation_spec(entries@.take(i + 1), templaters@));
        }
        i = i + 1;
    }
    proof {
        assert(entries@.take(i as int) =~= entries@);
    }
    Ok(plan)
}

/// The name of an exercise made for a deployment: the scenario's name, a
/// hyphen, and the text of the deployment's identifier.
pub fn exercise_name(scenario_name: &String, deployment_id: Uuid) -> (name: String)
    ensures
        name@ == scenario_name@ + seq!['-'] + uuid_text(deployment_id),
{
    let mut name = scenario_name.clone();
    name.append("-");
    let id = uuid_to_string(deployment_id);
    name.append(id.as_str());
    proof {
        reveal_strlit("-");
        assert(name@ =~= scenario_name@ + seq!['-'] + uuid_text(deployment_id));
    }
    name
}

} // verus!
