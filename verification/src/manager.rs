//! The deployment manager: which deployers serve a deployment, and the order
//! of the stages of a deployment.

use crate::model::Deployment;
use crate::names::NamedMap;
use crate::refs::copy_names;
use vstd::prelude::*;

verus! {

/// Deploys scenarios with the deployers of named groups.
pub struct DeploymentManager {
    deployment_group: NamedMap<Vec<String>>,
    default_deployment_group: String,
}

/// Why a deployment could not be served.
#[derive(Debug)]
pub enum ManagerError {
    /// No group of deployers has this name.
    NoDeploymentGroup(String),
    /// No group of deployment clients has this name.
    DeploymentGroupNotFound,
}

impl DeploymentManager {
    /// The groups of deployers, by name.
    pub closed spec fn spec_groups(&self) -> Map<Seq<char>, Vec<String>> {
        self.deployment_group@
    }

    /// The group used for deployments that name none.
    pub closed spec fn spec_default_group(&self) -> Seq<char> {
        self.default_deployment_group@
    }

    pub closed spec fn wf(&self) -> bool {
        self.deployment_group.wf()
    }

    pub fn new(deployment_group: NamedMap<Vec<String>>, default_deployment_group: String) -> (m: Self)
        requires
            deployment_group.wf(),
        ensures
            m.wf(),
            m.spec_groups() == deployment_group@,
            m.spec_default_group() == default_deployment_group@,
    {
        DeploymentManager { deployment_group, default_deployment_group }
    }

    /// The group a deployment uses: the one it names, else the default one.
    pub open spec fn group_of(&self, deployment: Deployment) -> Seq<char> {
        match deployment.deployment_group {
            Some(g) => g@,
            None => self.spec_default_group(),
        }
    }

    pub fn get_deployment_group(&self, deployment: &Deployment) -> (name: String)
        ensures
            name@ == self.group_of(*deployment),
    {
        match &deployment.deployment_group {
            Some(g) => g.clone(),
            None => self.default_deployment_group.clone(),
        }
    }

    /// The deployers of the group a deployment uses; refused when there is no
    /// such group.
    pub fn get_deployers(&self, deployment: &Deployment) -> (r: Result<Vec<String>, ManagerError>)
        requires
            self.wf(),
        ensures
            self.spec_groups().dom().contains(self.group_of(*deployment)) ==> (r matches Ok(v) && v@
                == self.spec_groups()[self.group_of(*deployment)]@),
            !self.spec_groups().dom().contains(self.group_of(*deployment)) ==> (r matches Err(
                ManagerError::NoDeploymentGroup(g),
            ) && g@ == self.group_of(*deployment)),
    {
        let group = self.get_deployment_group(deployment);
        match self.deployment_group.get(&group) {
            Some(deployers) => Ok(copy_names(deployers)),
            None => Err(ManagerError::NoDeploymentGroup(group)),
        }
    }
}

/// The stages of a deployment, in the order in which they run.
#[derive(PartialEq, Eq, Structural, Clone, Copy, Debug)]
pub enum DeploymentStage {
    Templates,
    Nodes,
    Features,
    Events,
    Conditions,
    EventPollers,
}

/// What a deployment does next.
#[derive(PartialEq, Eq, Structural, Clone, Copy, Debug)]
pub enum StageStep {
    Run(DeploymentStage),
    /// Every stage succeeded.
    Finished,
    /// A stage failed; the deployment stops.
    Failed,
}

/// The stage after one that succeeded.
pub open spec fn stage_after(stage: Option<DeploymentStage>) -> StageStep {
    match stage {
        None => StageStep::Run(DeploymentStage::Templates),
        Some(DeploymentStage::Templates) => StageStep::Run(DeploymentStage::Nodes),
        Some(DeploymentStage::Nodes) => StageStep::Run(DeploymentStage::Features),
        Some(DeploymentStage::Features) => StageStep::Run(DeploymentStage::Events),
        Some(DeploymentStage::Events) => StageStep::Run(DeploymentStage::Conditions),
        Some(DeploymentStage::Conditions) => StageStep::Run(DeploymentStage::EventPollers),
        Some(DeploymentStage::EventPollers) => StageStep::Finished,
    }
}

/// What follows a stage (`None` before the first one): the next stage when it
/// succeeded, the end of the deployment when it failed.
pub fn next_step(done: Option<DeploymentStage>, succeeded: bool) -> (r: StageStep)
    ensures
        !succeeded ==> r == StageStep::Failed,
        succeeded ==> r == stage_after(done),
{
    if !succeeded {
        return StageStep::Failed;
    }
    match done {
        None => StageStep::Run(DeploymentStage::Templates),
        Some(DeploymentStage::Templates) => StageStep::Run(DeploymentStage::Nodes),
        Some(DeploymentStage::Nodes) => StageStep::Run(DeploymentStage::Features),
        Some(DeploymentStage::Features) => StageStep::Run(DeploymentStage::Events),
        Some(DeploymentStage::Events) => StageStep::Run(DeploymentStage::Conditions),
        Some(DeploymentStage::Conditions) => StageStep::Run(DeploymentStage::EventPollers),
        Some(DeploymentStage::EventPollers) => StageStep::Finished,
    }
}

/// The stages a deployment runs when every stage succeeds, in order.
pub open spec fn stages_run(n: nat) -> Seq<DeploymentStage>
    decreases n,
{
    if n == 0 {
        Seq::empty()
    } else {
        let before = stages_run((n - 1) as nat);
        let last = if before.len() == 0 {
            None
        } else {
            Some(before.last())
        };
        match stage_after(last) {
            StageStep::Run(s) => before.push(s),
            _ => before,
        }
    }
}

/// A deployment whose stages all succeed runs templates, nodes, features,
/// events, conditions and event pollers, once each and in this order, and then finishes.
pub proof fn lemma_stage_order()
    ensures
        stages_run(6) == seq![
            DeploymentStage::Templates,
            DeploymentStage::Nodes,
            DeploymentStage::Features,
            DeploymentStage::Events,
            DeploymentStage::Conditions,
            DeploymentStage::EventPollers,
        ],
        stage_after(Some(stages_run(6).last())) == StageStep::Finished,
{
    reveal_with_fuel(stages_run, 7);
    assert(stages_run(6) =~= seq![
        DeploymentStage::Templates,
        DeploymentStage::Nodes,
        DeploymentStage::Features,
        DeploymentStage::Events,
        DeploymentStage::Conditions,
        DeploymentStage::EventPollers,
    ]);
}

/// The deployers that could be reached, by name; when a name comes twice the
/// later connection is kept.
pub open spec fn reached<C, E>(results: Seq<Result<(String, C), E>>) -> Map<Seq<char>, C>
    decreases results.len(),
{
    if results.len() == 0 {
        Map::empty()
    } else {
        match results.last() {
            Ok((name, client)) => reached(results.drop_last()).insert(name@, client),
            Err(_) => reached(results.drop_last()),
        }
    }
}

/// The clients of the deployers that could be reached; the attempts that failed are dropped.
pub fn filter_clients<C, E>(results: Vec<Result<(String, C), E>>) -> (r: NamedMap<C>)
    ensures
        r.wf(),
        r@ == reached(results@),
{
    let ghost all = results@;
    let total = results.len();
    let mut rest = results;
    let mut clients: NamedMap<C> = NamedMap::new();
    let mut done: usize = 0;
    while rest.len() > 0
        invariant
            clients.wf(),
            rest@ == all.skip(done as int),
            done <= all.len(),
            all.len() == total,
            clients@ == reached(all.take(done as int)),
        decreases rest@.len(),
    {
        let x = rest.remove(0);
        proof {
            assert(x == all[done as int]);
            assert(all.take(done + 1).drop_last() =~= all.take(done as int));
            assert(all.take(done + 1).last() == x);
        }
        match x {
            Ok((name, client)) => clients.insert(name, client),
            Err(_) => {},
        }
        done = done + 1;
        proof {
            assert(rest@ =~= all.skip(done as int));
        }
    }
    proof {
        assert(all.take(done as int) =~= all);
    }
    clients
}

/// The groups added one after another; a group added again replaces the earlier one.
pub open spec fn added_groups<G>(groups: Map<Seq<char>, G>, added: Seq<(String, G)>) -> Map<Seq<char>, G>
    decreases added.len(),
{
    if added.len() == 0 {
        groups
    } else {
        added_groups(groups, added.drop_last()).insert(added.last().0@, added.last().1)
    }
}

/// Groups of deployment clients, by name.
pub struct DeploymentGroups<G> {
    groups: NamedMap<G>,
}

impl<G> DeploymentGroups<G> {
    pub closed spec fn spec_groups(&self) -> Map<Seq<char>, G> {
        self.groups@
    }

    pub closed spec fn wf(&self) -> bool {
        self.groups.wf()
    }

    pub fn new() -> (r: Self)
        ensures
            r.wf(),
            r.spec_groups() == Map::<Seq<char>, G>::empty(),
    {
        DeploymentGroups { groups: NamedMap::new() }
    }

    /// Adds groups; a group with a name already used replaces the old one.
    pub fn add_deployment_groups(&mut self, groups: Vec<(String, G)>)
        requires
            old(self).wf(),
        ensures
            final(self).wf(),
            final(self).spec_groups() == added_groups(old(self).spec_groups(), groups@),
    {
        let ghost start = self.groups@;
        let ghost all = groups@;
        let total = groups.len();
        let mut rest = groups;
        let mut done: usize = 0;
        while rest.len() > 0
            invariant
                self.groups.wf(),
                rest@ == all.skip(done as int),
                done <= all.len(),
                all.len() == total,
                self.groups@ == added_groups(start, all.take(done as int)),
            decreases rest@.len(),
        {
            let (name, group) = rest.remove(0);
            proof {
                assert((name, group) == all[done as int]);
                assert(all.take(done + 1).drop_last() =~= all.take(done as int));
                assert(all.take(done + 1).last() == all[done as int]);
            }
            self.groups.insert(name, group);
            done = done + 1;
            proof {
                assert(rest@ =~= all.skip(done as int));
            }
        }
        proof {
            assert(all.take(done as int) =~= all);
        }
    }

    /// The group with the given name.
    pub fn get_deployment_group(&self, name: &String) -> (r: Result<&G, ManagerError>)
        requires
            self.wf(),
        ensures
            self.spec_groups().dom().contains(name@) ==> (r matches Ok(g) && *g == self.spec_groups()[name@]),
            !self.spec_groups().dom().contains(name@) ==> r matches Err(ManagerError::DeploymentGroupNotFound),
    {
        match self.groups.get(name) {
            Some(g) => Ok(g),
            None => Err(ManagerError::DeploymentGroupNotFound),
        }
    }
}

} // verus!
