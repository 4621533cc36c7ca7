//! Which conditions of a scenario are watched on a deployed virtual machine.

use crate::ids::{parse_uuid, parsed_uuid};
use crate::model::{DeploymentElement, Uuid};
use crate::names::{entry_keys, NamedMap};
use crate::scenario::{Condition, Node};
use crate::text::{eq_ignore_ascii_case, equal_ignoring_ascii_case};
use vstd::prelude::*;

verus! {

/// Deploys the conditions of deployed virtual machines.
pub struct ConditionAggregator;

impl ConditionAggregator {
    pub fn new() -> Self {
        ConditionAggregator
    }
}

/// One condition to watch on a machine: the scenario's name for it, the node's
/// name for it, and the name of the role it runs as.
pub struct ConditionJob {
    pub condition_name: String,
    pub node_condition_name: String,
    pub node_role_name: String,
}

/// Why the conditions of a machine could not be deployed.
#[derive(PartialEq, Eq, Structural, Clone, Copy, Debug)]
pub enum ConditionError {
    ScenarioConditionsNotFound,
    NodeConditionsNotFound,
    NodeRolesNotFound,
    HandlerReferenceNotFound,
}

pub open spec fn job_view(j: ConditionJob) -> (Seq<char>, Seq<char>, Seq<char>) {
    (j.condition_name@, j.node_condition_name@, j.node_role_name@)
}

pub open spec fn jobs_view(jobs: Seq<ConditionJob>) -> Seq<(Seq<char>, Seq<char>, Seq<char>)> {
    jobs.map_values(|j: ConditionJob| job_view(j))
}

/// The node's conditions that a scenario condition names, ignoring ASCII case,
/// in the node's order, each with its role.
pub open spec fn matching_conditions(name: Seq<char>, node_conditions: Seq<(String, String)>) -> Seq<
    (Seq<char>, Seq<char>, Seq<char>),
>
    decreases node_conditions.len(),
{
    if node_conditions.len() == 0 {
        Seq::empty()
    } else {
        let (node_name, role) = node_conditions.last();
        matching_conditions(name, node_conditions.drop_last()) + if equal_ignoring_ascii_case(name, node_name@) {
            seq![(name, node_name@, role@)]
        } else {
            Seq::empty()
        }
    }
}

/// Every pairing of a scenario condition with a node condition of the same
/// name, ignoring ASCII case: scenario conditions in order, and for each the
/// node's conditions in order.
pub open spec fn condition_pairs(names: Seq<Seq<char>>, node_conditions: Seq<(String, String)>) -> Seq<
    (Seq<char>, Seq<char>, Seq<char>),
>
    decreases names.len(),
{
    if names.len() == 0 {
        Seq::empty()
    } else {
        condition_pairs(names.drop_last(), node_conditions) + matching_conditions(names.last(), node_conditions)
    }
}

/// The conditions to watch on a deployed virtual machine. The scenario must
/// have conditions; when it has some, the node must have conditions and roles
/// and its element a handler reference.
pub fn condition_jobs(
    scenario_conditions: &Option<NamedMap<Condition>>,
    node: &Node,
    handler_reference: &Option<String>,
) -> (r: Result<Vec<ConditionJob>, ConditionError>)
    requires
        scenario_conditions matches Some(c) ==> c.wf(),
    ensures
        match *scenario_conditions {
            None => r == Err::<Vec<ConditionJob>, ConditionError>(ConditionError::ScenarioConditionsNotFound),
            Some(c) => if c@ == Map::<Seq<char>, Condition>::empty() {
                r matches Ok(v) && v@.len() == 0
            } else if node.conditions is None {
                r == Err::<Vec<ConditionJob>, ConditionError>(ConditionError::NodeConditionsNotFound)
            } else if node.roles is None {
                r == Err::<Vec<ConditionJob>, ConditionError>(ConditionError::NodeRolesNotFound)
            } else if handler_reference is None {
                r == Err::<Vec<ConditionJob>, ConditionError>(ConditionError::HandlerReferenceNotFound)
            } else {
                r matches Ok(v) && jobs_view(v@) == condition_pairs(
                    entry_keys(c.spec_entries()),
                    node.conditions->0.spec_entries(),
                )
            },
        },
{
    let conditions = match scenario_conditions {
        Some(c) => c,
        None => {
            return Err(ConditionError::ScenarioConditionsNotFound);
        },
    };
    let mut jobs: Vec<ConditionJob> = Vec::new();
    if conditions.is_empty() {
        return Ok(jobs);
    }
    let node_conditions = match &node.conditions {
        Some(nc) => nc,
        None => {
            return Err(ConditionError::NodeConditionsNotFound);
        },
    };
    if node.roles.is_none() {
        return Err(ConditionError::NodeRolesNotFound);
    }
    if handler_reference.is_none() {
        return Err(ConditionError::HandlerReferenceNotFound);
    }
    let names = conditions.entries();
    let pairs = node_conditions.entries();
    let ghost keys = entry_keys(conditions.spec_entries());
    let mut i: usize = 0;
    while i < names.len()
        invariant
            names@ == conditions.spec_entries(),
            keys == entry_keys(conditions.spec_entries()),
            pairs@ == node_conditions.spec_entries(),
            i <= names@.len(),
            jobs_view(jobs@) == condition_pairs(keys.take(i as int), pairs@),
        decreases names@.len() - i,
    {
        let name = &names[i].0;
        let ghost before = jobs_view(jobs@);
        let mut j: usize = 0;
        while j < pairs.len()
            invariant
                pairs@ == node_conditions.spec_entries(),
                name@ == keys[i as int],
                names@ == conditions.spec_entries(),
                keys == entry_keys(conditions.spec_entries()),
                i < names@.len(),
                j <= pairs@.len(),
                jobs_view(jobs@) == before + matching_conditions(name@, pairs@.take(j as int)),
            decreases pairs@.len() - j,
        {
            let (node_name, role) = &pairs[j];
            let ghost mid = jobs_view(jobs@);
            if eq_ignore_ascii_case(name.as_str(), node_name.as_str()) {
                jobs.push(
                    ConditionJob {
                        condition_name: name.clone(),
                        node_condition_name: node_name.clone(),
                        node_role_name: role.clone(),
                    },
                );
                proof {
                    assert(jobs_view(jobs@) =~= mid.push((name@, node_name@, role@)));
                }
            }
            proof {
                assert(pairs@.take(j + 1).drop_last() =~= pairs@.take(j as int));
                assert(pairs@.take(j + 1).last() == pairs@[j as int]);
                assert(jobs_view(jobs@) =~= before + matching_conditions(name@, pairs@.take(j + 1)));
            }
            j = j + 1;
        }
        proof {
            assert(pairs@.take(j as int) =~= pairs@);
            assert(keys.take(i + 1).drop_last() =~= keys.take(i as int));
            assert(keys.take(i + 1).last() == keys[i as int]);
            assert(jobs_view(jobs@) =~= condition_pairs(keys.take(i + 1), pairs@));
        }
        i = i + 1;
    }
    proof {
        assert(keys.take(i as int) =~= keys);
    }
    Ok(jobs)
}

/// One reading of a condition on a virtual machine, as stored.
pub struct NewConditionMessage<V> {
    pub exercise_id: Uuid,
    pub deployment_id: Uuid,
    pub virtual_machine_id: Uuid,
    pub condition_name: String,
    pub condition_id: Uuid,
    pub value: V,
}

/// Asks the database to store a reading of a condition.
pub struct CreateConditionMessage<V>(pub NewConditionMessage<V>);

/// Why the readings of a condition could not be stored.
#[derive(PartialEq, Eq, Structural, Clone, Copy, Debug)]
pub enum StreamError {
    /// The machine's element carries no handler reference.
    HandlerReferenceNotFound,
    /// The condition's element carries no handler reference.
    ConditionIdNotFound,
    /// The condition's handler reference is not the text of an identifier.
    ConditionIdUnreadable,
    /// The machine's handler reference is not the text of an identifier.
    VirtualMachineIdUnreadable,
}

/// The identifiers a reading of a condition is stored under: the condition's,
/// from its element's handler reference, and the machine's.
pub fn reading_ids(condition_handler: &Option<String>, virtual_machine_handler: &String) -> (r: Result<
    (Uuid, Uuid),
    StreamError,
>)
    ensures
        match *condition_handler {
            None => r == Err::<(Uuid, Uuid), StreamError>(StreamError::ConditionIdNotFound),
            Some(c) => match parsed_uuid(c@) {
                None => r == Err::<(Uuid, Uuid), StreamError>(StreamError::ConditionIdUnreadable),
                Some(condition_id) => match parsed_uuid(virtual_machine_handler@) {
                    None => r == Err::<(Uuid, Uuid), StreamError>(StreamError::VirtualMachineIdUnreadable),
                    Some(vm_id) => r == Ok::<(Uuid, Uuid), StreamError>((condition_id, vm_id)),
                },
            },
        },
{
    let condition_id = match condition_handler {
        None => {
            return Err(StreamError::ConditionIdNotFound);
        },
        Some(c) => match parse_uuid(c.as_str()) {
            Some(id) => id,
            None => {
                return Err(StreamError::ConditionIdUnreadable);
            },
        },
    };
    match parse_uuid(virtual_machine_handler.as_str()) {
        Some(vm_id) => Ok((condition_id, vm_id)),
        None => Err(StreamError::VirtualMachineIdUnreadable),
    }
}

/// The stored form of a reading of a condition of an exercise.
pub fn condition_message<V>(
    exercise_id: Uuid,
    condition_element: &DeploymentElement,
    virtual_machine_id: Uuid,
    condition_id: Uuid,
    value: V,
) -> (m: CreateConditionMessage<V>)
    ensures
        m.0.exercise_id == exercise_id,
        m.0.deployment_id == condition_element.deployment_id,
        m.0.virtual_machine_id == virtual_machine_id,
        m.0.condition_name == condition_element.scenario_reference,
        m.0.condition_id == condition_id,
        m.0.value == value,
{
    CreateConditionMessage(
        NewConditionMessage {
            exercise_id,
            deployment_id: condition_element.deployment_id,
            virtual_machine_id,
            condition_name: condition_element.scenario_reference.clone(),
            condition_id,
            value,
        },
    )
}

} // verus!
