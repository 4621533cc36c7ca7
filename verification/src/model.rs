//! Plain values shared by the deployment logic.

use crate::events::Timestamp;
use crate::ids::random_uuid;
use vstd::prelude::*;

verus! {

/// Identifier of a stored record (exercise, deployment, element, event).
pub type Uuid = u128;

/// Name and version of a package in the package registry.
#[derive(Debug)]
pub struct Source {
    pub name: String,
    pub version: String,
}

/// The kinds of work a deployer can be asked for.
#[derive(PartialEq, Eq, Structural, Clone, Copy, Debug)]
pub enum DeployerTypes {
    VirtualMachine,
    Switch,
    Template,
    Feature,
    Condition,
    Inject,
    EventInfo,
}

/// Life cycle of a deployment element.
#[derive(PartialEq, Eq, Structural, Clone, Copy, Debug)]
pub enum ElementStatus {
    Ongoing,
    Success,
    Failed,
    Removed,
    RemoveFailed,
    ConditionSuccess,
}

/// The kind of a scenario node.
#[derive(PartialEq, Eq, Structural, Clone, Copy, Debug)]
pub enum NodeType {
    VM,
    Switch,
}

/// One deployed piece of an exercise: a template, node, feature, condition or inject.
#[derive(Debug)]
pub struct DeploymentElement {
    pub id: Uuid,
    pub deployment_id: Uuid,
    pub scenario_reference: String,
    pub handler_reference: Option<String>,
    pub deployer_type: DeployerTypes,
    pub status: ElementStatus,
    pub executor_log: Option<String>,
    pub event_id: Option<Uuid>,
    pub parent_node_id: Option<Uuid>,
}

impl DeploymentElement {
    /// A new element of a deployment, not yet deployed: it gets a fresh
    /// identifier, is ongoing, and has no handler reference or log yet.
    pub fn new_ongoing(
        deployment_id: Uuid,
        scenario_reference: String,
        deployer_type: DeployerTypes,
        event_id: Option<Uuid>,
        parent_node_id: Option<Uuid>,
    ) -> (e: Self)
        ensures
            e.deployment_id == deployment_id,
            e.scenario_reference == scenario_reference,
            e.deployer_type == deployer_type,
            e.status == ElementStatus::Ongoing,
            e.handler_reference is None,
            e.executor_log is None,
            e.event_id == event_id,
            e.parent_node_id == parent_node_id,
    {
        DeploymentElement {
            id: random_uuid(),
            deployment_id,
            scenario_reference,
            handler_reference: None,
            deployer_type,
            status: ElementStatus::Ongoing,
            executor_log: None,
            event_id,
            parent_node_id,
        }
    }
}

/// A deployment of an exercise's scenario.
#[derive(Debug)]
pub struct Deployment {
    pub id: Uuid,
    pub name: String,
    /// The group of deployers to use; the manager's default group when absent.
    pub deployment_group: Option<String>,
    pub start: Timestamp,
    pub end: Timestamp,
}

/// An exercise.
#[derive(Debug)]
pub struct Exercise {
    pub id: Uuid,
    pub name: String,
}

/// A user account of a template, as stored.
#[derive(Debug)]
pub struct Account {
    pub username: String,
    pub password: Option<String>,
    pub private_key: Option<String>,
}

/// The credentials handed to a deployer: missing ones are sent empty.
#[derive(Debug)]
pub struct AccountCredentials {
    pub username: String,
    pub password: String,
    pub private_key: String,
}

/// The handle under which a deployer knows what it deployed.
#[derive(Debug)]
pub struct Identifier {
    pub value: String,
}

/// What an executor answers after running a feature or inject.
#[derive(Debug)]
pub struct ExecutorResponse {
    pub identifier: Option<Identifier>,
    pub vm_log: String,
}

/// A deployer's answer to a deployment request: an identifier, an executor's
/// answer, a template's answer, or an identifier with a stream of condition values.
#[derive(Debug)]
pub enum DeploymentClientResponse<T, S> {
    Identifier(Identifier),
    ExecutorResponse(ExecutorResponse),
    TemplateResponse(T),
    ConditionResponse(Identifier, S),
}

/// Asks the database to store a new deployment element of an exercise.
#[derive(Debug)]
pub struct CreateDeploymentElement(pub Uuid, pub DeploymentElement);

/// Asks the database to store the new state of a deployment element of an exercise.
#[derive(Debug)]
pub struct UpdateDeploymentElement(pub Uuid, pub DeploymentElement);

/// Asks the database for the element of a deployment with a scenario reference.
#[derive(Debug)]
pub struct GetDeploymentElementByDeploymentIdByScenarioReference(pub Uuid, pub String);

/// Asks the database for all elements of a deployment.
#[derive(Debug)]
pub struct GetDeploymentElementByDeploymentId(pub Uuid);

/// Asks the database for an event.
#[derive(Debug)]
pub struct GetEvent(pub Uuid);

/// The outcome of an event, as stored.
#[derive(Debug)]
pub struct EventOutcome {
    pub has_triggered: bool,
    pub triggered_at: Timestamp,
}

/// Asks the database to store the outcome of an event.
#[derive(Debug)]
pub struct UpdateEvent(pub Uuid, pub EventOutcome);

} // verus!
