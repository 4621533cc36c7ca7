//! What is recorded of each deployment element once a deployer has answered,
//! and which elements are taken down when a deployment is removed.

use crate::model::{
    DeployerTypes, DeploymentClientResponse, DeploymentElement, ElementStatus, ExecutorResponse,
    Identifier, UpdateDeploymentElement, Uuid,
};
use vstd::prelude::*;

verus! {

/// Why an answer of a deployer could not be used.
#[derive(PartialEq, Eq, Structural, Clone, Copy, Debug)]
pub enum ResponseError {
    NotIdentifier,
    NotExecutorResponse,
    NotTemplateResponse,
    NotConditionResponse,
    /// An executor reported success without an identifier.
    MissingIdentifier,
}

/// The identifier a deployer answered with.
pub fn identifier_of<T, S>(response: DeploymentClientResponse<T, S>) -> (r: Result<Identifier, ResponseError>)
    ensures
        match response {
            DeploymentClientResponse::Identifier(id) => r == Ok::<Identifier, ResponseError>(id),
            _ => r == Err::<Identifier, ResponseError>(ResponseError::NotIdentifier),
        },
{
    match response {
        DeploymentClientResponse::Identifier(id) => Ok(id),
        _ => Err(ResponseError::NotIdentifier),
    }
}

/// The executor's answer a deployer passed on.
pub fn executor_response_of<T, S>(response: DeploymentClientResponse<T, S>) -> (r: Result<
    ExecutorResponse,
    ResponseError,
>)
    ensures
        match response {
            DeploymentClientResponse::ExecutorResponse(e) => r == Ok::<ExecutorResponse, ResponseError>(e),
            _ => r == Err::<ExecutorResponse, ResponseError>(ResponseError::NotExecutorResponse),
        },
{
    match response {
        DeploymentClientResponse::ExecutorResponse(e) => Ok(e),
        _ => Err(ResponseError::NotExecutorResponse),
    }
}

/// The template's answer a deployer passed on.
pub fn template_response_of<T, S>(response: DeploymentClientResponse<T, S>) -> (r: Result<T, ResponseError>)
    ensures
        match response {
            DeploymentClientResponse::TemplateResponse(t) => r == Ok::<T, ResponseError>(t),
            _ => r == Err::<T, ResponseError>(ResponseError::NotTemplateResponse),
        },
{
    match response {
        DeploymentClientResponse::TemplateResponse(t) => Ok(t),
        _ => Err(ResponseError::NotTemplateResponse),
    }
}

/// The identifier and the stream of values of a deployed condition.
pub fn condition_response_of<T, S>(response: DeploymentClientResponse<T, S>) -> (r: Result<
    (Identifier, S),
    ResponseError,
>)
    ensures
        match response {
            DeploymentClientResponse::ConditionResponse(id, s) => r == Ok::<(Identifier, S), ResponseError>(
                (id, s),
            ),
            _ => r == Err::<(Identifier, S), ResponseError>(ResponseError::NotConditionResponse),
        },
{
    match response {
        DeploymentClientResponse::ConditionResponse(id, s) => Ok((id, s)),
        _ => Err(ResponseError::NotConditionResponse),
    }
}

/// An element with another status.
pub open spec fn with_status(e: DeploymentElement, status: ElementStatus) -> DeploymentElement {
    DeploymentElement { status, ..e }
}

/// An element that was deployed and is known to its deployer under `handler`.
pub open spec fn deployed_as(e: DeploymentElement, handler: String) -> DeploymentElement {
    DeploymentElement { status: ElementStatus::Success, handler_reference: Some(handler), ..e }
}

/// What follows from a deployer's answer about an element.
pub enum Settlement<T, E> {
    /// Store the element as given; the work succeeded and yielded the value.
    Stored(UpdateDeploymentElement, T),
    /// Store the element as given, which has failed, and give up with the deployer's error.
    Failed(UpdateDeploymentElement, E),
    /// The answer could not be used; nothing is stored.
    Unexpected(ResponseError),
}

fn failed<T, E>(exercise_id: Uuid, element: DeploymentElement, error: E) -> (r: Settlement<T, E>)
    ensures
        r == Settlement::<T, E>::Failed(
            UpdateDeploymentElement(exercise_id, with_status(element, ElementStatus::Failed)),
            error,
        ),
{
    let mut element = element;
    element.status = ElementStatus::Failed;
    Settlement::Failed(UpdateDeploymentElement(exercise_id, element), error)
}

/// Settles an element whose deployer answers with an identifier (templates,
/// virtual machines, switches): it is deployed under that identifier; it has
/// failed when the deployer failed.
pub fn settle_identified<T, S, E>(
    exercise_id: Uuid,
    element: DeploymentElement,
    answer: Result<DeploymentClientResponse<T, S>, E>,
) -> (r: Settlement<(), E>)
    ensures
        match answer {
            Ok(DeploymentClientResponse::Identifier(id)) => r == Settlement::<(), E>::Stored(
                UpdateDeploymentElement(exercise_id, deployed_as(element, id.value)),
                (),
            ),
            Ok(_) => r == Settlement::<(), E>::Unexpected(ResponseError::NotIdentifier),
            Err(e) => r == Settlement::<(), E>::Failed(
                UpdateDeploymentElement(exercise_id, with_status(element, ElementStatus::Failed)),
                e,
            ),
        },
{
    match answer {
        Ok(response) => match identifier_of(response) {
            Ok(id) => {
                let mut element = element;
                element.status = ElementStatus::Success;
                element.handler_reference = Some(id.value);
                Settlement::Stored(UpdateDeploymentElement(exercise_id, element), ())
            },
            Err(e) => Settlement::Unexpected(e),
        },
        Err(e) => failed(exercise_id, element, e),
    }
}

/// Settles a condition element: it is deployed under the identifier the deployer
/// answered with, and the stream of the condition's values is handed on.
pub fn settle_condition<T, S, E>(
    exercise_id: Uuid,
    element: DeploymentElement,
    answer: Result<DeploymentClientResponse<T, S>, E>,
) -> (r: Settlement<S, E>)
    ensures
        match answer {
            Ok(DeploymentClientResponse::ConditionResponse(id, stream)) => r == Settlement::<S, E>::Stored(
                UpdateDeploymentElement(exercise_id, deployed_as(element, id.value)),
                stream,
            ),
            Ok(_) => r == Settlement::<S, E>::Unexpected(ResponseError::NotConditionResponse),
            Err(e) => r == Settlement::<S, E>::Failed(
                UpdateDeploymentElement(exercise_id, with_status(element, ElementStatus::Failed)),
                e,
            ),
        },
{
    match answer {
        Ok(response) => match condition_response_of(response) {
            Ok((id, stream)) => {
                let mut element = element;
                element.status = ElementStatus::Success;
                element.handler_reference = Some(id.value);
                Settlement::Stored(UpdateDeploymentElement(exercise_id, element), stream)
            },
            Err(e) => Settlement::Unexpected(e),
        },
        Err(e) => failed(exercise_id, element, e),
    }
}

/// The element of a feature after its executor answered: deployed under the
/// answer's identifier, and, for a service, with the executor's log kept.
pub open spec fn feature_deployed(e: DeploymentElement, is_service: bool, response: ExecutorResponse) -> DeploymentElement
    recommends
        response.identifier is Some,
{
    DeploymentElement {
        executor_log: if is_service {
            Some(response.vm_log)
        } else {
            e.executor_log
        },
        ..deployed_as(e, response.identifier->0.value)
    }
}

/// Settles a feature element. An answer without an identifier is refused.
pub fn settle_feature<T, S, E>(
    exercise_id: Uuid,
    element: DeploymentElement,
    is_service: bool,
    answer: Result<DeploymentClientResponse<T, S>, E>,
) -> (r: Settlement<(), E>)
    ensures
        match answer {
            Ok(DeploymentClientResponse::ExecutorResponse(response)) => match response.identifier {
                Some(_) => r == Settlement::<(), E>::Stored(
                    UpdateDeploymentElement(exercise_id, feature_deployed(element, is_service, response)),
                    (),
                ),
                None => r == Settlement::<(), E>::Unexpected(ResponseError::MissingIdentifier),
            },
            Ok(_) => r == Settlement::<(), E>::Unexpected(ResponseError::NotExecutorResponse),
            Err(e) => r == Settlement::<(), E>::Failed(
                UpdateDeploymentElement(exercise_id, with_status(element, ElementStatus::Failed)),
                e,
            ),
        },
{
    match answer {
        Ok(response) => match executor_response_of(response) {
            Ok(response) => match response.identifier {
                Some(id) => {
                    let mut element = element;
                    if is_service {
                        element.executor_log = Some(response.vm_log);
                    }
                    element.status = ElementStatus::Success;
                    element.handler_reference = Some(id.value);
                    Settlement::Stored(UpdateDeploymentElement(exercise_id, element), ())
                },
                None => Settlement::Unexpected(ResponseError::MissingIdentifier),
            },
            Err(e) => Settlement::Unexpected(e),
        },
        Err(e) => failed(exercise_id, element, e),
    }
}

/// The element of an inject after its executor answered: deployed under the
/// answer's identifier, with the executor's log kept unless it is empty.
pub open spec fn inject_deployed(e: DeploymentElement, response: ExecutorResponse) -> DeploymentElement
    recommends
        response.identifier is Some,
{
    DeploymentElement {
        executor_log: if response.vm_log@.len() == 0 {
            None
        } else {
            Some(response.vm_log)
        },
        ..deployed_as(e, response.identifier->0.value)
    }
}

/// Settles an inject element. An answer without an identifier is refused.
pub fn settle_inject<T, S, E>(
    exercise_id: Uuid,
    element: DeploymentElement,
    answer: Result<DeploymentClientResponse<T, S>, E>,
) -> (r: Settlement<(), E>)
    ensures
        match answer {
            Ok(DeploymentClientResponse::ExecutorResponse(response)) => match response.identifier {
                Some(_) => r == Settlement::<(), E>::Stored(
                    UpdateDeploymentElement(exercise_id, inject_deployed(element, response)),
                    (),
                ),
                None => r == Settlement::<(), E>::Unexpected(ResponseError::MissingIdentifier),
            },
            Ok(_) => r == Settlement::<(), E>::Unexpected(ResponseError::NotExecutorResponse),
            Err(e) => r == Settlement::<(), E>::Failed(
                UpdateDeploymentElement(exercise_id, with_status(element, ElementStatus::Failed)),
                e,
            ),
        },
{
    match answer {
        Ok(response) => match executor_response_of(response) {
            Ok(response) => match response.identifier {
                Some(id) => {
                    let mut element = element;
                    let log_is_empty = response.vm_log.as_str().unicode_len() == 0;
                    element.executor_log = if log_is_empty {
                        None
                    } else {
                        Some(response.vm_log)
                    };
                    element.status = ElementStatus::Success;
                    element.handler_reference = Some(id.value);
                    Settlement::Stored(UpdateDeploymentElement(exercise_id, element), ())
                },
                None => Settlement::Unexpected(ResponseError::MissingIdentifier),
            },
            Err(e) => Settlement::Unexpected(e),
        },
        Err(e) => failed(exercise_id, element, e),
    }
}

/// What becomes of an element when its deployment is removed.
pub enum Removal {
    /// Not a node: nothing to take down.
    Skip,
    /// Ask a deployer of this kind to take down what it knows under this handler.
    Undeploy(DeployerTypes, String),
    /// A node without a handler reference cannot be taken down.
    MissingHandlerReference,
}

pub open spec fn removal_spec(e: DeploymentElement) -> Removal {
    if e.deployer_type == DeployerTypes::VirtualMachine || e.deployer_type == DeployerTypes::Switch {
        match e.handler_reference {
            Some(h) => Removal::Undeploy(e.deployer_type, h),
            None => Removal::MissingHandlerReference,
        }
    } else {
        Removal::Skip
    }
}

/// Whether an element is taken down: virtual machines and switches are, through
/// their handler reference; other elements stay.
pub fn removal_of(element: &DeploymentElement) -> (r: Removal)
    ensures
        r == removal_spec(*element),
{
    match element.deployer_type {
        DeployerTypes::VirtualMachine | DeployerTypes::Switch => match &element.handler_reference {
            Some(h) => Removal::Undeploy(element.deployer_type, h.clone()),
            None => Removal::MissingHandlerReference,
        },
        _ => Removal::Skip,
    }
}

/// Elements of a deployment that can be taken down.
pub trait RemoveableNodes {
    spec fn spec_elements(&self) -> Seq<DeploymentElement>;

    /// What becomes of each element, in order.
    fn removals(&self) -> (r: Vec<Removal>)
        ensures
            r@.len() == self.spec_elements().len(),
            forall|i: int| 0 <= i < r@.len() ==> r@[i] == removal_spec(#[trigger] self.spec_elements()[i]),
    ;
}

impl RemoveableNodes for Vec<DeploymentElement> {
    open spec fn spec_elements(&self) -> Seq<DeploymentElement> {
        self@
    }

    fn removals(&self) -> (r: Vec<Removal>) {
        let mut r: Vec<Removal> = Vec::new();
        let mut i: usize = 0;
        while i < self.len()
            invariant
                i <= self@.len(),
                r@.len() == i,
                forall|j: int| 0 <= j < i ==> r@[j] == removal_spec(#[trigger] self@[j]),
            decreases self@.len() - i,
        {
            r.push(removal_of(&self[i]));
            i = i + 1;
        }
        r
    }
}

/// The element after its deployer answered a request to take it down: removed,
/// or marked as failed to remove; the deployer's answer is handed on.
pub fn settle_removal<E>(exercise_id: Uuid, element: DeploymentElement, answer: Result<(), E>) -> (r: (
    UpdateDeploymentElement,
    Result<(), E>,
))
    ensures
        r.0 == UpdateDeploymentElement(
            exercise_id,
            with_status(
                element,
                if answer is Ok {
                    ElementStatus::Removed
                } else {
                    ElementStatus::RemoveFailed
                },
            ),
        ),
        r.1 == answer,
{
    let mut element = element;
    element.status = if answer.is_ok() {
        ElementStatus::Removed
    } else {
        ElementStatus::RemoveFailed
    };
    (UpdateDeploymentElement(exercise_id, element), answer)
}

/// A virtual machine or switch recorded as deployed under a handler is taken
/// down through that same handler, and the removal is recorded on the same element.
pub proof fn lemma_deployed_node_is_removable(e: DeploymentElement, handler: String)
    requires
        e.deployer_type == DeployerTypes::VirtualMachine || e.deployer_type == DeployerTypes::Switch,
    ensures
        removal_spec(deployed_as(e, handler)) == Removal::Undeploy(e.deployer_type, handler),
        with_status(deployed_as(e, handler), ElementStatus::Removed).handler_reference == Some(handler),
        with_status(deployed_as(e, handler), ElementStatus::Removed).id == e.id,
{
}

} // verus!
