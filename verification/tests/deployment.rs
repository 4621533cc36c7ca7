use ranger::deployment::{
    condition_response_of, executor_response_of, identifier_of, removal_of, settle_condition, settle_feature,
    settle_identified, settle_inject, settle_removal, template_response_of, Removal, RemoveableNodes,
    ResponseError, Settlement,
};
use ranger::model::{
    DeployerTypes, DeploymentClientResponse, DeploymentElement, ElementStatus, ExecutorResponse, Identifier,
};

type Response = DeploymentClientResponse<u8, &'static str>;

fn element(deployer_type: DeployerTypes, handler: Option<&str>) -> DeploymentElement {
    DeploymentElement {
        id: 7,
        deployment_id: 3,
        scenario_reference: "node-1".to_string(),
        handler_reference: handler.map(|h| h.to_string()),
        deployer_type,
        status: ElementStatus::Ongoing,
        executor_log: None,
        event_id: None,
        parent_node_id: None,
    }
}

fn id(v: &str) -> Identifier {
    Identifier { value: v.to_string() }
}

#[test]
fn new_elements_are_ongoing_and_unhandled() {
    let e = DeploymentElement::new_ongoing(3, "n".to_string(), DeployerTypes::Switch, Some(4), None);
    assert_eq!(e.status, ElementStatus::Ongoing);
    assert_eq!(e.deployment_id, 3);
    assert_eq!(e.event_id, Some(4));
    assert!(e.handler_reference.is_none());
    let other = DeploymentElement::new_ongoing(3, "n".to_string(), DeployerTypes::Switch, None, None);
    assert_ne!(e.id, other.id);
}

#[test]
fn answers_are_taken_apart_by_kind() {
    assert_eq!(identifier_of::<u8, u8>(DeploymentClientResponse::Identifier(id("x"))).unwrap().value, "x");
    assert_eq!(
        identifier_of::<u8, u8>(DeploymentClientResponse::TemplateResponse(1)).unwrap_err(),
        ResponseError::NotIdentifier
    );
    assert_eq!(template_response_of::<u8, u8>(DeploymentClientResponse::TemplateResponse(5)).unwrap(), 5);
    let r = executor_response_of::<u8, u8>(DeploymentClientResponse::Identifier(id("x")));
    assert_eq!(r.unwrap_err(), ResponseError::NotExecutorResponse);
    let (i, stream) =
        condition_response_of::<u8, u8>(DeploymentClientResponse::ConditionResponse(id("c"), 9)).unwrap();
    assert_eq!((i.value.as_str(), stream), ("c", 9));
}

#[test]
fn a_deployed_node_records_its_handler() {
    let answer: Result<Response, &str> = Ok(DeploymentClientResponse::Identifier(id("vm-42")));
    match settle_identified(11, element(DeployerTypes::VirtualMachine, None), answer) {
        Settlement::Stored(update, ()) => {
            assert_eq!(update.0, 11);
            assert_eq!(update.1.status, ElementStatus::Success);
            assert_eq!(update.1.handler_reference.as_deref(), Some("vm-42"));
            assert_eq!(update.1.id, 7);
        },
        _ => panic!("expected a stored element"),
    }
}

#[test]
fn a_failed_deployment_is_recorded_and_reported() {
    let answer: Result<Response, &str> = Err("deployer down");
    match settle_identified(11, element(DeployerTypes::Template, None), answer) {
        Settlement::Failed(update, error) => {
            assert_eq!(update.1.status, ElementStatus::Failed);
            assert_eq!(error, "deployer down");
        },
        _ => panic!("expected a failure"),
    }
    let wrong: Result<Response, &str> = Ok(DeploymentClientResponse::TemplateResponse(1));
    assert!(matches!(
        settle_identified(11, element(DeployerTypes::Template, None), wrong),
        Settlement::Unexpected(ResponseError::NotIdentifier)
    ));
}

#[test]
fn condition_streams_are_handed_on() {
    let answer: Result<Response, &str> = Ok(DeploymentClientResponse::ConditionResponse(id("cond"), "stream"));
    match settle_condition(1, element(DeployerTypes::Condition, None), answer) {
        Settlement::Stored(update, stream) => {
            assert_eq!(stream, "stream");
            assert_eq!(update.1.handler_reference.as_deref(), Some("cond"));
        },
        _ => panic!("expected a stored condition"),
    }
}

fn executor(identifier: Option<&str>, log: &str) -> Result<Response, &'static str> {
    Ok(DeploymentClientResponse::ExecutorResponse(ExecutorResponse {
        identifier: identifier.map(id),
        vm_log: log.to_string(),
    }))
}

#[test]
fn services_keep_their_logs_and_other_features_do_not() {
    match settle_feature(1, element(DeployerTypes::Feature, None), true, executor(Some("f"), "started")) {
        Settlement::Stored(update, ()) => assert_eq!(update.1.executor_log.as_deref(), Some("started")),
        _ => panic!("expected a stored feature"),
    }
    match settle_feature(1, element(DeployerTypes::Feature, None), false, executor(Some("f"), "copied")) {
        Settlement::Stored(update, ()) => assert!(update.1.executor_log.is_none()),
        _ => panic!("expected a stored feature"),
    }
    assert!(matches!(
        settle_feature(1, element(DeployerTypes::Feature, None), true, executor(None, "x")),
        Settlement::Unexpected(ResponseError::MissingIdentifier)
    ));
}

#[test]
fn inject_logs_are_kept_unless_empty() {
    match settle_inject(1, element(DeployerTypes::Inject, None), executor(Some("i"), "")) {
        Settlement::Stored(update, ()) => {
            assert!(update.1.executor_log.is_none());
            assert_eq!(update.1.status, ElementStatus::Success);
        },
        _ => panic!("expected a stored inject"),
    }
    match settle_inject(1, element(DeployerTypes::Inject, None), executor(Some("i"), "done")) {
        Settlement::Stored(update, ()) => assert_eq!(update.1.executor_log.as_deref(), Some("done")),
        _ => panic!("expected a stored inject"),
    }
}

#[test]
fn only_nodes_with_handlers_are_taken_down() {
    let elements = vec![
        element(DeployerTypes::VirtualMachine, Some("vm-1")),
        element(DeployerTypes::Switch, None),
        element(DeployerTypes::Feature, Some("f-1")),
    ];
    let removals = elements.removals();
    assert!(matches!(&removals[0], Removal::Undeploy(DeployerTypes::VirtualMachine, h) if h == "vm-1"));
    assert!(matches!(removals[1], Removal::MissingHandlerReference));
    assert!(matches!(removals[2], Removal::Skip));
    assert!(matches!(removal_of(&element(DeployerTypes::Template, Some("t"))), Removal::Skip));
}

#[test]
fn removals_are_recorded() {
    let (update, r) = settle_removal::<&str>(5, element(DeployerTypes::Switch, Some("s")), Ok(()));
    assert_eq!(update.1.status, ElementStatus::Removed);
    assert!(r.is_ok());
    let (update, r) = settle_removal(5, element(DeployerTypes::Switch, Some("s")), Err("gone"));
    assert_eq!(update.1.status, ElementStatus::RemoveFailed);
    assert_eq!(r, Err("gone"));
}

#[test]
fn a_deployed_node_is_taken_down_through_its_handler() {
    let answer: Result<Response, &str> = Ok(DeploymentClientResponse::Identifier(id("switch-9")));
    let stored = match settle_identified(2, element(DeployerTypes::Switch, None), answer) {
        Settlement::Stored(update, ()) => update.1,
        _ => panic!("expected a stored element"),
    };
    assert!(matches!(removal_of(&stored), Removal::Undeploy(DeployerTypes::Switch, h) if h == "switch-9"));
    let (update, _) = settle_removal::<&str>(2, stored, Ok(()));
    assert_eq!(update.1.status, ElementStatus::Removed);
    assert_eq!(update.1.handler_reference.as_deref(), Some("switch-9"));
    assert_eq!(update.1.id, 7);
}
