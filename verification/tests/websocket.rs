use ranger::websocket::{
    RegisterExerciseSocket, SocketDeploymentElement, SocketExerciseUpdate, SocketScoring, UnRegisterExercise,
    WebSocketError, WebSocketManager,
};

#[test]
fn registered_listeners_receive_updates_until_unregistered() {
    let mut m: WebSocketManager<String> = WebSocketManager::new();
    m.handle_register(RegisterExerciseSocket(1, 10, "first".to_string())).unwrap();
    m.handle_register(RegisterExerciseSocket(1, 11, "second".to_string())).unwrap();
    m.handle_register(RegisterExerciseSocket(2, 12, "other".to_string())).unwrap();
    let mut targets = m.get_exercise_targets(1);
    targets.sort();
    assert_eq!(targets, vec!["first".to_string(), "second".to_string()]);
    assert_eq!(m.handle_exercise_update(&SocketExerciseUpdate(2, ())).len(), 1);
    m.handle_unregister(UnRegisterExercise(1, 10)).unwrap();
    assert_eq!(m.get_exercise_targets(1), vec!["second".to_string()]);
    assert_eq!(m.handle_scoring(&SocketScoring(1, 5u8)), vec!["second".to_string()]);
    assert_eq!(m.handle_deployment_element(&SocketDeploymentElement(2, ())), vec!["other".to_string()]);
}

#[test]
fn unregistering_unknown_listeners_is_refused() {
    let mut m: WebSocketManager<String> = WebSocketManager::new();
    assert_eq!(m.handle_unregister(UnRegisterExercise(1, 10)), Err(WebSocketError::NoExerciseWebsockets));
    m.handle_register(RegisterExerciseSocket(1, 10, "first".to_string())).unwrap();
    assert_eq!(m.handle_unregister(UnRegisterExercise(1, 11)), Err(WebSocketError::NoRecipient));
    assert!(m.get_exercise_targets(3).is_empty());
}

#[test]
fn registering_again_replaces_the_listener() {
    let mut m: WebSocketManager<String> = WebSocketManager::new();
    m.handle_register(RegisterExerciseSocket(1, 10, "old".to_string())).unwrap();
    m.handle_register(RegisterExerciseSocket(1, 10, "new".to_string())).unwrap();
    assert_eq!(m.get_exercise_targets(1), vec!["new".to_string()]);
}
