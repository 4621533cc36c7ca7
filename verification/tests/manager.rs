use ranger::events::Timestamp;
use ranger::mailer::{Mailer, MailerConfiguration};
use ranger::manager::{
    filter_clients, next_step, DeploymentGroups, DeploymentManager, DeploymentStage, ManagerError, StageStep,
};
use ranger::model::Deployment;
use ranger::names::NamedMap;

fn s(v: &str) -> String {
    v.to_string()
}

fn deployment(group: Option<&str>) -> Deployment {
    Deployment {
        id: 1,
        name: s("d"),
        deployment_group: group.map(s),
        start: Timestamp { seconds: 0, nanoseconds: 0 },
        end: Timestamp { seconds: 1, nanoseconds: 0 },
    }
}

fn manager() -> DeploymentManager {
    let mut groups = NamedMap::new();
    groups.insert(s("default"), vec![s("alpha")]);
    groups.insert(s("lab"), vec![s("beta"), s("gamma")]);
    DeploymentManager::new(groups, s("default"))
}

#[test]
fn deployments_use_their_group_or_the_default_one() {
    let m = manager();
    assert_eq!(m.get_deployment_group(&deployment(None)), "default");
    assert_eq!(m.get_deployers(&deployment(None)).unwrap(), vec![s("alpha")]);
    assert_eq!(m.get_deployers(&deployment(Some("lab"))).unwrap(), vec![s("beta"), s("gamma")]);
    match m.get_deployers(&deployment(Some("missing"))) {
        Err(ManagerError::NoDeploymentGroup(g)) => assert_eq!(g, "missing"),
        other => panic!("unexpected {:?}", other),
    }
}

#[test]
fn stages_run_in_order_and_stop_at_a_failure() {
    let mut done = None;
    let mut order = vec![];
    loop {
        match next_step(done, true) {
            StageStep::Run(stage) => {
                order.push(stage);
                done = Some(stage);
            },
            StageStep::Finished => break,
            StageStep::Failed => panic!("nothing failed"),
        }
    }
    assert_eq!(
        order,
        vec![
            DeploymentStage::Templates,
            DeploymentStage::Nodes,
            DeploymentStage::Features,
            DeploymentStage::Events,
            DeploymentStage::Conditions,
            DeploymentStage::EventPollers,
        ]
    );
    assert_eq!(next_step(Some(DeploymentStage::Nodes), false), StageStep::Failed);
}

#[test]
fn unreachable_deployers_are_dropped_and_later_connections_win() {
    let results: Vec<Result<(String, u8), &str>> =
        vec![Ok((s("a"), 1)), Err("down"), Ok((s("b"), 2)), Ok((s("a"), 3))];
    let clients = filter_clients(results);
    assert_eq!(clients.len(), 2);
    assert_eq!(clients.get(&s("a")), Some(&3));
    assert_eq!(clients.get(&s("b")), Some(&2));
}

#[test]
fn mailer_keeps_its_configuration() {
    let m = Mailer::new(MailerConfiguration {
        username: s("ranger"),
        password: s("SECRET-REDACTED"),
        server_address: s("smtp.example.com"),
        from_address: s("ranger@example.com"),
    });
    assert_eq!(m.configuration.server_address, "smtp.example.com");
}

#[test]
fn deployment_groups_are_found_by_name_and_replaced_when_added_again() {
    let mut groups: DeploymentGroups<u32> = DeploymentGroups::new();
    assert!(matches!(groups.get_deployment_group(&s("main")), Err(ManagerError::DeploymentGroupNotFound)));
    groups.add_deployment_groups(vec![(s("main"), 1), (s("side"), 2)]);
    assert_eq!(*groups.get_deployment_group(&s("main")).unwrap(), 1);
    groups.add_deployment_groups(vec![(s("main"), 3)]);
    assert_eq!(*groups.get_deployment_group(&s("main")).unwrap(), 3);
    assert_eq!(*groups.get_deployment_group(&s("side")).unwrap(), 2);
}
