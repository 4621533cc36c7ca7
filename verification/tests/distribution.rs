use ranger::distribution::{requested_clients, DeployerConnections, DeployerDistribution, DistributionError};
use ranger::model::DeployerTypes;
use ranger::names::NamedMap;

fn connections(vm: Option<&str>, template: Option<&str>) -> DeployerConnections<String> {
    DeployerConnections {
        virtual_machine_client: vm.map(|s| s.to_string()),
        switch_client: None,
        template_client: template.map(|s| s.to_string()),
        feature_client: None,
    }
}

fn distribution() -> DeployerDistribution<String> {
    let mut deployers = NamedMap::new();
    deployers.insert("alpha".to_string(), connections(Some("alpha-vm"), Some("alpha-template")));
    deployers.insert("beta".to_string(), connections(Some("beta-vm"), None));
    DeployerDistribution::new(deployers)
}

fn names(v: &[&str]) -> Vec<String> {
    v.iter().map(|s| s.to_string()).collect()
}

#[test]
fn booking_spreads_requests_over_the_least_loaded_deployers() {
    let mut d = distribution();
    let all = names(&["alpha", "beta"]);
    let first = d.book_best_deployer(&all, DeployerTypes::VirtualMachine).unwrap();
    let second = d.book_best_deployer(&all, DeployerTypes::VirtualMachine).unwrap();
    assert_ne!(first, second);
    assert_eq!(d.usage_of(&"alpha".to_string()), 1);
    assert_eq!(d.usage_of(&"beta".to_string()), 1);
}

#[test]
fn booking_only_picks_deployers_that_serve_the_kind() {
    let mut d = distribution();
    let all = names(&["alpha", "beta"]);
    for _ in 0..3 {
        assert_eq!(d.book_best_deployer(&all, DeployerTypes::Template).unwrap(), "alpha");
    }
    assert_eq!(d.usage_of(&"alpha".to_string()), 3);
    assert_eq!(d.usage_of(&"beta".to_string()), 0);
}

#[test]
fn booking_fails_without_a_suitable_deployer() {
    let mut d = distribution();
    let r = d.book_best_deployer(&names(&["beta", "gamma"]), DeployerTypes::Switch);
    assert_eq!(r, Err(DistributionError::NoDeployerFound));
    let r = d.book_best_deployer(&names(&[]), DeployerTypes::VirtualMachine);
    assert_eq!(r, Err(DistributionError::NoDeployerFound));
}

#[test]
fn release_undoes_a_booking() {
    let mut d = distribution();
    let all = names(&["beta"]);
    let name = d.book_best_deployer(&all, DeployerTypes::VirtualMachine).unwrap();
    assert_eq!(d.usage_of(&name), 1);
    d.release_deployer(&name);
    assert_eq!(d.usage_of(&name), 0);
    d.release_deployer(&"never-booked".to_string());
    assert_eq!(d.usage_of(&"never-booked".to_string()), 0);
}

#[test]
fn get_client_hands_out_the_client_of_the_booked_deployer() {
    let mut d = distribution();
    let (client, name) = d.get_client(&names(&["alpha", "beta"]), DeployerTypes::Template).unwrap();
    assert_eq!(client, "alpha-template");
    assert_eq!(name, "alpha");
    let r = d.get_client(&names(&["alpha", "beta"]), DeployerTypes::Condition);
    assert!(matches!(r, Err(DistributionError::NoDeployerFound)));
}

#[test]
fn release_closure_releases_only_on_success() {
    let mut d = distribution();
    let all = names(&["beta"]);
    let name = d.book_best_deployer(&all, DeployerTypes::VirtualMachine).unwrap();
    let failed: Result<(u8, String), &str> = Err("deployer failed");
    assert_eq!(d.release_deployer_closure(failed), Err("deployer failed"));
    assert_eq!(d.usage_of(&name), 1);
    let done: Result<(u8, String), &str> = Ok((7, name.clone()));
    assert_eq!(d.release_deployer_closure(done), Ok(7));
    assert_eq!(d.usage_of(&name), 0);
}

#[test]
fn clients_are_requested_for_the_offered_capabilities() {
    let r = requested_clients(&vec![DeployerTypes::Template, DeployerTypes::Switch]);
    assert!(!r.virtual_machine);
    assert!(r.switch);
    assert!(r.template);
    let none = requested_clients(&vec![]);
    assert!(!none.virtual_machine && !none.switch && !none.template);
}

#[test]
fn bookings_keep_the_load_of_acceptable_deployers_even() {
    let mut d = distribution();
    let all = names(&["alpha", "beta"]);
    for n in 1..=7 {
        d.book_best_deployer(&all, DeployerTypes::VirtualMachine).unwrap();
        let a = d.usage_of(&"alpha".to_string());
        let b = d.usage_of(&"beta".to_string());
        assert_eq!(a + b, n);
        assert!(a.abs_diff(b) <= 1);
    }
}

#[test]
fn booking_and_release_can_be_tested_beforehand() {
    let mut d = distribution();
    let all = names(&["alpha", "beta"]);
    assert!(d.can_book(&all, DeployerTypes::VirtualMachine));
    assert!(d.can_book(&names(&["gamma"]), DeployerTypes::VirtualMachine));
    assert!(d.releasable(&"alpha".to_string()));
    let name = d.book_best_deployer(&all, DeployerTypes::VirtualMachine).unwrap();
    assert!(d.releasable(&name));
    d.release_deployer(&name);
    assert!(!d.releasable(&name));
}
