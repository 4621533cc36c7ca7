//! The requests that put conditions, features and injects on deployed virtual
//! machines, and what must be known before each can be made.

use crate::ids::{parse_uuid, parsed_uuid};
use crate::model::{Account, AccountCredentials, DeployerTypes, DeploymentElement, ElementStatus, Source, Uuid};
use crate::names::NamedMap;
use crate::refs::copy_names;
use crate::refs::opt_map;
use crate::scenario::{Condition, Feature, FeatureType, Inject, Node, Role, Scenario};
use vstd::prelude::*;

verus! {

/// Why a condition, feature or inject could not be requested.
#[derive(PartialEq, Eq, Structural, Clone, Copy, Debug)]
pub enum RequestError {
    /// The virtual machine's element carries no handler reference.
    HandlerReferenceNotFound,
    /// The virtual machine's handler reference is not the text of an identifier.
    VirtualMachineIdUnreadable,
    /// The feature or inject names no package.
    SourceNotFound,
    /// The role named for the work is not among the node's roles.
    RoleNotFound,
    /// A scheduled feature is not among the scenario's features.
    FeatureNotFound,
}

/// A text that is empty when absent.
pub open spec fn text_or_empty(s: Option<String>) -> Seq<char> {
    match s {
        Some(t) => t@,
        None => Seq::empty(),
    }
}

fn string_or_empty(s: Option<String>) -> (r: String)
    ensures
        r@ == text_or_empty(s),
{
    match s {
        Some(t) => t,
        None => String::new(),
    }
}

/// The credentials of a stored account: its username, and its password and
/// private key, empty when it has none.
pub fn credentials_of(account: Account) -> (c: AccountCredentials)
    ensures
        c.username == account.username,
        c.password@ == text_or_empty(account.password),
        c.private_key@ == text_or_empty(account.private_key),
{
    AccountCredentials {
        username: account.username,
        password: string_or_empty(account.password),
        private_key: string_or_empty(account.private_key),
    }
}

/// A package copied field by field.
pub fn copy_source(s: &Source) -> (r: Source)
    ensures
        r == *s,
{
    Source { name: s.name.clone(), version: s.version.clone() }
}

/// The username of the role a node gives to a piece of work.
pub fn role_username(roles: &NamedMap<Role>, role_name: &String) -> (r: Result<String, RequestError>)
    requires
        roles.wf(),
    ensures
        roles@.dom().contains(role_name@) ==> r == Ok::<String, RequestError>(roles@[role_name@].username),
        !roles@.dom().contains(role_name@) ==> r == Err::<String, RequestError>(RequestError::RoleNotFound),
{
    match roles.get(role_name) {
        Some(role) => Ok(role.username.clone()),
        None => Err(RequestError::RoleNotFound),
    }
}

/// A request to watch a condition on a virtual machine.
pub struct ConditionRequest {
    pub name: String,
    pub source: Option<Source>,
    pub command: String,
    /// Seconds between two readings; the condition's interval read as a signed
    /// 32-bit number, zero when it has none.
    pub interval: i32,
    pub virtual_machine_id: String,
    pub account: AccountCredentials,
}

/// A 32-bit unsigned number read as a signed one.
pub open spec fn as_signed(v: u32) -> int {
    if v <= 0x7fff_ffff {
        v as int
    } else {
        v - 0x1_0000_0000
    }
}

fn signed_of(v: u32) -> (r: i32)
    ensures
        r == as_signed(v),
{
    assert((v as i32) == (if v <= 0x7fff_ffff { v as int } else { v - 0x1_0000_0000 })) by (bit_vector);
    v as i32
}

/// The request for a condition of a node, under the node's own name for it, on
/// the virtual machine known by `virtual_machine_id`, run with `account`.
pub fn create_condition_request(
    virtual_machine_id: &String,
    condition: &Condition,
    node_condition_name: &String,
    account: Account,
) -> (r: ConditionRequest)
    ensures
        r.name == *node_condition_name,
        r.source == condition.source,
        r.command@ == text_or_empty(condition.command),
        r.interval == as_signed(
            match condition.interval {
                Some(i) => i,
                None => 0,
            },
        ),
        r.virtual_machine_id == *virtual_machine_id,
        r.account.username == account.username,
        r.account.password@ == text_or_empty(account.password),
        r.account.private_key@ == text_or_empty(account.private_key),
{
    let source = match &condition.source {
        Some(s) => Some(copy_source(s)),
        None => None,
    };
    let command = match &condition.command {
        Some(c) => c.clone(),
        None => String::new(),
    };
    let interval = match condition.interval {
        Some(i) => i,
        None => 0,
    };
    ConditionRequest {
        name: node_condition_name.clone(),
        source,
        command,
        interval: signed_of(interval),
        virtual_machine_id: virtual_machine_id.clone(),
        account: credentials_of(account),
    }
}

/// The element that records a condition of a deployment.
pub fn condition_element(deployment_id: Uuid, condition_name: String) -> (e: DeploymentElement)
    ensures
        e.deployment_id == deployment_id,
        e.scenario_reference == condition_name,
        e.deployer_type == DeployerTypes::Condition,
        e.status == ElementStatus::Ongoing,
        e.handler_reference is None,
        e.event_id is None,
        e.parent_node_id is None,
{
    DeploymentElement::new_ongoing(deployment_id, condition_name, DeployerTypes::Condition, None, None)
}

/// A request to put a feature on a virtual machine.
pub struct FeatureRequest {
    pub name: String,
    pub virtual_machine_id: String,
    pub feature_type: FeatureType,
    pub account: AccountCredentials,
    pub source: Source,
}

/// The machine a feature goes on and the package it comes from; the machine's
/// element must carry a handler reference and the feature must name a package.
pub fn feature_target(handler_reference: &Option<String>, feature: &Feature) -> (r: Result<
    (String, Source),
    RequestError,
>)
    ensures
        match (*handler_reference, feature.source) {
            (None, _) => r == Err::<(String, Source), RequestError>(RequestError::HandlerReferenceNotFound),
            (Some(_), None) => r == Err::<(String, Source), RequestError>(RequestError::SourceNotFound),
            (Some(h), Some(s)) => r == Ok::<(String, Source), RequestError>((h, s)),
        },
{
    let vm = match handler_reference {
        Some(h) => h.clone(),
        None => {
            return Err(RequestError::HandlerReferenceNotFound);
        },
    };
    match &feature.source {
        Some(s) => Ok((vm, copy_source(s))),
        None => Err(RequestError::SourceNotFound),
    }
}

/// The username a feature of a node is deployed as: the user of the role the
/// node gives the feature. `None` when the node does not have the feature.
pub fn feature_username(node: &Node, feature_name: &String) -> (r: Option<Result<String, RequestError>>)
    requires
        node.wf(),
    ensures
        match node.features {
            Some(features) if features@.dom().contains(feature_name@) => match node.roles {
                Some(roles) if roles@.dom().contains(features@[feature_name@]@) => r == Some(
                    Ok::<String, RequestError>(roles@[features@[feature_name@]@].username),
                ),
                _ => r == Some(Err::<String, RequestError>(RequestError::RoleNotFound)),
            },
            _ => r is None,
        },
{
    let role_name = match &node.features {
        Some(features) => match features.get(feature_name) {
            Some(role_name) => role_name,
            None => {
                return None;
            },
        },
        None => {
            return None;
        },
    };
    match &node.roles {
        Some(roles) => Some(role_username(roles, role_name)),
        None => Some(Err(RequestError::RoleNotFound)),
    }
}

/// The request for a feature.
pub fn feature_request(
    name: &String,
    virtual_machine_id: String,
    feature: &Feature,
    account: Account,
    source: Source,
) -> (r: FeatureRequest)
    ensures
        r.name == *name,
        r.virtual_machine_id == virtual_machine_id,
        r.feature_type == feature.feature_type,
        r.account.username == account.username,
        r.account.password@ == text_or_empty(account.password),
        r.account.private_key@ == text_or_empty(account.private_key),
        r.source == source,
{
    FeatureRequest {
        name: name.clone(),
        virtual_machine_id,
        feature_type: feature.feature_type,
        account: credentials_of(account),
        source,
    }
}

/// The element that records a feature of a deployment.
pub fn feature_element(deployment_id: Uuid, feature_name: String) -> (e: DeploymentElement)
    ensures
        e.deployment_id == deployment_id,
        e.scenario_reference == feature_name,
        e.deployer_type == DeployerTypes::Feature,
        e.status == ElementStatus::Ongoing,
        e.handler_reference is None,
        e.event_id is None,
        e.parent_node_id is None,
{
    DeploymentElement::new_ongoing(deployment_id, feature_name, DeployerTypes::Feature, None, None)
}

/// A request to run an inject on a virtual machine.
pub struct InjectRequest {
    pub name: String,
    pub virtual_machine_id: String,
    pub source: Source,
    pub account: AccountCredentials,
    pub to_entities: Vec<String>,
}

/// The machine an inject runs on, as text and as identifier, and the package it
/// comes from: the machine's element must carry the text of an identifier and
/// the inject must name a package.
pub fn inject_target(handler_reference: &Option<String>, inject: &Inject) -> (r: Result<
    (String, Uuid, Source),
    RequestError,
>)
    ensures
        match *handler_reference {
            None => r == Err::<(String, Uuid, Source), RequestError>(RequestError::HandlerReferenceNotFound),
            Some(h) => match parsed_uuid(h@) {
                None => r == Err::<(String, Uuid, Source), RequestError>(RequestError::VirtualMachineIdUnreadable),
                Some(id) => match inject.source {
                    None => r == Err::<(String, Uuid, Source), RequestError>(RequestError::SourceNotFound),
                    Some(s) => r == Ok::<(String, Uuid, Source), RequestError>((h, id, s)),
                },
            },
        },
{
    let vm = match handler_reference {
        Some(h) => h.clone(),
        None => {
            return Err(RequestError::HandlerReferenceNotFound);
        },
    };
    let vm_id = match parse_uuid(vm.as_str()) {
        Some(id) => id,
        None => {
            return Err(RequestError::VirtualMachineIdUnreadable);
        },
    };
    match &inject.source {
        Some(s) => Ok((vm, vm_id, copy_source(s))),
        None => Err(RequestError::SourceNotFound),
    }
}

/// The element that records an inject on the virtual machine `vm_id`.
pub fn inject_element(deployment_id: Uuid, inject_name: String, vm_id: Uuid) -> (e: DeploymentElement)
    ensures
        e.deployment_id == deployment_id,
        e.scenario_reference == inject_name,
        e.deployer_type == DeployerTypes::Inject,
        e.status == ElementStatus::Ongoing,
        e.handler_reference is None,
        e.event_id is None,
        e.parent_node_id == Some(vm_id),
{
    DeploymentElement::new_ongoing(deployment_id, inject_name, DeployerTypes::Inject, None, Some(vm_id))
}

/// The request for an inject, run as `username` with the password and private
/// key of the template's account for that user.
pub fn inject_request(
    name: &String,
    virtual_machine_id: String,
    inject: &Inject,
    username: &String,
    account: Account,
    source: Source,
) -> (r: InjectRequest)
    ensures
        r.name == *name,
        r.virtual_machine_id == virtual_machine_id,
        r.source == source,
        r.account.username == *username,
        r.account.password@ == text_or_empty(account.password),
        r.account.private_key@ == text_or_empty(account.private_key),
        r.to_entities@ == (match inject.to_entities {
            Some(v) => v@,
            None => Seq::empty(),
        }),
{
    let to_entities = match &inject.to_entities {
        Some(v) => copy_names(v),
        None => Vec::new(),
    };
    let credentials = credentials_of(account);
    InjectRequest {
        name: name.clone(),
        virtual_machine_id,
        source,
        account: AccountCredentials {
            username: username.clone(),
            password: credentials.password,
            private_key: credentials.private_key,
        },
        to_entities,
    }
}

/// A feature to put on a machine: its name, the machine, its package, the user
/// it is deployed as, and its kind.
#[derive(Debug)]
pub struct FeatureJob {
    pub name: String,
    pub virtual_machine_id: String,
    pub source: Source,
    pub username: String,
    pub feature_type: FeatureType,
}

pub open spec fn feature_job_view(j: FeatureJob) -> (Seq<char>, Seq<char>, Source, Seq<char>, FeatureType) {
    (j.name@, j.virtual_machine_id@, j.source, j.username@, j.feature_type)
}

/// The job for one scheduled feature on a node; `None` when the node does not
/// have the feature.
pub open spec fn feature_job_spec(s: Scenario, n: Node, handler_reference: Option<String>, name: Seq<char>) -> Option<
    Result<(Seq<char>, Seq<char>, Source, Seq<char>, FeatureType), RequestError>,
> {
    let node_features = opt_map(n.features);
    let roles = opt_map(n.roles);
    let features = opt_map(s.features);
    if !node_features.dom().contains(name) {
        None
    } else if handler_reference is None {
        Some(Err(RequestError::HandlerReferenceNotFound))
    } else if !features.dom().contains(name) {
        Some(Err(RequestError::FeatureNotFound))
    } else if features[name].source is None {
        Some(Err(RequestError::SourceNotFound))
    } else if !roles.dom().contains(node_features[name]@) {
        Some(Err(RequestError::RoleNotFound))
    } else {
        Some(
            Ok(
                (
                    name,
                    handler_reference->0@,
                    features[name].source->0,
                    roles[node_features[name]@].username@,
                    features[name].feature_type,
                ),
            ),
        )
    }
}

/// The jobs of a tranche of features on a node, in order; refused with the
/// first failure.
pub open spec fn feature_jobs_spec(
    s: Scenario,
    n: Node,
    handler_reference: Option<String>,
    names: Seq<String>,
) -> Result<Seq<(Seq<char>, Seq<char>, Source, Seq<char>, FeatureType)>, RequestError>
    decreases names.len(),
{
    if names.len() == 0 {
        Ok(Seq::empty())
    } else {
        match feature_jobs_spec(s, n, handler_reference, names.drop_last()) {
            Err(e) => Err(e),
            Ok(jobs) => match feature_job_spec(s, n, handler_reference, names.last()@) {
                None => Ok(jobs),
                Some(Err(e)) => Err(e),
                Some(Ok(job)) => Ok(jobs.push(job)),
            },
        }
    }
}

/// Every job for the features of a node is for a feature that the node names
/// and the scenario defines, with the scenario's kind and package for it and
/// the user of the node's role for it.
pub proof fn lemma_feature_jobs_follow_the_scenario(s: Scenario, n: Node, h: Option<String>, names: Seq<String>)
    ensures
        feature_jobs_spec(s, n, h, names) matches Ok(jobs) ==> forall|j: int|
            0 <= j < jobs.len() ==> {
                let name = #[trigger] jobs[j].0;
                &&& opt_map(n.features).dom().contains(name)
                &&& opt_map(s.features).dom().contains(name)
                &&& opt_map(s.features)[name].source == Some(jobs[j].2)
                &&& jobs[j].4 == opt_map(s.features)[name].feature_type
                &&& jobs[j].3 == opt_map(n.roles)[opt_map(n.features)[name]@].username@
            },
    decreases names.len(),
{
    if names.len() > 0 {
        lemma_feature_jobs_follow_the_scenario(s, n, h, names.drop_last());
    }
}

/// The features of a scenario deployed on a deployed virtual machine: given the
/// deployers, the scenario, the node, the machine's element, the exercise and
/// the template the machine was made from.
pub trait DeployableNodeFeatures {
    spec fn spec_scenario(&self) -> Scenario;

    spec fn spec_node(&self) -> Node;

    spec fn spec_handler_reference(&self) -> Option<String>;

    /// The scenario's and node's maps have distinct keys.
    spec fn spec_wf(&self) -> bool;

    /// The features of a tranche of the feature schedule that the node has,
    /// each with its machine, package and user.
    fn feature_jobs(&self, tranche: &Vec<String>) -> (r: Result<Vec<FeatureJob>, RequestError>)
        requires
            self.spec_wf(),
        ensures
            match feature_jobs_spec(self.spec_scenario(), self.spec_node(), self.spec_handler_reference(), tranche@) {
                Ok(jobs) => r matches Ok(v) && v@.map_values(|j: FeatureJob| feature_job_view(j)) == jobs,
                Err(e) => r == Err::<Vec<FeatureJob>, RequestError>(e),
            },
            r matches Ok(v) ==> forall|j: int|
                0 <= j < v@.len() ==> {
                    let features = opt_map(self.spec_scenario().features);
                    &&& features.dom().contains(#[trigger] v@[j].name@)
                    &&& v@[j].feature_type == features[v@[j].name@].feature_type
                    &&& features[v@[j].name@].source == Some(v@[j].source)
                },
    ;
}

fn feature_job(scenario: &Scenario, node: &Node, handler_reference: &Option<String>, name: &String) -> (r: Option<
    Result<FeatureJob, RequestError>,
>)
    requires
        scenario.wf(),
        node.wf(),
    ensures
        match feature_job_spec(*scenario, *node, *handler_reference, name@) {
            None => r is None,
            Some(Err(e)) => r == Some(Err::<FeatureJob, RequestError>(e)),
            Some(Ok(job)) => r matches Some(Ok(j)) && feature_job_view(j) == job,
        },
        r matches Some(Ok(j)) ==> j.name@ == name@ && opt_map(scenario.features).dom().contains(name@)
            && j.feature_type == opt_map(scenario.features)[name@].feature_type,
{
    let node_features = match &node.features {
        Some(f) => f,
        None => {
            return None;
        },
    };
    let role_name = match node_features.get(name) {
        Some(r) => r,
        None => {
            return None;
        },
    };
    let vm = match handler_reference {
        Some(h) => h.clone(),
        None => {
            return Some(Err(RequestError::HandlerReferenceNotFound));
        },
    };
    let feature = match &scenario.features {
        Some(features) => match features.get(name) {
            Some(f) => f,
            None => {
                return Some(Err(RequestError::FeatureNotFound));
            },
        },
        None => {
            return Some(Err(RequestError::FeatureNotFound));
        },
    };
    let source = match &feature.source {
        Some(s) => copy_source(s),
        None => {
            return Some(Err(RequestError::SourceNotFound));
        },
    };
    let username = match &node.roles {
        Some(roles) => match role_username(roles, role_name) {
            Ok(u) => u,
            Err(e) => {
                return Some(Err(e));
            },
        },
        None => {
            return Some(Err(RequestError::RoleNotFound));
        },
    };
    Some(
        Ok(
            FeatureJob {
                name: name.clone(),
                virtual_machine_id: vm,
                source,
                username,
                feature_type: feature.feature_type,
            },
        ),
    )
}

impl DeployableNodeFeatures for (Vec<String>, Scenario, Node, DeploymentElement, Uuid, Uuid) {
    open spec fn spec_scenario(&self) -> Scenario {
        self.1
    }

    open spec fn spec_node(&self) -> Node {
        self.2
    }

    open spec fn spec_handler_reference(&self) -> Option<String> {
        self.3.handler_reference
    }

    open spec fn spec_wf(&self) -> bool {
        self.1.wf() && self.2.wf()
    }

    fn feature_jobs(&self, tranche: &Vec<String>) -> (r: Result<Vec<FeatureJob>, RequestError>) {
        let (_, scenario, node, element, _, _) = self;
        let mut jobs: Vec<FeatureJob> = Vec::new();
        let mut i: usize = 0;
        while i < tranche.len()
            invariant
                scenario.wf(),
                node.wf(),
                self.1 == *scenario,
                self.2 == *node,
                self.3 == *element,
                i <= tranche@.len(),
                feature_jobs_spec(*scenario, *node, element.handler_reference, tranche@.take(i as int)) matches Ok(
                    s,
                ) && jobs@.map_values(|j: FeatureJob| feature_job_view(j)) == s,
            decreases tranche@.len() - i,
        {
            proof {
                assert(tranche@.take(i + 1).drop_last() =~= tranche@.take(i as int));
                assert(tranche@.take(i + 1).last() == tranche@[i as int]);
            }
            let ghost before = jobs@.map_values(|j: FeatureJob| feature_job_view(j));
            match feature_job(scenario, node, &element.handler_reference, &tranche[i]) {
                None => {},
                Some(Err(e)) => {
                    proof {
                        assert(feature_jobs_spec(*scenario, *node, element.handler_reference, tranche@.take(i + 1))
                            == Err::<Seq<(Seq<char>, Seq<char>, Source, Seq<char>, FeatureType)>, RequestError>(e));
                        lemma_feature_jobs_err_extends(*scenario, *node, element.handler_reference, tranche@, i + 1);
                    }
                    return Err(e);
                },
                Some(Ok(job)) => {
                    jobs.push(job);
                    proof {
                        assert(jobs@.map_values(|j: FeatureJob| feature_job_view(j)) =~= before.push(
                            feature_job_view(jobs@.last()),
                        ));
                    }
                },
            }
            i = i + 1;
        }
        proof {
            assert(tranche@.take(i as int) =~= tranche@);
            lemma_feature_jobs_follow_the_scenario(*scenario, *node, element.handler_reference, tranche@);
            let views = jobs@.map_values(|j: FeatureJob| feature_job_view(j));
            assert forall|j: int| 0 <= j < jobs@.len() implies {
                let features = opt_map(scenario.features);
                &&& features.dom().contains(#[trigger] jobs@[j].name@)
                &&& jobs@[j].feature_type == features[jobs@[j].name@].feature_type
                &&& features[jobs@[j].name@].source == Some(jobs@[j].source)
            } by {
                assert(views[j] == feature_job_view(jobs@[j]));
                assert(views[j].0 == jobs@[j].name@);
            }
        }
        Ok(jobs)
    }
}

proof fn lemma_feature_jobs_err_extends(s: Scenario, n: Node, h: Option<String>, names: Seq<String>, k: int)
    requires
        0 <= k <= names.len(),
        feature_jobs_spec(s, n, h, names.take(k)) is Err,
    ensures
        feature_jobs_spec(s, n, h, names) == feature_jobs_spec(s, n, h, names.take(k)),
    decreases names.len() - k,
{
    if k < names.len() {
        assert(names.take(k + 1).drop_last() =~= names.take(k));
        lemma_feature_jobs_err_extends(s, n, h, names, k + 1);
    } else {
        assert(names.take(k) =~= names);
    }
}

/// An inject to run on a deployed virtual machine: given the deployers, the
/// machine's element, the exercise, the user, the template the machine was made
/// from, and the inject with its name.
pub trait DeployableInject {
    spec fn spec_element(&self) -> DeploymentElement;

    spec fn spec_username(&self) -> String;

    spec fn spec_inject(&self) -> (String, Inject);

    /// The element that records the inject and the request that runs it with
    /// the template's account for the user; refused when the machine's element
    /// has no identifier as handler reference or the inject names no package.
    fn prepare_inject(&self, account: Account) -> (r: Result<(DeploymentElement, InjectRequest), RequestError>)
        ensures
            match self.spec_element().handler_reference {
                None => r == Err::<(DeploymentElement, InjectRequest), RequestError>(
                    RequestError::HandlerReferenceNotFound,
                ),
                Some(h) => match parsed_uuid(h@) {
                    None => r == Err::<(DeploymentElement, InjectRequest), RequestError>(
                        RequestError::VirtualMachineIdUnreadable,
                    ),
                    Some(vm_id) => match self.spec_inject().1.source {
                        None => r == Err::<(DeploymentElement, InjectRequest), RequestError>(
                            RequestError::SourceNotFound,
                        ),
                        Some(source) => r matches Ok((e, req)) && {
                            &&& e.deployment_id == self.spec_element().deployment_id
                            &&& e.scenario_reference == self.spec_inject().0
                            &&& e.deployer_type == DeployerTypes::Inject
                            &&& e.status == ElementStatus::Ongoing
                            &&& e.handler_reference is None
                            &&& e.parent_node_id == Some(vm_id)
                            &&& req.name == self.spec_inject().0
                            &&& req.virtual_machine_id == h
                            &&& req.source == source
                            &&& req.account.username == self.spec_username()
                            &&& req.account.password@ == text_or_empty(account.password)
                            &&& req.account.private_key@ == text_or_empty(account.private_key)
                            &&& req.to_entities@ == (match self.spec_inject().1.to_entities {
                                Some(v) => v@,
                                None => Seq::empty(),
                            })
                        },
                    },
                },
            },
    ;
}

impl DeployableInject for (Vec<String>, DeploymentElement, Uuid, String, Uuid, (String, Inject)) {
    open spec fn spec_element(&self) -> DeploymentElement {
        self.1
    }

    open spec fn spec_username(&self) -> String {
        self.3
    }

    open spec fn spec_inject(&self) -> (String, Inject) {
        self.5
    }

    fn prepare_inject(&self, account: Account) -> (r: Result<(DeploymentElement, InjectRequest), RequestError>) {
        let (_, element, _, username, _, (inject_name, inject)) = self;
        let (vm, vm_id, source) = match inject_target(&element.handler_reference, inject) {
            Ok(t) => t,
            Err(e) => {
                return Err(e);
            },
        };
        let new_element = inject_element(element.deployment_id, inject_name.clone(), vm_id);
        let request = inject_request(inject_name, vm, inject, username, account, source);
        Ok((new_element, request))
    }
}

} // verus!
