//! Distribution of deployment work over deployers by their current load.

use crate::model::DeployerTypes;
use crate::names::{lemma_name_set, name_set, NamedMap};
use vstd::prelude::*;

verus! {

/// The clients that one deployer offers, one per kind of work.
pub struct DeployerConnections<C> {
    pub virtual_machine_client: Option<C>,
    pub switch_client: Option<C>,
    pub template_client: Option<C>,
    pub feature_client: Option<C>,
}

impl<C> DeployerConnections<C> {
    /// The client that serves the given kind of work, if the deployer offers one.
    pub open spec fn spec_client(&self, deployer_type: DeployerTypes) -> Option<C> {
        match deployer_type {
            DeployerTypes::VirtualMachine => self.virtual_machine_client,
            DeployerTypes::Switch => self.switch_client,
            DeployerTypes::Template => self.template_client,
            DeployerTypes::Feature => self.feature_client,
            _ => None,
        }
    }

    /// Whether the deployer can take work of the given kind.
    pub open spec fn serves(&self, deployer_type: DeployerTypes) -> bool {
        self.spec_client(deployer_type) is Some
    }

    fn can_serve(&self, deployer_type: DeployerTypes) -> (b: bool)
        ensures
            b == self.serves(deployer_type),
    {
        match deployer_type {
            DeployerTypes::VirtualMachine => self.virtual_machine_client.is_some(),
            DeployerTypes::Switch => self.switch_client.is_some(),
            DeployerTypes::Template => self.template_client.is_some(),
            DeployerTypes::Feature => self.feature_client.is_some(),
            _ => false,
        }
    }
}

/// Why no client could be handed out.
#[derive(PartialEq, Eq, Structural, Clone, Copy, Debug)]
pub enum DistributionError {
    /// None of the named deployers is known and serves the requested kind of work.
    NoDeployerFound,
    NoTemplateDeployerFound,
    NoNodeDeployerFound,
    NoFeatureDeployerFound,
    /// Conditions and injects have no client of their own.
    UnsupportedDeployerType,
}

/// The number of requests a deployer is serving; a deployer never booked serves none.
pub open spec fn load(usage: Map<Seq<char>, usize>, name: Seq<char>) -> int {
    if usage.dom().contains(name) {
        usage[name] as int
    } else {
        0
    }
}

/// The usage after one more request is booked on `name`.
pub open spec fn booked(usage: Map<Seq<char>, usize>, name: Seq<char>) -> Map<Seq<char>, usize> {
    usage.insert(name, (load(usage, name) + 1) as usize)
}

/// The usage after a request on `name` is released.
pub open spec fn released(usage: Map<Seq<char>, usize>, name: Seq<char>) -> Map<Seq<char>, usize> {
    if usage.dom().contains(name) {
        usage.insert(name, (usage[name] - 1) as usize)
    } else {
        usage.insert(name, 0)
    }
}

pub struct DeployerDistribution<C> {
    deployers: NamedMap<DeployerConnections<C>>,
    usage: NamedMap<usize>,
}

impl<C> DeployerDistribution<C> {
    pub closed spec fn spec_deployers(&self) -> Map<Seq<char>, DeployerConnections<C>> {
        self.deployers@
    }

    pub closed spec fn spec_usage(&self) -> Map<Seq<char>, usize> {
        self.usage@
    }

    pub closed spec fn wf(&self) -> bool {
        self.deployers.wf() && self.usage.wf()
    }

    /// Whether `name` is one of `potential` and a known deployer that serves `deployer_type`.
    pub open spec fn acceptable(
        &self,
        potential: Set<Seq<char>>,
        deployer_type: DeployerTypes,
        name: Seq<char>,
    ) -> bool {
        &&& potential.contains(name)
        &&& self.spec_deployers().dom().contains(name)
        &&& self.spec_deployers()[name].serves(deployer_type)
    }

    /// Whether a request can be booked without the count of the deployer it goes
    /// to running over: when some deployer is acceptable, one of them is below
    /// the largest count (then so is the least loaded one, which is picked).
    pub open spec fn bookable(&self, potential: Set<Seq<char>>, deployer_type: DeployerTypes) -> bool {
        (exists|k| self.acceptable(potential, deployer_type, k)) ==> exists|k|
            self.acceptable(potential, deployer_type, k) && load(self.spec_usage(), k) < usize::MAX
    }

    /// A distribution over the given deployers, none of which is serving a request yet.
    pub fn new(deployers: NamedMap<DeployerConnections<C>>) -> (d: Self)
        requires
            deployers.wf(),
        ensures
            d.wf(),
            d.spec_deployers() == deployers@,
            d.spec_usage() == Map::<Seq<char>, usize>::empty(),
    {
        DeployerDistribution { deployers, usage: NamedMap::new() }
    }

    /// The number of requests a deployer is serving.
    pub fn usage_of(&self, name: &String) -> (n: usize)
        requires
            self.wf(),
        ensures
            n == load(self.spec_usage(), name@),
    {
        match self.usage.get(name) {
            Some(n) => *n,
            None => 0,
        }
    }

    /// Whether a request for `deployer_type` among `potential_deployers` can be
    /// booked (see `bookable`).
    pub fn can_book(&self, potential_deployers: &Vec<String>, deployer_type: DeployerTypes) -> (b: bool)
        requires
            self.wf(),
        ensures
            b == self.bookable(name_set(potential_deployers@), deployer_type),
    {
        let keys = self.deployers.keys();
        let mut any_acceptable = false;
        let mut any_below = false;
        let mut i: usize = 0;
        proof {
            lemma_name_set(keys@);
        }
        while i < keys.len()
            invariant
                self.wf(),
                i <= keys@.len(),
                name_set(keys@) == self.spec_deployers().dom(),
                any_acceptable <==> exists|j: int|
                    0 <= j < i && #[trigger] self.acceptable(name_set(potential_deployers@), deployer_type, keys@[j]@),
                any_below <==> exists|j: int|
                    0 <= j < i && #[trigger] self.acceptable(name_set(potential_deployers@), deployer_type, keys@[j]@)
                        && load(self.spec_usage(), keys@[j]@) < usize::MAX,
            decreases keys@.len() - i,
        {
            let key = &keys[i];
            let is_potential = contains_name(potential_deployers, key);
            let serves = match self.deployers.get(key) {
                Some(c) => c.can_serve(deployer_type),
                None => false,
            };
            proof {
                lemma_name_set(keys@);
                assert(name_set(keys@).contains(key@));
            }
            if is_potential && serves {
                proof {
                    assert(self.acceptable(name_set(potential_deployers@), deployer_type, keys@[i as int]@));
                }
                any_acceptable = true;
                if self.usage_of(key) < usize::MAX {
                    any_below = true;
                }
            }
            i = i + 1;
        }
        proof {
            lemma_name_set(keys@);
            if exists|k| self.acceptable(name_set(potential_deployers@), deployer_type, k) {
                let k = choose|k| self.acceptable(name_set(potential_deployers@), deployer_type, k);
                let j = choose|j: int| 0 <= j < keys@.len() && keys@[j]@ == k;
                assert(self.acceptable(name_set(potential_deployers@), deployer_type, keys@[j]@));
            }
            if exists|k| self.acceptable(name_set(potential_deployers@), deployer_type, k) && load(self.spec_usage(), k)
                < usize::MAX {
                let k = choose|k| self.acceptable(name_set(potential_deployers@), deployer_type, k) && load(
                    self.spec_usage(),
                    k,
                ) < usize::MAX;
                let j = choose|j: int| 0 <= j < keys@.len() && keys@[j]@ == k;
                assert(self.acceptable(name_set(potential_deployers@), deployer_type, keys@[j]@));
            }
        }
        !any_acceptable || any_below
    }

    /// Whether a request on `deployer_name` can be released: it is not recorded
    /// with no requests.
    pub fn releasable(&self, deployer_name: &String) -> (b: bool)
        requires
            self.wf(),
        ensures
            b == (self.spec_usage().dom().contains(deployer_name@) ==> self.spec_usage()[deployer_name@] > 0),
    {
        match self.usage.get(deployer_name) {
            Some(n) => *n > 0,
            None => true,
        }
    }

    /// Picks, among the named deployers that serve `deployer_type`, one with the
    /// fewest requests in flight, and books one more request on it.
    pub fn book_best_deployer(
        &mut self,
        potential_deployers: &Vec<String>,
        deployer_type: DeployerTypes,
    ) -> (r: Result<String, DistributionError>)
        requires
            old(self).wf(),
            old(self).bookable(name_set(potential_deployers@), deployer_type),
        ensures
            final(self).wf(),
            final(self).spec_deployers() == old(self).spec_deployers(),
            r is Err <==> !exists|k| old(self).acceptable(name_set(potential_deployers@), deployer_type, k),
            r matches Err(e) ==> e == DistributionError::NoDeployerFound && final(self).spec_usage()
                == old(self).spec_usage(),
            r matches Ok(name) ==> {
                &&& old(self).acceptable(name_set(potential_deployers@), deployer_type, name@)
                &&& forall|k| #[trigger]
                    old(self).acceptable(name_set(potential_deployers@), deployer_type, k) ==> load(
                        old(self).spec_usage(),
                        name@,
                    ) <= load(old(self).spec_usage(), k)
                &&& final(self).spec_usage() == booked(old(self).spec_usage(), name@)
            },
    {
        let keys = self.deployers.keys();
        let mut best: Option<String> = None;
        let mut best_load: usize = 0;
        let mut i: usize = 0;
        while i < keys.len()
            invariant
                self.wf(),
                i <= keys@.len(),
                name_set(keys@) == self.spec_deployers().dom(),
                best matches Some(b) ==> {
                    &&& self.acceptable(name_set(potential_deployers@), deployer_type, b@)
                    &&& best_load == load(self.spec_usage(), b@)
                    &&& forall|j: int|
                        0 <= j < i && #[trigger] self.acceptable(
                            name_set(potential_deployers@),
                            deployer_type,
                            keys@[j]@,
                        ) ==> best_load <= load(self.spec_usage(), keys@[j]@)
                },
                best is None ==> forall|j: int|
                    0 <= j < i ==> !#[trigger] self.acceptable(
                        name_set(potential_deployers@),
                        deployer_type,
                        keys@[j]@,
                    ),
            decreases keys@.len() - i,
        {
            let key = &keys[i];
            let is_potential = contains_name(potential_deployers, key);
            let serves = match self.deployers.get(key) {
                Some(c) => c.can_serve(deployer_type),
                None => false,
            };
            proof {
                lemma_name_set(keys@);
                assert(name_set(keys@).contains(key@));
            }
            if is_potential && serves {
                let l = self.usage_of(key);
                let better = match &best {
                    Some(_) => l < best_load,
                    None => true,
                };
                if better {
                    best = Some(key.clone());
                    best_load = l;
                }
            }
            i = i + 1;
        }
        match best {
            None => {
                proof {
                    assert forall|k| !self.acceptable(name_set(potential_deployers@), deployer_type, k) by {
                        if self.acceptable(name_set(potential_deployers@), deployer_type, k) {
                            lemma_name_set(keys@);
                            let j = choose|j: int| 0 <= j < keys@.len() && keys@[j]@ == k;
                            assert(self.acceptable(name_set(potential_deployers@), deployer_type, keys@[j]@));
                        }
                    }
                }
                Err(DistributionError::NoDeployerFound)
            },
            Some(name) => {
                proof {
                    let k2 = choose|k: Seq<char>|
                        self.acceptable(name_set(potential_deployers@), deployer_type, k) && load(self.spec_usage(), k)
                            < usize::MAX;
                    lemma_name_set(keys@);
                    let j2 = choose|j: int| 0 <= j < keys@.len() && keys@[j]@ == k2;
                    assert(self.acceptable(name_set(potential_deployers@), deployer_type, keys@[j2]@));
                    assert forall|k| #[trigger]
                        self.acceptable(name_set(potential_deployers@), deployer_type, k) implies load(
                        self.spec_usage(),
                        name@,
                    ) <= load(self.spec_usage(), k) by {
                        lemma_name_set(keys@);
                        let j = choose|j: int| 0 <= j < keys@.len() && keys@[j]@ == k;
                        assert(self.acceptable(name_set(potential_deployers@), deployer_type, keys@[j]@));
                    }
                }
                self.usage.insert(name.clone(), best_load + 1);
                Ok(name)
            },
        }
    }

    /// Ends one request on a deployer. A deployer never booked is recorded with no requests.
    pub fn release_deployer(&mut self, deployer_name: &String)
        requires
            old(self).wf(),
            old(self).spec_usage().dom().contains(deployer_name@) ==> old(self).spec_usage()[deployer_name@]
                > 0,
        ensures
            final(self).wf(),
            final(self).spec_deployers() == old(self).spec_deployers(),
            final(self).spec_usage() == released(old(self).spec_usage(), deployer_name@),
    {
        let current = match self.usage.get(deployer_name) {
            Some(n) => Some(*n),
            None => None,
        };
        match current {
            Some(n) => self.usage.insert(deployer_name.clone(), n - 1),
            None => self.usage.insert(deployer_name.clone(), 0),
        }
    }

    /// Finishes a request: on success the deployer's booking is released and the
    /// value handed on; on failure the error is handed on and the booking stays.
    pub fn release_deployer_closure<T, E>(&mut self, response: Result<(T, String), E>) -> (r: Result<T, E>)
        requires
            old(self).wf(),
            response matches Ok((_, name)) ==> (old(self).spec_usage().dom().contains(name@)
                ==> old(self).spec_usage()[name@] > 0),
        ensures
            final(self).wf(),
            final(self).spec_deployers() == old(self).spec_deployers(),
            match response {
                Ok((value, name)) => r == Ok::<T, E>(value) && final(self).spec_usage() == released(
                    old(self).spec_usage(),
                    name@,
                ),
                Err(e) => r == Err::<T, E>(e) && final(self).spec_usage() == old(self).spec_usage(),
            },
    {
        match response {
            Ok((value, deployer_name)) => {
                self.release_deployer(&deployer_name);
                Ok(value)
            },
            Err(e) => Err(e),
        }
    }
}

impl<C: Clone> DeployerDistribution<C> {
    /// Books the least loaded deployer that serves `deployer_type` and hands out a
    /// copy of its client together with the deployer's name.
    pub fn get_client(
        &mut self,
        potential_deployers: &Vec<String>,
        deployer_type: DeployerTypes,
    ) -> (r: Result<(C, String), DistributionError>)
        requires
            old(self).wf(),
            old(self).bookable(name_set(potential_deployers@), deployer_type),
        ensures
            final(self).wf(),
            final(self).spec_deployers() == old(self).spec_deployers(),
            r is Err <==> !exists|k| old(self).acceptable(name_set(potential_deployers@), deployer_type, k),
            r matches Err(e) ==> e == DistributionError::NoDeployerFound && final(self).spec_usage()
                == old(self).spec_usage(),
            r matches Ok((client, name)) ==> {
                &&& old(self).acceptable(name_set(potential_deployers@), deployer_type, name@)
                &&& forall|k| #[trigger]
                    old(self).acceptable(name_set(potential_deployers@), deployer_type, k) ==> load(
                        old(self).spec_usage(),
                        name@,
                    ) <= load(old(self).spec_usage(), k)
                &&& final(self).spec_usage() == booked(old(self).spec_usage(), name@)
                &&& cloned::<C>(
                    old(self).spec_deployers()[name@].spec_client(deployer_type).unwrap(),
                    client,
                )
            },
    {
        let best_deployer = self.book_best_deployer(potential_deployers, deployer_type)?;
        let connections = match self.deployers.get(&best_deployer) {
            Some(c) => c,
            None => {
                return Err(DistributionError::NoDeployerFound);
            },
        };
        let client = match deployer_type {
            DeployerTypes::Template => match &connections.template_client {
                Some(c) => c.clone(),
                None => {
                    return Err(DistributionError::NoTemplateDeployerFound);
                },
            },
            DeployerTypes::Switch => match &connections.switch_client {
                Some(c) => c.clone(),
                None => {
                    return Err(DistributionError::NoNodeDeployerFound);
                },
            },
            DeployerTypes::VirtualMachine => match &connections.virtual_machine_client {
                Some(c) => c.clone(),
                None => {
                    return Err(DistributionError::NoNodeDeployerFound);
                },
            },
            DeployerTypes::Feature => match &connections.feature_client {
                Some(c) => c.clone(),
                None => {
                    return Err(DistributionError::NoFeatureDeployerFound);
                },
            },
            _ => {
                return Err(DistributionError::UnsupportedDeployerType);
            },
        };
        Ok((client, best_deployer))
    }
}

/// Whether `name` is one of `names`.
pub fn contains_name(names: &Vec<String>, name: &String) -> (b: bool)
    ensures
        b == name_set(names@).contains(name@),
{
    let mut i: usize = 0;
    while i < names.len()
        invariant
            i <= names@.len(),
            forall|j: int| 0 <= j < i ==> names@[j]@ != name@,
        decreases names@.len() - i,
    {
        if names[i] == *name {
            proof {
                lemma_name_set(names@);
            }
            return true;
        }
        i = i + 1;
    }
    proof {
        lemma_name_set(names@);
    }
    false
}

/// Booking a request on a deployer and then releasing it leaves every deployer's
/// load as it was before.
pub proof fn lemma_release_undoes_booking(usage: Map<Seq<char>, usize>, name: Seq<char>, other: Seq<char>)
    requires
        load(usage, name) < usize::MAX,
    ensures
        load(released(booked(usage, name), name), other) == load(usage, other),
        booked(usage, name).dom().contains(name) && booked(usage, name)[name] > 0,
{
}

/// Whether the loads of the deployers in `names` lie within one of each other.
pub open spec fn balanced(usage: Map<Seq<char>, usize>, names: Set<Seq<char>>) -> bool {
    forall|a: Seq<char>, b: Seq<char>|
        #[trigger] names.contains(a) && #[trigger] names.contains(b) ==> load(usage, a) <= load(usage, b) + 1
}

/// Booking keeps the load even: when the acceptable deployers' loads lie within
/// one of each other and the request goes to one with the fewest requests (as
/// `book_best_deployer` picks), they still do afterwards, that deployer has one
/// request more and every other deployer's load is unchanged.
pub proof fn lemma_booking_keeps_load_balanced(usage: Map<Seq<char>, usize>, acceptable: Set<Seq<char>>, name: Seq<char>)
    requires
        acceptable.contains(name),
        forall|k| #[trigger] acceptable.contains(k) ==> load(usage, name) <= load(usage, k),
        balanced(usage, acceptable),
        load(usage, name) < usize::MAX,
    ensures
        balanced(booked(usage, name), acceptable),
        load(booked(usage, name), name) == load(usage, name) + 1,
        forall|k| k != name ==> #[trigger] load(booked(usage, name), k) == load(usage, k),
{
    assert forall|a: Seq<char>, b: Seq<char>|
        #[trigger] acceptable.contains(a) && #[trigger] acceptable.contains(b) implies load(booked(usage, name), a)
        <= load(booked(usage, name), b) + 1 by {
        assert(load(usage, name) <= load(usage, b));
        assert(load(usage, a) <= load(usage, name) + 1);
    }
}

/// The total load of the deployers `names`.
pub open spec fn total_load(usage: Map<Seq<char>, usize>, names: Seq<Seq<char>>) -> int
    decreases names.len(),
{
    if names.len() == 0 {
        0
    } else {
        total_load(usage, names.drop_last()) + load(usage, names.last())
    }
}

/// The usage after booking one request on each of `picks`, in order.
pub open spec fn booked_run(usage: Map<Seq<char>, usize>, picks: Seq<Seq<char>>) -> Map<Seq<char>, usize>
    decreases picks.len(),
{
    if picks.len() == 0 {
        usage
    } else {
        booked(booked_run(usage, picks.drop_last()), picks.last())
    }
}

/// Whether booking `picks[i]` went to an acceptable deployer with the fewest
/// requests at that moment, below the largest count.
pub open spec fn least_loaded_at(usage: Map<Seq<char>, usize>, acceptable: Set<Seq<char>>, picks: Seq<Seq<char>>, i: int) -> bool {
    let now = booked_run(usage, picks.take(i));
    &&& acceptable.contains(picks[i])
    &&& load(now, picks[i]) < usize::MAX
    &&& forall|k| #[trigger] acceptable.contains(k) ==> load(now, picks[i]) <= load(now, k)
}

/// Whether every booking of `picks` went to an acceptable deployer with the
/// fewest requests at that moment (as `book_best_deployer` picks).
pub open spec fn least_loaded_run(usage: Map<Seq<char>, usize>, acceptable: Set<Seq<char>>, picks: Seq<Seq<char>>) -> bool {
    forall|i: int| 0 <= i < picks.len() ==> #[trigger] least_loaded_at(usage, acceptable, picks, i)
}

proof fn lemma_total_after_booking(usage: Map<Seq<char>, usize>, names: Seq<Seq<char>>, name: Seq<char>)
    requires
        names.no_duplicates(),
        names.contains(name),
        load(usage, name) < usize::MAX,
    ensures
        total_load(booked(usage, name), names) == total_load(usage, names) + 1,
    decreases names.len(),
{
    let rest = names.drop_last();
    assert(rest.no_duplicates());
    if names.last() == name {
        assert(!rest.contains(name)) by {
            if rest.contains(name) {
                let j = choose|j: int| 0 <= j < rest.len() && rest[j] == name;
                assert(names[j] == names[names.len() - 1]);
            }
        }
        lemma_total_unchanged(usage, rest, name);
    } else {
        let j = choose|j: int| 0 <= j < names.len() && names[j] == name;
        assert(rest[j] == name);
        lemma_total_after_booking(usage, rest, name);
    }
}

proof fn lemma_total_unchanged(usage: Map<Seq<char>, usize>, names: Seq<Seq<char>>, name: Seq<char>)
    requires
        !names.contains(name),
    ensures
        total_load(booked(usage, name), names) == total_load(usage, names),
    decreases names.len(),
{
    if names.len() > 0 {
        let rest = names.drop_last();
        assert(!rest.contains(name)) by {
            if rest.contains(name) {
                let j = choose|j: int| 0 <= j < rest.len() && rest[j] == name;
                assert(names[j] == name);
            }
        }
        assert(names[names.len() - 1] != name);
        lemma_total_unchanged(usage, rest, name);
    }
}

/// A run of bookings keeps the load even: when the loads of the acceptable
/// deployers `names` lie within one of each other and every booking goes to an
/// acceptable deployer with the fewest requests, after each run they still do,
/// and their total load has grown by one per booking.
pub proof fn lemma_bookings_keep_load_balanced(usage: Map<Seq<char>, usize>, names: Seq<Seq<char>>, picks: Seq<Seq<char>>)
    requires
        names.no_duplicates(),
        balanced(usage, names.to_set()),
        least_loaded_run(usage, names.to_set(), picks),
    ensures
        balanced(booked_run(usage, picks), names.to_set()),
        total_load(booked_run(usage, picks), names) == total_load(usage, names) + picks.len(),
    decreases picks.len(),
{
    if picks.len() > 0 {
        let first = picks.drop_last();
        let n = picks.len() - 1;
        assert forall|i: int| 0 <= i < first.len() implies #[trigger] least_loaded_at(
            usage,
            names.to_set(),
            first,
            i,
        ) by {
            assert(first.take(i) =~= picks.take(i));
            assert(first[i] == picks[i]);
            assert(least_loaded_at(usage, names.to_set(), picks, i));
        }
        lemma_bookings_keep_load_balanced(usage, names, first);
        assert(picks.take(n) =~= first);
        let now = booked_run(usage, picks.take(n));
        let pick = picks[n];
        assert(least_loaded_at(usage, names.to_set(), picks, n));
        lemma_booking_keeps_load_balanced(now, names.to_set(), pick);
        assert(names.contains(pick));
        lemma_total_after_booking(now, names, pick);
        assert(booked_run(usage, picks) == booked(now, pick));
    }
}

/// The clients a deployer is connected with, from the kinds of work it offers.
#[derive(PartialEq, Eq, Structural, Clone, Copy, Debug)]
pub struct RequestedClients {
    pub virtual_machine: bool,
    pub switch: bool,
    pub template: bool,
}

fn offers(capabilities: &Vec<DeployerTypes>, t: DeployerTypes) -> (b: bool)
    ensures
        b == capabilities@.contains(t),
{
    let mut i: usize = 0;
    while i < capabilities.len()
        invariant
            i <= capabilities@.len(),
            forall|j: int| 0 <= j < i ==> capabilities@[j] != t,
        decreases capabilities@.len() - i,
    {
        if capabilities[i] == t {
            return true;
        }
        i = i + 1;
    }
    false
}

/// A deployer gets a virtual machine, switch and template client exactly for
/// the kinds of work among its capabilities.
pub fn requested_clients(capabilities: &Vec<DeployerTypes>) -> (r: RequestedClients)
    ensures
        r.virtual_machine == capabilities@.contains(DeployerTypes::VirtualMachine),
        r.switch == capabilities@.contains(DeployerTypes::Switch),
        r.template == capabilities@.contains(DeployerTypes::Template),
{
    RequestedClients {
        virtual_machine: offers(capabilities, DeployerTypes::VirtualMachine),
        switch: offers(capabilities, DeployerTypes::Switch),
        template: offers(capabilities, DeployerTypes::Template),
    }
}

} // verus!
