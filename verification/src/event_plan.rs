//! Which conditions of a deployed virtual machine belong to which scripted
//! event, and what each event's poller watches and then injects.

use crate::distribution::contains_name;
use crate::ids::random_uuid;
use crate::idmap::IdMap;
use crate::events::Timestamp;
use crate::ids::{parse_uuid, parsed_uuid};
use crate::model::{DeploymentElement, NodeType, Uuid};
use crate::names::{name_set, NamedMap};
use crate::refs::{opt_keys, opt_map, opt_names, referenced};
use crate::scenario::{script_event_refs, scripted_events, Condition, Event, Node, Role, Scenario};
use vstd::prelude::*;
use vstd::set_lib::set_int_range;

verus! {

/// Whether an event lists a condition.
pub open spec fn lists_condition(e: Event, condition: Seq<char>) -> bool {
    opt_names(e.conditions).contains(condition)
}

/// The events some script of the scenario runs.
pub open spec fn scripted(s: Scenario) -> Set<Seq<char>> {
    referenced(script_event_refs(s), opt_keys(s.scripts))
}

/// The events of a scenario, in order.
pub open spec fn scenario_events(s: Scenario) -> Seq<(String, Event)> {
    match s.events {
        Some(m) => m.spec_entries(),
        None => Seq::empty(),
    }
}

/// The conditions of a scenario, in order.
pub open spec fn scenario_conditions(s: Scenario) -> Seq<(String, Condition)> {
    match s.conditions {
        Some(m) => m.spec_entries(),
        None => Seq::empty(),
    }
}

/// The first event, in the given order, that is scripted and lists the condition.
pub open spec fn first_event(events: Seq<(String, Event)>, scripted: Set<Seq<char>>, condition: Seq<char>) -> Option<
    Seq<char>,
>
    decreases events.len(),
{
    if events.len() == 0 {
        None
    } else if scripted.contains(events[0].0@) && lists_condition(events[0].1, condition) {
        Some(events[0].0@)
    } else {
        first_event(events.subrange(1, events.len() as int), scripted, condition)
    }
}

/// For each scenario condition that the node has, in the scenario's order: its
/// name, the name of the role the node runs it as, and the event it belongs to.
pub open spec fn planned_conditions(
    conditions: Seq<(String, Condition)>,
    node_conditions: Map<Seq<char>, String>,
    events: Seq<(String, Event)>,
    scripted: Set<Seq<char>>,
) -> Seq<(Seq<char>, Seq<char>, Option<Seq<char>>)>
    decreases conditions.len(),
{
    if conditions.len() == 0 {
        Seq::empty()
    } else {
        let name = conditions.last().0@;
        planned_conditions(conditions.drop_last(), node_conditions, events, scripted) + if node_conditions.dom().contains(
            name,
        ) {
            seq![(name, node_conditions[name]@, first_event(events, scripted, name))]
        } else {
            Seq::empty()
        }
    }
}

/// The conditions a node watches in a scenario, with their roles and events.
pub open spec fn node_plan(s: Scenario, n: Node) -> Seq<(Seq<char>, Seq<char>, Option<Seq<char>>)> {
    planned_conditions(scenario_conditions(s), opt_map(n.conditions), scenario_events(s), scripted(s))
}

/// A condition a virtual machine watches: its name, the role it runs as, and
/// the scripted event it belongs to, if any.
pub struct ConditionPlan {
    pub name: String,
    pub role_name: String,
    pub event: Option<String>,
}

pub open spec fn opt_text(s: Option<String>) -> Option<Seq<char>> {
    match s {
        Some(t) => Some(t@),
        None => None,
    }
}

pub open spec fn plan_view(p: ConditionPlan) -> (Seq<char>, Seq<char>, Option<Seq<char>>) {
    (p.name@, p.role_name@, opt_text(p.event))
}

pub open spec fn plans_view(s: Seq<ConditionPlan>) -> Seq<(Seq<char>, Seq<char>, Option<Seq<char>>)> {
    s.map_values(|p: ConditionPlan| plan_view(p))
}

/// Why the events of a node could not be planned.
#[derive(PartialEq, Eq, Structural, Clone, Copy, Debug)]
pub enum EventPlanError {
    NotVirtualMachine,
    RolesNotFound,
    /// A condition runs as a role the node does not have.
    RoleNotFound,
    /// A condition belongs to an event but the machine's element has no handler reference.
    HandlerReferenceNotFound,
    /// A condition of an event was recorded without the event's identifier.
    EventIdNotFound,
    /// The machine's handler reference is not the text of an identifier.
    ParentNodeIdUnreadable,
    /// A condition belongs to an event the scenario does not have.
    EventNotFound,
}

fn lists(e: &Event, condition: &String) -> (b: bool)
    ensures
        b == lists_condition(*e, condition@),
{
    match &e.conditions {
        Some(v) => contains_name(v, condition),
        None => false,
    }
}

fn find_first_event(events: &Vec<(String, Event)>, scripted: &Vec<String>, condition: &String) -> (r: Option<
    String,
>)
    ensures
        opt_text(r) == first_event(events@, name_set(scripted@), condition@),
{
    let mut i: usize = 0;
    proof {
        assert(events@.subrange(0, events@.len() as int) =~= events@);
    }
    while i < events.len()
        invariant
            i <= events@.len(),
            first_event(events@, name_set(scripted@), condition@) == first_event(
                events@.subrange(i as int, events@.len() as int),
                name_set(scripted@),
                condition@,
            ),
        decreases events@.len() - i,
    {
        let ghost rest = events@.subrange(i as int, events@.len() as int);
        proof {
            assert(rest[0] == events@[i as int]);
            assert(rest.subrange(1, rest.len() as int) =~= events@.subrange(i + 1, events@.len() as int));
        }
        if contains_name(scripted, &events[i].0) && lists(&events[i].1, condition) {
            return Some(events[i].0.clone());
        }
        i = i + 1;
    }
    proof {
        assert(events@.subrange(i as int, events@.len() as int) =~= Seq::<(String, Event)>::empty());
    }
    None
}

/// The conditions a deployed virtual machine watches, each with the role it
/// runs as and the scripted event it belongs to. Refused for a node that is not
/// a virtual machine or has no roles, when a condition's role is missing, and
/// when a condition belongs to an event but the machine has no handler reference.
pub fn plan_node_conditions(scenario: &Scenario, node: &Node, handler_reference: &Option<String>) -> (r: Result<
    Vec<ConditionPlan>,
    EventPlanError,
>)
    requires
        scenario.wf(),
        node.wf(),
    ensures
        ({
            let plan = node_plan(*scenario, *node);
            if node.type_field != NodeType::VM {
                r == Err::<Vec<ConditionPlan>, EventPlanError>(EventPlanError::NotVirtualMachine)
            } else if node.roles is None {
                r == Err::<Vec<ConditionPlan>, EventPlanError>(EventPlanError::RolesNotFound)
            } else if exists|i: int|
                0 <= i < plan.len() && !node.roles->0@.dom().contains(#[trigger] plan[i].1) {
                r == Err::<Vec<ConditionPlan>, EventPlanError>(EventPlanError::RoleNotFound)
            } else if handler_reference is None && exists|i: int| 0 <= i < plan.len() && (#[trigger] plan[i].2) is Some {
                r == Err::<Vec<ConditionPlan>, EventPlanError>(EventPlanError::HandlerReferenceNotFound)
            } else {
                r matches Ok(v) && plans_view(v@) == plan
            }
        }),
{
    if node.type_field != NodeType::VM {
        return Err(EventPlanError::NotVirtualMachine);
    }
    let roles = match &node.roles {
        Some(roles) => roles,
        None => {
            return Err(EventPlanError::RolesNotFound);
        },
    };
    let scripted = scripted_events(scenario);
    let empty_events: Vec<(String, Event)> = Vec::new();
    let events: &Vec<(String, Event)> = match &scenario.events {
        Some(m) => m.entries(),
        None => &empty_events,
    };
    let empty_conditions: Vec<(String, Condition)> = Vec::new();
    let conditions: &Vec<(String, Condition)> = match &scenario.conditions {
        Some(m) => m.entries(),
        None => &empty_conditions,
    };
    let empty_node_conditions: NamedMap<String> = NamedMap::new();
    let node_conditions: &NamedMap<String> = match &node.conditions {
        Some(m) => m,
        None => &empty_node_conditions,
    };
    proof {
        assert(events@ == scenario_events(*scenario));
        assert(conditions@ == scenario_conditions(*scenario));
        assert(node_conditions@ == opt_map(node.conditions));
    }
    let mut plans: Vec<ConditionPlan> = Vec::new();
    let mut i: usize = 0;
    while i < conditions.len()
        invariant
            node_conditions.wf(),
            i <= conditions@.len(),
            plans_view(plans@) == planned_conditions(
                conditions@.take(i as int),
                node_conditions@,
                events@,
                name_set(scripted@),
            ),
        decreases conditions@.len() - i,
    {
        let name = &conditions[i].0;
        let ghost before = plans_view(plans@);
        if let Some(role_name) = node_conditions.get(name) {
            let event = find_first_event(events, &scripted, name);
            plans.push(ConditionPlan { name: name.clone(), role_name: role_name.clone(), event });
            proof {
                assert(plans_view(plans@) =~= before.push(plan_view(plans@.last())));
            }
        }
        proof {
            assert(conditions@.take(i + 1).drop_last() =~= conditions@.take(i as int));
            assert(conditions@.take(i + 1).last() == conditions@[i as int]);
            assert(plans_view(plans@) =~= planned_conditions(
                conditions@.take(i + 1),
                node_conditions@,
                events@,
                name_set(scripted@),
            ));
        }
        i = i + 1;
    }
    proof {
        assert(conditions@.take(i as int) =~= conditions@);
        assert(plans_view(plans@) == node_plan(*scenario, *node));
    }
    let mut j: usize = 0;
    let mut has_event = false;
    while j < plans.len()
        invariant
            roles.wf(),
            node.roles == Some(*roles),
            node.type_field == NodeType::VM,
            plans_view(plans@) == node_plan(*scenario, *node),
            j <= plans@.len(),
            forall|k: int| 0 <= k < j ==> roles@.dom().contains(#[trigger] plans_view(plans@)[k].1),
            has_event == exists|k: int| 0 <= k < j && (#[trigger] plans_view(plans@)[k].2) is Some,
        decreases plans@.len() - j,
    {
        if !roles.contains_key(&plans[j].role_name) {
            proof {
                assert(plans_view(plans@)[j as int].1 == plans@[j as int].role_name@);
                assert(node_plan(*scenario, *node)[j as int].1 == plans@[j as int].role_name@);
            }
            return Err(EventPlanError::RoleNotFound);
        }
        if plans[j].event.is_some() {
            proof {
                assert(plans_view(plans@)[j as int].2 is Some);
            }
            has_event = true;
        }
        proof {
            assert(plans_view(plans@)[j as int].1 == plans@[j as int].role_name@);
            if has_event && !(exists|k: int| 0 <= k < j && (#[trigger] plans_view(plans@)[k].2) is Some) {
                assert(plans_view(plans@)[j as int].2 is Some);
            }
        }
        j = j + 1;
    }
    if has_event && handler_reference.is_none() {
        return Err(EventPlanError::HandlerReferenceNotFound);
    }
    Ok(plans)
}

/// What is known of a condition of a virtual machine once its event, if any,
/// has been recorded: its name, its role, the event's identifier and name, and
/// the injects (name and username) that follow the event.
pub struct ConditionProperties {
    pub name: String,
    pub role_name: String,
    pub event_id: Option<Uuid>,
    pub event_name: Option<String>,
    pub injects: Option<Vec<(String, String)>>,
}

/// The identifier recorded for the first condition of `event`, if a condition
/// of that event was recorded already (`Some(None)` when it lacks one).
pub open spec fn known_event_id(props: Seq<ConditionProperties>, event: Seq<char>) -> Option<Option<Uuid>>
    decreases props.len(),
{
    if props.len() == 0 {
        None
    } else if opt_text(props[0].event_name) == Some(event) {
        Some(props[0].event_id)
    } else {
        known_event_id(props.subrange(1, props.len() as int), event)
    }
}

/// Whether some recorded condition carries the identifier `id`.
pub open spec fn id_recorded(props: Seq<ConditionProperties>, id: Uuid) -> bool {
    exists|i: int| 0 <= i < props.len() && #[trigger] props[i].event_id == Some(id)
}

/// The identifiers the recorded conditions carry, as numbers (-1 for none).
spec fn recorded_ids(props: Seq<ConditionProperties>) -> Seq<int> {
    Seq::new(
        props.len(),
        |i: int|
            match props[i].event_id {
                Some(x) => x as int,
                None => -1,
            },
    )
}

fn holds_event_id(props: &Vec<ConditionProperties>, id: Uuid) -> (b: bool)
    ensures
        b == id_recorded(props@, id),
{
    let mut i: usize = 0;
    while i < props.len()
        invariant
            i <= props@.len(),
            forall|j: int| 0 <= j < i ==> props@[j].event_id != Some(id),
        decreases props@.len() - i,
    {
        if props[i].event_id == Some(id) {
            proof {
                assert(props@[i as int].event_id == Some(id));
            }
            return true;
        }
        i = i + 1;
    }
    false
}

/// An identifier that no recorded condition carries: a random one, or, should
/// that one be taken, the smallest one not taken.
fn fresh_event_id(props: &Vec<ConditionProperties>) -> (id: Uuid)
    ensures
        !id_recorded(props@, id),
{
    let candidate = random_uuid();
    if !holds_event_id(props, candidate) {
        return candidate;
    }
    let mut c: u128 = 0;
    while holds_event_id(props, c)
        invariant
            c <= props@.len(),
            forall|x: int| 0 <= x < c ==> recorded_ids(props@).contains(x),
        decreases props@.len() - c,
    {
        proof {
            let ids = recorded_ids(props@);
            let i = choose|i: int| 0 <= i < props@.len() && #[trigger] props@[i].event_id == Some(c);
            assert(ids[i] == c as int);
            assert(set_int_range(0, c + 1).subset_of(ids.to_set())) by {
                assert forall|x: int| set_int_range(0, c + 1).contains(x) implies ids.to_set().contains(x) by {
                    if x < c {
                        assert(ids.contains(x));
                    } else {
                        assert(ids.contains(x)) by {
                            assert(ids[i] == x);
                        }
                    }
                }
            }
            vstd::seq_lib::seq_to_set_is_finite(ids);
            vstd::set_lib::lemma_int_range(0, c + 1);
            vstd::set_lib::lemma_len_subset(set_int_range(0, c + 1), ids.to_set());
            ids.lemma_cardinality_of_set();
            assert(c + 1 <= props@.len());
            assert(props@.len() == props.len());
        }
        c = c + 1;
        proof {
            assert forall|x: int| 0 <= x < c implies recorded_ids(props@).contains(x) by {
                if x == c - 1 {
                    let i = choose|i: int| 0 <= i < props@.len() && #[trigger] props@[i].event_id == Some(
                        (c - 1) as u128,
                    );
                    assert(recorded_ids(props@)[i] == x);
                }
            }
        }
    }
    c
}

/// The identifier of an event on a machine: the one recorded for an earlier
/// condition of the same event, else a fresh one that no recorded condition carries.
pub fn event_id_for(props: &Vec<ConditionProperties>, event_name: &String) -> (r: Result<Uuid, EventPlanError>)
    ensures
        match known_event_id(props@, event_name@) {
            Some(Some(id)) => r == Ok::<Uuid, EventPlanError>(id),
            Some(None) => r == Err::<Uuid, EventPlanError>(EventPlanError::EventIdNotFound),
            None => r matches Ok(id) && !id_recorded(props@, id),
        },
{
    let mut i: usize = 0;
    proof {
        assert(props@.subrange(0, props@.len() as int) =~= props@);
    }
    while i < props.len()
        invariant
            i <= props@.len(),
            known_event_id(props@, event_name@) == known_event_id(
                props@.subrange(i as int, props@.len() as int),
                event_name@,
            ),
        decreases props@.len() - i,
    {
        let ghost rest = props@.subrange(i as int, props@.len() as int);
        proof {
            assert(rest[0] == props@[i as int]);
            assert(rest.subrange(1, rest.len() as int) =~= props@.subrange(i + 1, props@.len() as int));
        }
        let same = match &props[i].event_name {
            Some(n) => *n == *event_name,
            None => false,
        };
        if same {
            return match props[i].event_id {
                Some(id) => Ok(id),
                None => Err(EventPlanError::EventIdNotFound),
            };
        }
        i = i + 1;
    }
    proof {
        assert(props@.subrange(i as int, props@.len() as int) =~= Seq::<ConditionProperties>::empty());
    }
    Ok(fresh_event_id(props))
}

pub open spec fn pair_view(p: (String, String)) -> (Seq<char>, Seq<char>) {
    (p.0@, p.1@)
}

pub open spec fn pairs_view(s: Seq<(String, String)>) -> Seq<(Seq<char>, Seq<char>)> {
    s.map_values(|p: (String, String)| pair_view(p))
}

/// The conditions (name and role) recorded for an event, in order.
pub open spec fn event_conditions(props: Seq<ConditionProperties>, id: Uuid) -> Seq<(Seq<char>, Seq<char>)>
    decreases props.len(),
{
    if props.len() == 0 {
        Seq::empty()
    } else {
        event_conditions(props.drop_last(), id) + if props.last().event_id == Some(id) {
            seq![(props.last().name@, props.last().role_name@)]
        } else {
            Seq::empty()
        }
    }
}

/// The injects recorded for an event: those of its last condition that has some.
pub open spec fn event_injects(props: Seq<ConditionProperties>, id: Uuid) -> Option<Seq<(Seq<char>, Seq<char>)>>
    decreases props.len(),
{
    if props.len() == 0 {
        None
    } else if props.last().event_id == Some(id) && props.last().injects is Some {
        Some(pairs_view(props.last().injects->0@))
    } else {
        event_injects(props.drop_last(), id)
    }
}

/// An event has injects on record exactly when some recorded condition of it
/// carries a list of injects, empty or not.
pub proof fn lemma_event_injects_recorded(props: Seq<ConditionProperties>, id: Uuid)
    ensures
        event_injects(props, id) is Some <==> exists|i: int|
            0 <= i < props.len() && #[trigger] props[i].event_id == Some(id) && props[i].injects is Some,
    decreases props.len(),
{
    if props.len() > 0 {
        let rest = props.drop_last();
        lemma_event_injects_recorded(rest, id);
        if exists|i: int| 0 <= i < props.len() && #[trigger] props[i].event_id == Some(id) && props[i].injects is Some {
            let i = choose|i: int| 0 <= i < props.len() && #[trigger] props[i].event_id == Some(id) && props[i].injects is Some;
            if i < props.len() - 1 {
                assert(rest[i].event_id == Some(id));
            }
        }
        if exists|i: int| 0 <= i < rest.len() && #[trigger] rest[i].event_id == Some(id) && rest[i].injects is Some {
            let i = choose|i: int| 0 <= i < rest.len() && #[trigger] rest[i].event_id == Some(id) && rest[i].injects is Some;
            assert(props[i].event_id == Some(id));
        }
    }
}

fn copy_pairs(v: &Vec<(String, String)>) -> (r: Vec<(String, String)>)
    ensures
        pairs_view(r@) == pairs_view(v@),
{
    let mut r: Vec<(String, String)> = Vec::new();
    let mut i: usize = 0;
    while i < v.len()
        invariant
            i <= v@.len(),
            pairs_view(r@) == pairs_view(v@.take(i as int)),
        decreases v@.len() - i,
    {
        let ghost before = r@;
        r.push((v[i].0.clone(), v[i].1.clone()));
        proof {
            assert(v@.take(i + 1) =~= v@.take(i as int).push(v@[i as int]));
            assert(pairs_view(v@.take(i as int).push(v@[i as int])) =~= pairs_view(v@.take(i as int)).push(
                pair_view(v@[i as int]),
            ));
            assert(pairs_view(r@) =~= pairs_view(before).push(pair_view(r@.last())));
        }
        i = i + 1;
    }
    proof {
        assert(v@.take(i as int) =~= v@);
    }
    r
}

/// Whether event pollers are started for a scenario: it must have scripts and events.
pub fn event_pollers_enabled(scenario: &Scenario) -> (b: bool)
    ensures
        b == (scenario.scripts is Some && scenario.events is Some),
{
    scenario.scripts.is_some() && scenario.events.is_some()
}

/// The work of the event pollers of a machine: for every event that has
/// injects, the conditions to watch and the injects to run once they all hold.
pub fn event_work(props: &Vec<ConditionProperties>) -> (r: IdMap<(Vec<(String, String)>, Vec<(String, String)>)>)
    ensures
        r.wf(),
        forall|id: Uuid| #[trigger] r@.dom().contains(id) <==> event_injects(props@, id) is Some,
        forall|id: Uuid|
            #[trigger] r@.dom().contains(id) <==> exists|i: int|
                0 <= i < props@.len() && #[trigger] props@[i].event_id == Some(id) && props@[i].injects is Some,
        forall|id: Uuid|
            #[trigger] r@.dom().contains(id) ==> pairs_view(r@[id].0@) == event_conditions(props@, id) && Some(
                pairs_view(r@[id].1@),
            ) == event_injects(props@, id),
{
    let mut conditions: IdMap<Vec<(String, String)>> = IdMap::new();
    let mut injects: IdMap<Vec<(String, String)>> = IdMap::new();
    let mut i: usize = 0;
    while i < props.len()
        invariant
            conditions.wf(),
            injects.wf(),
            i <= props@.len(),
            forall|id: Uuid|
                #[trigger] conditions@.dom().contains(id) ==> pairs_view(conditions@[id]@) == event_conditions(
                    props@.take(i as int),
                    id,
                ),
            forall|id: Uuid|
                !(#[trigger] conditions@.dom().contains(id)) ==> event_conditions(props@.take(i as int), id)
                    == Seq::<(Seq<char>, Seq<char>)>::empty(),
            forall|id: Uuid| #[trigger]
                injects@.dom().contains(id) <==> event_injects(props@.take(i as int), id) is Some,
            forall|id: Uuid|
                #[trigger] injects@.dom().contains(id) ==> Some(pairs_view(injects@[id]@)) == event_injects(
                    props@.take(i as int),
                    id,
                ),
            forall|id: Uuid| #[trigger] injects@.dom().contains(id) ==> conditions@.dom().contains(id),
        decreases props@.len() - i,
    {
        let p = &props[i];
        proof {
            assert(props@.take(i + 1).drop_last() =~= props@.take(i as int));
            assert(props@.take(i + 1).last() == props@[i as int]);
        }
        if let Some(id) = p.event_id {
            let ghost old_conditions = conditions@;
            let mut list = match conditions.remove(id) {
                Some(l) => l,
                None => Vec::new(),
            };
            let ghost before = pairs_view(list@);
            proof {
                assert(before == event_conditions(props@.take(i as int), id));
            }
            list.push((p.name.clone(), p.role_name.clone()));
            proof {
                assert(pairs_view(list@) =~= before.push((p.name@, p.role_name@)));
            }
            conditions.insert(id, list);
            proof {
                assert forall|other: Uuid| #[trigger] conditions@.dom().contains(other) implies pairs_view(
                    conditions@[other]@,
                ) == event_conditions(props@.take(i + 1), other) by {
                    if other != id {
                        assert(old_conditions.dom().contains(other));
                    }
                }
            }
            if let Some(v) = &p.injects {
                let copy = copy_pairs(v);
                injects.insert(id, copy);
            }
        }
        proof {
            assert forall|id: Uuid| #[trigger] injects@.dom().contains(id) implies Some(pairs_view(injects@[id]@))
                == event_injects(props@.take(i + 1), id) by {}
        }
        i = i + 1;
    }
    proof {
        assert(props@.take(i as int) =~= props@);
    }
    let ids = injects.keys();
    let mut r: IdMap<(Vec<(String, String)>, Vec<(String, String)>)> = IdMap::new();
    let mut k: usize = 0;
    while k < ids.len()
        invariant
            conditions.wf(),
            injects.wf(),
            r.wf(),
            ids@.no_duplicates(),
            ids@.to_set() == injects@.dom().union(r@.dom()),
            forall|j: int| 0 <= j < k ==> r@.dom().contains(#[trigger] ids@[j]),
            forall|j: int| k <= j < ids@.len() ==> injects@.dom().contains(#[trigger] ids@[j]),
            forall|id: Uuid| #[trigger] injects@.dom().contains(id) ==> !r@.dom().contains(id),
            k <= ids@.len(),
            forall|id: Uuid| #[trigger]
                injects@.dom().contains(id) ==> Some(pairs_view(injects@[id]@)) == event_injects(props@, id)
                    && conditions@.dom().contains(id) && pairs_view(conditions@[id]@) == event_conditions(props@, id),
            forall|id: Uuid|
                #[trigger] r@.dom().contains(id) ==> pairs_view(r@[id].0@) == event_conditions(props@, id) && Some(
                    pairs_view(r@[id].1@),
                ) == event_injects(props@, id),
        decreases ids@.len() - k,
    {
        let id = ids[k];
        let c = conditions.remove(id).unwrap();
        let inj = injects.remove(id).unwrap();
        r.insert(id, (c, inj));
        proof {
            assert forall|j: int| k + 1 <= j < ids@.len() implies injects@.dom().contains(#[trigger] ids@[j]) by {
                assert(ids@[j] != ids@[k as int]);
            }
        }
        k = k + 1;
    }
    proof {
        assert forall|id: Uuid| #[trigger] r@.dom().contains(id) <==> event_injects(props@, id) is Some by {
            if event_injects(props@, id) is Some {
                assert(ids@.to_set().contains(id));
                let j = choose|j: int| 0 <= j < ids@.len() && ids@[j] == id;
                assert(r@.dom().contains(ids@[j]));
            }
        }
        assert forall|id: Uuid|
            #[trigger] r@.dom().contains(id) <==> exists|i: int|
                0 <= i < props@.len() && #[trigger] props@[i].event_id == Some(id) && props@[i].injects is Some by {
            lemma_event_injects_recorded(props@, id);
        }
    }
    r
}

/// Asks the database to record an event of a deployment on a machine.
pub struct CreateEvent {
    pub event_id: Uuid,
    pub event_name: String,
    pub deployment_id: Uuid,
    pub description: Option<String>,
    pub parent_node_id: Uuid,
    pub start: Timestamp,
    pub end: Timestamp,
    pub use_shared_connection: bool,
}

/// The record of an event on the machine of `machine_element`, between `start`
/// and `end`; refused when the machine's handler reference is not the text of
/// an identifier.
pub fn create_event_request(
    event_id: Uuid,
    event_name: &String,
    event: &Event,
    machine_element: &DeploymentElement,
    start: Timestamp,
    end: Timestamp,
) -> (r: Result<CreateEvent, EventPlanError>)
    ensures
        match machine_element.handler_reference {
            None => r == Err::<CreateEvent, EventPlanError>(EventPlanError::HandlerReferenceNotFound),
            Some(h) => match parsed_uuid(h@) {
                None => r == Err::<CreateEvent, EventPlanError>(EventPlanError::ParentNodeIdUnreadable),
                Some(parent) => r == Ok::<CreateEvent, EventPlanError>(
                    CreateEvent {
                        event_id,
                        event_name: *event_name,
                        deployment_id: machine_element.deployment_id,
                        description: event.description,
                        parent_node_id: parent,
                        start,
                        end,
                        use_shared_connection: true,
                    },
                ),
            },
        },
{
    let parent = match &machine_element.handler_reference {
        None => {
            return Err(EventPlanError::HandlerReferenceNotFound);
        },
        Some(h) => match parse_uuid(h.as_str()) {
            Some(id) => id,
            None => {
                return Err(EventPlanError::ParentNodeIdUnreadable);
            },
        },
    };
    let description = match &event.description {
        Some(d) => Some(d.clone()),
        None => None,
    };
    Ok(
        CreateEvent {
            event_id,
            event_name: event_name.clone(),
            deployment_id: machine_element.deployment_id,
            description,
            parent_node_id: parent,
            start,
            end,
            use_shared_connection: true,
        },
    )
}

/// A condition of an event, waiting for the identifier its event gets once stored.
pub struct PendingEvent {
    pub name: String,
    pub role_name: String,
    pub event_name: String,
    /// Each inject of the event, with the user it runs as.
    pub injects: Vec<(String, String)>,
}

/// What is recorded for a condition of a machine: its properties at once when it
/// belongs to no event; else the event to store, and the condition waiting for
/// the event's identifier.
pub enum ConditionStep {
    Unscheduled(ConditionProperties),
    Scheduled(CreateEvent, PendingEvent),
}

/// The injects of an event, each paired with the user it runs as.
pub open spec fn injects_for(injects: Seq<String>, username: String) -> Seq<(String, String)> {
    injects.map_values(|i: String| (i, username))
}

fn injects_as_user(event: &Event, username: &String) -> (r: Vec<(String, String)>)
    ensures
        r@ == injects_for(event.injects@, *username),
{
    let mut r: Vec<(String, String)> = Vec::new();
    let mut i: usize = 0;
    while i < event.injects.len()
        invariant
            i <= event.injects@.len(),
            r@ == injects_for(event.injects@.take(i as int), *username),
        decreases event.injects@.len() - i,
    {
        r.push((event.injects[i].clone(), username.clone()));
        proof {
            assert(injects_for(event.injects@.take(i + 1), *username) =~= injects_for(
                event.injects@.take(i as int),
                *username,
            ).push((event.injects@[i as int], *username)));
        }
        i = i + 1;
    }
    proof {
        assert(event.injects@.take(i as int) =~= event.injects@);
    }
    r
}

/// What to record for one planned condition of a machine, given the conditions
/// recorded before it. A condition of no event is recorded as it is. For one of
/// an event: refused when the scenario lacks the event or the node the role;
/// else the event gets the identifier recorded for an earlier condition of it
/// (refused when that one has none) or a fresh one, and is stored over the
/// window from `start` to `end` with every inject of the event run as the
/// role's user.
pub fn plan_condition_event(
    scenario: &Scenario,
    roles: &NamedMap<Role>,
    plan: &ConditionPlan,
    recorded: &Vec<ConditionProperties>,
    element: &DeploymentElement,
    start: Timestamp,
    end: Timestamp,
) -> (r: Result<ConditionStep, EventPlanError>)
    requires
        scenario.wf(),
        roles.wf(),
    ensures
        plan.event is None ==> (r matches Ok(ConditionStep::Unscheduled(p)) && {
            &&& p.name == plan.name
            &&& p.role_name == plan.role_name
            &&& p.event_id is None
            &&& p.event_name is None
            &&& p.injects is None
        }),
        plan.event matches Some(ev) ==> if !opt_map(scenario.events).dom().contains(ev@) {
            r == Err::<ConditionStep, EventPlanError>(EventPlanError::EventNotFound)
        } else if !roles@.dom().contains(plan.role_name@) {
            r == Err::<ConditionStep, EventPlanError>(EventPlanError::RoleNotFound)
        } else if known_event_id(recorded@, ev@) == Some(None::<Uuid>) {
            r == Err::<ConditionStep, EventPlanError>(EventPlanError::EventIdNotFound)
        } else {
            match element.handler_reference {
                None => r == Err::<ConditionStep, EventPlanError>(EventPlanError::HandlerReferenceNotFound),
                Some(h) => match parsed_uuid(h@) {
                    None => r == Err::<ConditionStep, EventPlanError>(EventPlanError::ParentNodeIdUnreadable),
                    Some(parent) => (r matches Ok(ConditionStep::Scheduled(request, pending)) && {
                        let event = opt_map(scenario.events)[ev@];
                        &&& (known_event_id(recorded@, ev@) matches Some(Some(id)) ==> request.event_id == id)
                        &&& (known_event_id(recorded@, ev@) is None ==> !id_recorded(recorded@, request.event_id))
                        &&& request.event_name == ev
                        &&& request.deployment_id == element.deployment_id
                        &&& request.description == event.description
                        &&& request.parent_node_id == parent
                        &&& request.start == start
                        &&& request.end == end
                        &&& request.use_shared_connection
                        &&& pending.name == plan.name
                        &&& pending.role_name == plan.role_name
                        &&& pending.event_name == ev
                        &&& pending.injects@ == injects_for(event.injects@, roles@[plan.role_name@].username)
                    }),
                },
            }
        },
{
    let event_name = match &plan.event {
        None => {
            return Ok(
                ConditionStep::Unscheduled(
                    ConditionProperties {
                        name: plan.name.clone(),
                        role_name: plan.role_name.clone(),
                        event_id: None,
                        event_name: None,
                        injects: None,
                    },
                ),
            );
        },
        Some(e) => e,
    };
    let event = match &scenario.events {
        Some(events) => match events.get(event_name) {
            Some(e) => e,
            None => {
                return Err(EventPlanError::EventNotFound);
            },
        },
        None => {
            return Err(EventPlanError::EventNotFound);
        },
    };
    let username = match roles.get(&plan.role_name) {
        Some(role) => role.username.clone(),
        None => {
            return Err(EventPlanError::RoleNotFound);
        },
    };
    let event_id = match event_id_for(recorded, event_name) {
        Ok(id) => id,
        Err(e) => {
            return Err(e);
        },
    };
    let request = match create_event_request(event_id, event_name, event, element, start, end) {
        Ok(request) => request,
        Err(e) => {
            return Err(e);
        },
    };
    let injects = injects_as_user(event, &username);
    Ok(
        ConditionStep::Scheduled(
            request,
            PendingEvent {
                name: plan.name.clone(),
                role_name: plan.role_name.clone(),
                event_name: event_name.clone(),
                injects,
            },
        ),
    )
}

/// The properties of a condition of an event once the event is stored under `event_id`.
pub fn recorded_condition(pending: PendingEvent, event_id: Uuid) -> (p: ConditionProperties)
    ensures
        p.name == pending.name,
        p.role_name == pending.role_name,
        p.event_id == Some(event_id),
        p.event_name == Some(pending.event_name),
        (p.injects matches Some(v) && v@ == pending.injects@),
{
    ConditionProperties {
        name: pending.name,
        role_name: pending.role_name,
        event_id: Some(event_id),
        event_name: Some(pending.event_name),
        injects: Some(pending.injects),
    }
}

} // verus!
