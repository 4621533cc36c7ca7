//! The registry of websocket listeners per exercise, and to whom updates go.

use crate::idmap::IdMap;
use crate::model::Uuid;
use vstd::prelude::*;

verus! {

/// A text frame for a websocket listener.
pub struct WebsocketStringMessage(pub String);

/// Why a listener could not be unregistered.
#[derive(PartialEq, Eq, Structural, Clone, Copy, Debug)]
pub enum WebSocketError {
    NoExerciseWebsockets,
    NoRecipient,
}

/// Registers a listener (`.2`) under an exercise (`.0`) and a recipient identifier (`.1`).
pub struct RegisterExerciseSocket<R>(pub Uuid, pub Uuid, pub R);

/// Unregisters the listener with recipient identifier `.1` from exercise `.0`.
pub struct UnRegisterExercise(pub Uuid, pub Uuid);

/// An exercise update for the listeners of an exercise.
pub struct SocketExerciseUpdate<T>(pub Uuid, pub T);

/// A deployment update for the listeners of an exercise.
pub struct SocketDeployment<T>(pub Uuid, pub T);

/// A deployment element update for the listeners of an exercise.
pub struct SocketDeploymentElement<T>(pub Uuid, pub T);

/// A score update for the listeners of an exercise.
pub struct SocketScoring<T>(pub Uuid, pub T);

/// The listeners of an exercise, by recipient; none when the exercise has no entry.
pub open spec fn listeners<R>(sockets: Map<Uuid, IdMap<R>>, exercise: Uuid) -> Map<Uuid, R> {
    if sockets.dom().contains(exercise) {
        sockets[exercise]@
    } else {
        Map::empty()
    }
}

pub struct WebSocketManager<R> {
    exercise_websockets: IdMap<IdMap<R>>,
}

impl<R> WebSocketManager<R> {
    pub closed spec fn spec_sockets(&self) -> Map<Uuid, IdMap<R>> {
        self.exercise_websockets@
    }

    /// The listeners of every exercise.
    pub open spec fn spec_listeners(&self, exercise: Uuid) -> Map<Uuid, R> {
        listeners(self.spec_sockets(), exercise)
    }

    /// Whether the exercise has an entry, possibly without listeners.
    pub open spec fn has_exercise(&self, exercise: Uuid) -> bool {
        self.spec_sockets().dom().contains(exercise)
    }

    pub closed spec fn wf(&self) -> bool {
        &&& self.exercise_websockets.wf()
        &&& forall|e| #[trigger] self.exercise_websockets@.dom().contains(e) ==> self.exercise_websockets@[e].wf()
    }

    pub fn new() -> (m: Self)
        ensures
            m.wf(),
            forall|e: Uuid| !m.has_exercise(e) && m.spec_listeners(e) == Map::<Uuid, R>::empty(),
    {
        WebSocketManager { exercise_websockets: IdMap::new() }
    }

    /// Adds a listener to an exercise, replacing one with the same recipient identifier.
    pub fn handle_register(&mut self, msg: RegisterExerciseSocket<R>) -> (r: Result<(), WebSocketError>)
        requires
            old(self).wf(),
        ensures
            final(self).wf(),
            r is Ok,
            final(self).has_exercise(msg.0),
            final(self).spec_listeners(msg.0) == old(self).spec_listeners(msg.0).insert(msg.1, msg.2),
            forall|e: Uuid|
                e != msg.0 ==> final(self).spec_listeners(e) == old(self).spec_listeners(e) && (final(self).has_exercise(e) == old(self).has_exercise(e)),
    {
        let RegisterExerciseSocket(exercise_id, recipient_id, recipient) = msg;
        let mut inner = match self.exercise_websockets.remove(exercise_id) {
            Some(m) => m,
            None => IdMap::new(),
        };
        inner.insert(recipient_id, recipient);
        self.exercise_websockets.insert(exercise_id, inner);
        Ok(())
    }

    /// Removes a listener from an exercise. The exercise keeps its entry, even when empty.
    pub fn handle_unregister(&mut self, msg: UnRegisterExercise) -> (r: Result<(), WebSocketError>)
        requires
            old(self).wf(),
        ensures
            final(self).wf(),
            !old(self).has_exercise(msg.0) ==> r == Err::<(), WebSocketError>(WebSocketError::NoExerciseWebsockets),
            old(self).has_exercise(msg.0) && !old(self).spec_listeners(msg.0).dom().contains(msg.1) ==> r
                == Err::<(), WebSocketError>(WebSocketError::NoRecipient),
            old(self).spec_listeners(msg.0).dom().contains(msg.1) ==> r is Ok,
            final(self).spec_listeners(msg.0) == old(self).spec_listeners(msg.0).remove(msg.1),
            forall|e: Uuid|
                final(self).has_exercise(e) == old(self).has_exercise(e) && (e != msg.0 ==> final(self).spec_listeners(e) == old(self).spec_listeners(e)),
    {
        let UnRegisterExercise(exercise_id, recipient_id) = msg;
        let mut inner = match self.exercise_websockets.remove(exercise_id) {
            Some(m) => m,
            None => {
                proof {
                    assert(self.spec_listeners(exercise_id) =~= old(self).spec_listeners(exercise_id).remove(
                        recipient_id,
                    ));
                    assert(self.exercise_websockets@ =~= old(self).exercise_websockets@);
                }
                return Err(WebSocketError::NoExerciseWebsockets);
            },
        };
        let removed = inner.remove(recipient_id);
        self.exercise_websockets.insert(exercise_id, inner);
        match removed {
            Some(_) => Ok(()),
            None => Err(WebSocketError::NoRecipient),
        }
    }
}

impl<R: Clone> WebSocketManager<R> {
    /// Copies of the listeners of an exercise, one per recipient.
    pub fn get_exercise_targets(&self, exercise_uuid: Uuid) -> (r: Vec<R>)
        requires
            self.wf(),
        ensures
            exists|ids: Seq<Uuid>|
                #![trigger ids.len()]
                ids.len() == r@.len() && ids.no_duplicates() && ids.to_set() == self.spec_listeners(
                    exercise_uuid,
                ).dom() && forall|i: int|
                    0 <= i < ids.len() ==> cloned::<R>(
                        self.spec_listeners(exercise_uuid)[#[trigger] ids[i]],
                        r@[i],
                    ),
    {
        let mut targets: Vec<R> = Vec::new();
        match self.exercise_websockets.get(exercise_uuid) {
            Some(update_targets) => {
                let ids = update_targets.keys();
                let mut i: usize = 0;
                while i < ids.len()
                    invariant
                        self.wf(),
                        self.spec_sockets().dom().contains(exercise_uuid),
                        *update_targets == self.spec_sockets()[exercise_uuid],
                        update_targets.wf(),
                        ids@.to_set() == update_targets@.dom(),
                        i <= ids@.len(),
                        targets@.len() == i,
                        forall|j: int|
                            0 <= j < i ==> cloned::<R>(update_targets@[#[trigger] ids@[j]], targets@[j]),
                    decreases ids@.len() - i,
                {
                    proof {
                        assert(ids@.to_set().contains(ids@[i as int]));
                    }
                    let target = update_targets.get(ids[i]).unwrap();
                    targets.push(target.clone());
                    i = i + 1;
                }
                proof {
                    assert(self.spec_listeners(exercise_uuid) == update_targets@);
                    assert(ids@.len() == targets@.len() && ids@.no_duplicates() && ids@.to_set()
                        == self.spec_listeners(exercise_uuid).dom() && forall|i: int|
                        0 <= i < ids@.len() ==> cloned::<R>(
                            self.spec_listeners(exercise_uuid)[#[trigger] ids@[i]],
                            targets@[i],
                        ));
                }
                targets
            },
            None => {
                proof {
                    let ids = Seq::<Uuid>::empty();
                    assert(ids.to_set() =~= self.spec_listeners(exercise_uuid).dom());
                    assert(ids.len() == targets@.len() && ids.no_duplicates());
                }
                targets
            },
        }
    }

    /// The listeners an exercise update goes to.
    pub fn handle_exercise_update<T>(&self, msg: &SocketExerciseUpdate<T>) -> (r: Vec<R>)
        requires
            self.wf(),
        ensures
            exists|ids: Seq<Uuid>|
                #![trigger ids.len()]
                ids.len() == r@.len() && ids.no_duplicates() && ids.to_set() == self.spec_listeners(msg.0).dom()
                    && forall|i: int|
                    0 <= i < ids.len() ==> cloned::<R>(self.spec_listeners(msg.0)[#[trigger] ids[i]], r@[i]),
    {
        self.get_exercise_targets(msg.0)
    }

    /// The listeners a deployment update goes to.
    pub fn handle_deployment<T>(&self, msg: &SocketDeployment<T>) -> (r: Vec<R>)
        requires
            self.wf(),
        ensures
            exists|ids: Seq<Uuid>|
                #![trigger ids.len()]
                ids.len() == r@.len() && ids.no_duplicates() && ids.to_set() == self.spec_listeners(msg.0).dom()
                    && forall|i: int|
                    0 <= i < ids.len() ==> cloned::<R>(self.spec_listeners(msg.0)[#[trigger] ids[i]], r@[i]),
    {
        self.get_exercise_targets(msg.0)
    }

    /// The listeners a deployment element update goes to.
    pub fn handle_deployment_element<T>(&self, msg: &SocketDeploymentElement<T>) -> (r: Vec<R>)
        requires
            self.wf(),
        ensures
            exists|ids: Seq<Uuid>|
                #![trigger ids.len()]
                ids.len() == r@.len() && ids.no_duplicates() && ids.to_set() == self.spec_listeners(msg.0).dom()
                    && forall|i: int|
                    0 <= i < ids.len() ==> cloned::<R>(self.spec_listeners(msg.0)[#[trigger] ids[i]], r@[i]),
    {
        self.get_exercise_targets(msg.0)
    }

    /// The listeners a score update goes to.
    pub fn handle_scoring<T>(&self, msg: &SocketScoring<T>) -> (r: Vec<R>)
        requires
            self.wf(),
        ensures
            exists|ids: Seq<Uuid>|
                #![trigger ids.len()]
                ids.len() == r@.len() && ids.no_duplicates() && ids.to_set() == self.spec_listeners(msg.0).dom()
                    && forall|i: int|
                    0 <= i < ids.len() ==> cloned::<R>(self.spec_listeners(msg.0)[#[trigger] ids[i]], r@[i]),
    {
        self.get_exercise_targets(msg.0)
    }
}

/// A listener registered under an exercise is among its listeners until it is
/// unregistered, and unregistering it leaves the exercise's other listeners as
/// registration found them.
pub proof fn lemma_register_then_unregister<R>(listeners: Map<Uuid, R>, recipient: Uuid, r: R)
    requires
        !listeners.dom().contains(recipient),
    ensures
        listeners.insert(recipient, r).dom().contains(recipient),
        listeners.insert(recipient, r).remove(recipient) == listeners,
{
    assert(listeners.insert(recipient, r).remove(recipient) =~= listeners);
}

} // verus!
