//! The sessions of the connections the server has accepted, by connection id.

use vstd::prelude::*;
use std::collections::HashMap;
use std::sync::Arc;
use crate::errors::Errors;

verus! {

broadcast use vstd::std_specs::hash::group_hash_axioms;

/// The state kept for one connection.
pub struct Session {}

impl Session {
    pub fn new() -> (s: Session) {
        Session {}
    }
}

/// Every session, under the id of its connection.
pub struct SessionManager {
    store: HashMap<usize, Arc<Session>>,
}

impl View for SessionManager {
    type V = Set<usize>;

    /// The ids that have a session.
    closed spec fn view(&self) -> Set<usize> {
        self.store@.dom()
    }
}

/// What creating a session for `id` does to the set of ids `ids`: the new
/// set, and whether a session was created.
pub open spec fn create_outcome(ids: Set<usize>, id: usize) -> (Set<usize>, bool) {
    if ids.contains(id) {
        (ids, false)
    } else {
        (ids.insert(id), true)
    }
}

/// A connection id gets at most one session: once created, creating it
/// again is refused, and the refusal leaves the sessions as they were.
pub proof fn law_session_ids_unique(ids: Set<usize>, id: usize)
    ensures
        ({
            let (after, _) = create_outcome(ids, id);
            let (again, created_again) = create_outcome(after, id);
            &&& after.contains(id)
            &&& !created_again
            &&& again == after
        }),
{
}

/// A refused creation changes nothing, and a creation is refused only for
/// an id that already has a session.
pub proof fn law_refusal_changes_nothing(ids: Set<usize>, id: usize)
    ensures
        !create_outcome(ids, id).1 <==> ids.contains(id),
        !create_outcome(ids, id).1 ==> create_outcome(ids, id).0 == ids,
{
}

/// Creating the session of one connection neither adds nor removes the
/// session of any other connection.
pub proof fn law_other_ids_untouched(ids: Set<usize>, id: usize, other: usize)
    requires
        other != id,
    ensures
        create_outcome(ids, id).0.contains(other) == ids.contains(other),
        create_outcome(create_outcome(ids, id).0, other).1 == create_outcome(ids, other).1,
{
}

/// With finitely many sessions, a creation adds exactly one.
pub proof fn law_creation_adds_one(ids: Set<usize>, id: usize)
    requires
        ids.finite(),
    ensures
        create_outcome(ids, id).0.finite(),
        create_outcome(ids, id).0.len() == ids.len() + if create_outcome(ids, id).1 {
            1int
        } else {
            0int
        },
{
}

impl SessionManager {
    pub fn new() -> (m: SessionManager)
        ensures
            m@ == Set::<usize>::empty(),
    {
        let m = SessionManager { store: HashMap::new() };
        assert(m@ =~= Set::<usize>::empty());
        m
    }

    /// Creates the session of the connection `id`, unless it already has one.
    pub fn create_session(&mut self, id: usize) -> (res: Result<Arc<Session>, Errors>)
        ensures
            (final(self)@, res is Ok) == create_outcome(old(self)@, id),
            res matches Err(e) ==> e == Errors::SessionAlreadyExist,
    {
        if self.store.contains_key(&id) {
            return Err(Errors::SessionAlreadyExist);
        }
        let session = self.store.entry(id).or_insert(Arc::new(Session::new())).clone();
        proof {
            assert(self.store@.dom() =~= old(self).store@.dom().insert(id));
        }
        Ok(session)
    }
}

} // verus!
