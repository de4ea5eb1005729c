//! All conversations.
use vstd::prelude::*;

use crate::ids::is_random_id;
use crate::session::session_base::{says, Session};
use crate::types::Role;

verus! {

pub struct SessionManager {
    pub sessions: Vec<Session>,
}

impl Default for SessionManager {
    fn default() -> (result: Self)
        ensures
            result.sessions@ == Seq::<Session>::empty(),
    {
        SessionManager { sessions: Vec::new() }
    }
}

/// The place of the first session with an identifier.
pub open spec fn first_session(sessions: Seq<Session>, id: u128) -> Option<int>
    decreases sessions.len(),
{
    if sessions.len() == 0 {
        None
    } else {
        match first_session(sessions.drop_last(), id) {
            Some(i) => Some(i),
            None => if sessions.last().id == id {
                Some(sessions.len() - 1)
            } else {
                None
            },
        }
    }
}

proof fn lemma_first_session_stays(sessions: Seq<Session>, id: u128, n: int)
    requires
        0 <= n <= sessions.len(),
        first_session(sessions.take(n), id) is Some,
    ensures
        first_session(sessions, id) == first_session(sessions.take(n), id),
    decreases sessions.len() - n,
{
    if n < sessions.len() {
        assert(sessions.take(n + 1).drop_last() =~= sessions.take(n));
        lemma_first_session_stays(sessions, id, n + 1);
    } else {
        assert(sessions.take(n) =~= sessions);
    }
}

impl SessionManager {
    pub fn new() -> (result: Self)
        ensures
            result.sessions@ == Seq::<Session>::empty(),
    {
        SessionManager { sessions: Vec::new() }
    }

    /// Begins a session and hands it out.
    pub fn start_session(&mut self, system_prompt: &str) -> (result: &mut Session)
        ensures
            is_random_id(result.id),
            result.messages@.len() == 1,
            says(result.messages@[0], Role::System, system_prompt@),
            final(self).sessions@ == old(self).sessions@.push(*final(result)),
    {
        let session = Session::new(system_prompt);
        self.sessions.push(session);
        let last: usize = self.sessions.len() - 1;
        proof {
            assert(forall|s: Session|
                self.sessions@.update(last as int, s) =~= old(self).sessions@.push(s));
        }
        &mut self.sessions[last]
    }

    /// Hands out the session with an identifier.
    pub fn get_session_mut(&mut self, id: u128) -> (result: Option<&mut Session>)
        ensures
            match result {
                Some(session) => {
                    &&& first_session(old(self).sessions@, id) matches Some(i)
                    &&& 0 <= i < old(self).sessions@.len()
                    &&& *session == old(self).sessions@[i]
                    &&& session.id == id
                    &&& final(self).sessions@ == old(self).sessions@.update(i, *final(session))
                },
                None => {
                    &&& first_session(old(self).sessions@, id) is None
                    &&& final(self).sessions@ == old(self).sessions@
                },
            },
    {
        let mut i: usize = 0;
        while i < self.sessions.len()
            invariant
                i <= self.sessions@.len(),
                self.sessions@ == old(self).sessions@,
                first_session(self.sessions@.take(i as int), id) is None,
            decreases self.sessions.len() - i,
        {
            assert(self.sessions@.take(i + 1).drop_last() =~= self.sessions@.take(i as int));
            if self.sessions[i].id == id {
                proof {
                    lemma_first_session_stays(self.sessions@, id, i + 1);
                }
                return Some(&mut self.sessions[i]);
            }
            i = i + 1;
        }
        assert(self.sessions@.take(i as int) =~= self.sessions@);
        None
    }
}

/// A session that was begun can be found by its identifier, unless an earlier one has the same.
pub proof fn law_started_sessions_are_found(sessions: Seq<Session>, started: Session)
    requires
        first_session(sessions, started.id) is None,
    ensures
        first_session(sessions.push(started), started.id) == Some(sessions.len() as int),
{
    assert(sessions.push(started).drop_last() =~= sessions);
}

/// The session that is handed out for an identifier is the first one that has it.
pub proof fn law_first_session(sessions: Seq<Session>, id: u128, i: int)
    requires
        0 <= i < sessions.len(),
        sessions[i].id == id,
        forall|k: int| 0 <= k < i ==> (#[trigger] sessions[k]).id != id,
    ensures
        first_session(sessions, id) == Some(i),
    decreases sessions.len(),
{
    let rest = sessions.drop_last();
    if i < rest.len() {
        assert(rest[i] == sessions[i]);
        assert forall|k: int| 0 <= k < i implies (#[trigger] rest[k]).id != id by {
            assert(rest[k] == sessions[k]);
        }
        law_first_session(rest, id, i);
    } else {
        assert forall|k: int| 0 <= k < rest.len() implies (#[trigger] rest[k]).id != id by {
            assert(rest[k] == sessions[k]);
        }
        lemma_no_session(rest, id);
    }
}

proof fn lemma_no_session(sessions: Seq<Session>, id: u128)
    requires
        forall|k: int| 0 <= k < sessions.len() ==> (#[trigger] sessions[k]).id != id,
    ensures
        first_session(sessions, id) is None,
    decreases sessions.len(),
{
    if sessions.len() > 0 {
        let rest = sessions.drop_last();
        assert(sessions[sessions.len() - 1] == sessions.last());
        assert forall|k: int| 0 <= k < rest.len() implies (#[trigger] rest[k]).id != id by {
            assert(rest[k] == sessions[k]);
        }
        lemma_no_session(rest, id);
    }
}

} // verus!
