//! The participation gate.
//!
//! A click on a join control names an owner and a giveaway.
//! Behavior: load the record; silently do nothing when it is gone;
//! refuse a second join by the same identity; otherwise append the
//! identity and persist the record. Repeated joins by one identity
//! change the stored mapping at most once.

use crate::errors::AppResult;
use crate::models::{distinct_ids, has_id, GiveawayView, User, UserView};
use crate::store::RHashMap;
use vstd::prelude::*;

verus! {

/// How a join attempt ended. The counts report the participant list
/// length after the attempt, for the refreshed control label.
pub enum JoinOutcome {
    /// The giveaway is gone (it may have ended): silently no work.
    GiveawayMissing,
    /// The identity had already joined: nothing was changed.
    AlreadyJoined { count: usize },
    /// The identity was appended and the record persisted.
    Joined { count: usize },
}

/// The whole effect of one join attempt on the stored mapping.
pub open spec fn join_map(m: Map<u128, GiveawayView>, id: u128, u: UserView) -> Map<
    u128,
    GiveawayView,
> {
    if !m.contains_key(id) {
        m
    } else if has_id(m[id].participants, u.id) {
        m
    } else {
        m.insert(id, m[id].joined(u))
    }
}

/// Joins `user` to the giveaway `id`: a no-op when the record is gone
/// or the identity is already among the participants, an append and a
/// persist otherwise.
pub fn write_participant(store: &mut RHashMap, id: u128, user: User) -> (r: AppResult<JoinOutcome>)
    requires
        old(store).wf(),
    ensures
        final(store).wf(),
        final(store).spec_key() == old(store).spec_key(),
        r is Ok,
        final(store)@ == join_map(old(store)@, id, user@),
        (r matches Ok(JoinOutcome::GiveawayMissing)) <==> !old(store)@.contains_key(id),
        (r matches Ok(JoinOutcome::AlreadyJoined { .. })) <==> (old(store)@.contains_key(id)
            && has_id(old(store)@[id].participants, user@.id)),
        r matches Ok(JoinOutcome::AlreadyJoined { count }) ==> count == old(
            store,
        )@[id].participants.len(),
        r matches Ok(JoinOutcome::Joined { count }) ==> count == old(
            store,
        )@[id].participants.len() + 1,
        r matches Ok(JoinOutcome::Joined { .. }) ==> final(store).ttls() == old(
            store,
        ).ttls().insert(id, None),
        !(r matches Ok(JoinOutcome::Joined { .. })) ==> final(store).ttls() == old(store).ttls(),
{
    let found = match store.get(id) {
        Ok(found) => found,
        Err(e) => {
            return Err(e);
        },
    };
    match found {
        None => Ok(JoinOutcome::GiveawayMissing),
        Some(mut g) => {
            proof {
                store.lemma_values_well_formed(id);
            }
            if g.check_user(&user) {
                Ok(JoinOutcome::AlreadyJoined { count: g.get_participants().len() })
            } else {
                g.add_participant(user);
                proof {
                    assert(distinct_ids(g@.participants)) by {
                        let s = old(store)@[id].participants;
                        assert(g@.participants =~= s.push(user@));
                        assert forall|i: int, j: int|
                            0 <= i < j < s.push(user@).len() implies s.push(user@)[i].id != s.push(
                            user@,
                        )[j].id by {
                            if j < s.len() {
                            } else {
                                assert(s.push(user@)[i] == s[i]);
                                if s[i].id == user@.id {
                                    assert(has_id(s, user@.id));
                                }
                            }
                        }
                    }
                    assert(g@.well_formed());
                }
                let count = g.get_participants().len();
                match store.insert(id, g, None) {
                    Ok(()) => {
                        proof {
                            assert(store@ =~= join_map(old(store)@, id, user@));
                        }
                        Ok(JoinOutcome::Joined { count })
                    },
                    Err(e) => Err(e),
                }
            }
        },
    }
}

/// Joining is idempotent: once an identity has joined, a repeated join
/// with the same identity leaves the stored mapping exactly as it is,
/// so repeated clicks change the mapping at most once.
pub proof fn lemma_join_idempotent(m: Map<u128, GiveawayView>, id: u128, u: UserView)
    ensures
        join_map(join_map(m, id, u), id, u) == join_map(m, id, u),
{
    if m.contains_key(id) && !has_id(m[id].participants, u.id) {
        let m1 = join_map(m, id, u);
        assert(m1[id].participants == m[id].participants.push(u));
        assert(m1[id].participants[m[id].participants.len() as int].id == u.id);
        assert(has_id(m1[id].participants, u.id));
    }
}

} // verus!
