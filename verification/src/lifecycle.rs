//! The giveaway lifecycle: create, publish, cancel, list, draw.
//!
//! Every operation is scoped to one organizer's store. Publishing is
//! atomic from the caller's view: the target and the announcement
//! reference are persisted in one store write, or the record is left
//! untouched. A successful draw consumes the record; a draw on a record
//! without participants changes nothing.

use crate::draw::draw_from;
use crate::errors::{AppErrors, AppResult};
use crate::ids::fresh_uuid;
use crate::models::{distinct_ids, views_of, Giveaway, GiveawayView, MessageRef, User, UserView};
use crate::payload::{parse_draw_request, spec_parse_draw_request};
use crate::store::{covers, RHashMap};
use vstd::prelude::*;

verus! {

/// How a draw request on an existing record ended.
pub enum DrawOutcome {
    /// The record has no participants: nothing was drawn and nothing
    /// was changed.
    NoParticipants,
    /// The winners, sampled without replacement; the record was
    /// consumed.
    Winners(Vec<User>),
}

/// Creates a fresh record for `(text, photo, owner)` under a fresh
/// random id and persists it with no expiration.
pub fn create_giveaway(store: &mut RHashMap, text: String, photo: String, owner: User) -> (r:
    AppResult<u128>)
    requires
        old(store).wf(),
    ensures
        final(store).wf(),
        final(store).spec_key() == old(store).spec_key(),
        r is Ok,
        r matches Ok(id) ==> final(store)@ == old(store)@.insert(
            id,
            GiveawayView::fresh(text@, photo@, owner@),
        ),
        r matches Ok(id) ==> final(store).ttls() == old(store).ttls().insert(id, None),
{
    let id = fresh_uuid();
    let g = Giveaway::new(text, photo, owner);
    match store.insert(id, g, None) {
        Ok(()) => Ok(id),
        Err(e) => Err(e),
    }
}

/// Publishes the record `id` to `target`: the caller has emitted the
/// announcement and hands in its reference, and both are persisted in
/// one write. A missing record is `NotFound` and nothing is changed:
/// the record is never left half-updated.
pub fn publish_giveaway(
    store: &mut RHashMap,
    id: u128,
    target: String,
    announcement: MessageRef,
) -> (r: AppResult<()>)
    requires
        old(store).wf(),
    ensures
        final(store).wf(),
        final(store).spec_key() == old(store).spec_key(),
        r is Ok <==> old(store)@.contains_key(id),
        r matches Err(e) ==> e == AppErrors::NotFound && final(store)@ == old(store)@,
        r is Ok ==> final(store)@ == old(store)@.insert(
            id,
            old(store)@[id].published(target@, announcement),
        ),
        r is Ok ==> final(store).ttls() == old(store).ttls().insert(id, None),
        r is Err ==> final(store).ttls() == old(store).ttls(),
{
    let found = match store.get(id) {
        Ok(found) => found,
        Err(e) => {
            return Err(e);
        },
    };
    match found {
        None => Err(AppErrors::NotFound),
        Some(mut g) => {
            proof {
                store.lemma_values_well_formed(id);
            }
            g.add_group_id(target);
            g.set_message(announcement);
            proof {
                assert(g@ =~= old(store)@[id].published(g.group_id@, announcement));
            }
            store.insert(id, g, None)
        },
    }
}

/// Removes the record `id` unconditionally: organizer intent always
/// wins, and cancelling an id that is not there is a harmless no-op,
/// not an error.
pub fn cancel_giveaway(store: &mut RHashMap, id: u128) -> (r: AppResult<()>)
    requires
        old(store).wf(),
    ensures
        final(store).wf(),
        final(store).spec_key() == old(store).spec_key(),
        r is Ok,
        final(store)@ == old(store)@.remove(id),
        final(store).ttls() == old(store).ttls().remove(id),
{
    store.remove(id)
}

/// Returns every record of the organizer, each id exactly once, in
/// unspecified order. No records is a normal, reportable state, not an
/// error: the result is then the empty sequence.
pub fn list_giveaways(store: &RHashMap) -> (r: AppResult<Vec<(u128, Giveaway)>>)
    requires
        store.wf(),
    ensures
        r is Ok,
        r matches Ok(v) ==> forall|j: int|
            0 <= j < v@.len() ==> store@.contains_key(#[trigger] v@[j].0) && v@[j].1@
                == store@[v@[j].0],
        r matches Ok(v) ==> covers(v@, store@),
        r matches Ok(v) ==> forall|i: int, j: int| 0 <= i < j < v@.len() ==> v@[i].0 != v@[j].0,
        r matches Ok(v) ==> (store@ == Map::<u128, GiveawayView>::empty() ==> v@.len() == 0),
{
    let r = store.get_all();
    proof {
        if r is Ok {
            let v = r->Ok_0;
            if store@ == Map::<u128, GiveawayView>::empty() && v@.len() > 0 {
                assert(store@.contains_key(v@[0].0));
                assert(false);
            }
        }
    }
    r
}

/// Draws winners for the record `id`. A missing record is `NotFound`;
/// a record without participants is reported; a successful draw
/// returns `min(count, participants)` distinct participants, sampled
/// uniformly without replacement. The draw changes nothing: the record
/// is retained until the organizer finalizes (the finishing choice
/// cancels it), so the same giveaway can be drawn again.
pub fn draw_winners(store: &RHashMap, id: u128, count: usize) -> (r: AppResult<DrawOutcome>)
    requires
        store.wf(),
    ensures
        r is Err <==> !store@.contains_key(id),
        r matches Err(e) ==> e == AppErrors::NotFound,
        (r matches Ok(DrawOutcome::NoParticipants)) <==> (store@.contains_key(id)
            && store@[id].participants.len() == 0),
        r matches Ok(DrawOutcome::Winners(w)) ==> {
            let participants = store@[id].participants;
            &&& store@.contains_key(id)
            &&& participants.len() > 0
            &&& w@.len() == if count <= participants.len() {
                count as int
            } else {
                participants.len() as int
            }
            &&& distinct_ids(views_of(w@))
            &&& forall|i: int|
                0 <= i < w@.len() ==> participants.contains(#[trigger] views_of(w@)[i])
            &&& count >= participants.len() ==> views_of(w@).to_multiset()
                == participants.to_multiset()
        },
{
    let found = match store.get(id) {
        Ok(found) => found,
        Err(e) => {
            return Err(e);
        },
    };
    match found {
        None => Err(AppErrors::NotFound),
        Some(g) => {
            proof {
                store.lemma_values_well_formed(id);
            }
            let participants = g.clone_participants();
            if participants.len() == 0 {
                Ok(DrawOutcome::NoParticipants)
            } else {
                let w = draw_from(participants, count);
                Ok(DrawOutcome::Winners(w))
            }
        },
    }
}

/// Handles a draw request as the organizer typed it: `<id> <count>`.
/// Text that does not parse is the soft `InvalidInput` condition: it
/// is reported, and nothing changes; parsed requests draw as
/// `draw_winners` does, leaving the record in place.
pub fn handle_draw_request(store: &RHashMap, text: &str) -> (r: AppResult<DrawOutcome>)
    requires
        store.wf(),
    ensures
        (r matches Err(e) && e == AppErrors::InvalidInput) <==> spec_parse_draw_request(text@)
            is None,
        (r matches Err(e) && e == AppErrors::NotFound) <==> (spec_parse_draw_request(text@)
            matches Some(p) && !store@.contains_key(p.0)),
        (r matches Ok(DrawOutcome::NoParticipants)) <==> (spec_parse_draw_request(text@)
            matches Some(p) && store@.contains_key(p.0) && store@[p.0].participants.len() == 0),
        r matches Ok(DrawOutcome::Winners(w)) ==> {
            let (id, count) = spec_parse_draw_request(text@)->0;
            let participants = store@[id].participants;
            &&& store@.contains_key(id)
            &&& participants.len() > 0
            &&& w@.len() == if count <= participants.len() {
                count as int
            } else {
                participants.len() as int
            }
            &&& distinct_ids(views_of(w@))
            &&& forall|i: int|
                0 <= i < w@.len() ==> participants.contains(#[trigger] views_of(w@)[i])
            &&& count >= participants.len() ==> views_of(w@).to_multiset()
                == participants.to_multiset()
        },
{
    match parse_draw_request(text) {
        None => Err(AppErrors::InvalidInput),
        Some((id, count)) => {
            let capped: usize = if count > usize::MAX as u64 {
                usize::MAX
            } else {
                count as usize
            };
            let r = draw_winners(store, id, capped);
            proof {
                if r is Ok && r->Ok_0 is Winners {
                    store.lemma_values_well_formed(id);
                }
            }
            r
        },
    }
}

/// Creating a record and then loading it by its id yields a record
/// with no participants and no publish target, whatever else the store
/// holds.
pub proof fn lemma_create_then_get(
    m: Map<u128, GiveawayView>,
    id: u128,
    text: Seq<char>,
    photo: Seq<char>,
    owner: UserView,
)
    ensures
        m.insert(id, GiveawayView::fresh(text, photo, owner)).contains_key(id),
        m.insert(id, GiveawayView::fresh(text, photo, owner))[id].participants.len() == 0,
        m.insert(id, GiveawayView::fresh(text, photo, owner))[id].group_id.len() == 0,
        m.insert(id, GiveawayView::fresh(text, photo, owner))[id].message is None,
{
}

/// Removing an id that is not in the mapping leaves the mapping
/// exactly as it is: cancelling a giveaway that never existed, or one
/// already gone, is a no-op.
pub proof fn lemma_remove_absent(m: Map<u128, GiveawayView>, id: u128)
    requires
        !m.contains_key(id),
    ensures
        m.remove(id) == m,
{
    assert(m.remove(id) =~= m);
}

} // verus!
