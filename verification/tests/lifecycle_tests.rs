use giveaway_core::errors::AppErrors;
use giveaway_core::gate::{write_participant, JoinOutcome};
use giveaway_core::ids::uuid_to_string;
use giveaway_core::lifecycle::{
    cancel_giveaway, create_giveaway, draw_winners, handle_draw_request, list_giveaways,
    publish_giveaway, DrawOutcome,
};
use giveaway_core::models::{MessageRef, User};
use giveaway_core::store::RHashMap;

fn user(id: u64, name: &str) -> User {
    User { id, username: Some(String::from(name)), first_name: String::from(name) }
}

fn fresh_store() -> RHashMap {
    RHashMap::new(String::from("giveaway:1"))
}

#[test]
fn create_then_get_is_fresh() {
    let mut store = fresh_store();
    let id = create_giveaway(
        &mut store,
        String::from("Win a prize"),
        String::from("photo-ref"),
        user(1, "owner"),
    )
    .unwrap();
    let g = store.get(id).unwrap().unwrap();
    assert_eq!(g.get_text(), "Win a prize");
    assert_eq!(g.get_photo(), "photo-ref");
    assert!(g.get_participants().is_empty());
    assert_eq!(g.group_id, "");
    assert!(g.get_message().is_none());
}

#[test]
fn list_on_empty_owner_is_empty_not_error() {
    let store = fresh_store();
    let all = list_giveaways(&store).unwrap();
    assert!(all.is_empty());
}

#[test]
fn cancel_on_missing_id_is_noop() {
    let mut store = fresh_store();
    let id = create_giveaway(
        &mut store,
        String::from("t"),
        String::from("p"),
        user(1, "owner"),
    )
    .unwrap();
    assert!(cancel_giveaway(&mut store, id.wrapping_add(1)).is_ok());
    assert_eq!(list_giveaways(&store).unwrap().len(), 1);
    assert!(cancel_giveaway(&mut store, id).is_ok());
    assert!(list_giveaways(&store).unwrap().is_empty());
    assert!(cancel_giveaway(&mut store, id).is_ok());
}

#[test]
fn publish_missing_id_is_not_found() {
    let mut store = fresh_store();
    let r = publish_giveaway(
        &mut store,
        12345,
        String::from("@promo"),
        MessageRef { message_id: 10 },
    );
    assert_eq!(r, Err(AppErrors::NotFound));
    assert!(list_giveaways(&store).unwrap().is_empty());
}

#[test]
fn draw_on_missing_id_is_not_found() {
    let store = fresh_store();
    match draw_winners(&store, 777, 2) {
        Err(AppErrors::NotFound) => {},
        _ => panic!("expected NotFound"),
    }
}

#[test]
fn draw_with_zero_participants_reports_and_keeps_record() {
    let mut store = fresh_store();
    let id = create_giveaway(
        &mut store,
        String::from("t"),
        String::from("p"),
        user(1, "owner"),
    )
    .unwrap();
    match draw_winners(&store, id, 2).unwrap() {
        DrawOutcome::NoParticipants => {},
        DrawOutcome::Winners(_) => panic!("expected no participants"),
    }
    assert!(store.get(id).unwrap().is_some());
}

#[test]
fn winners_are_distinct_members() {
    let mut store = fresh_store();
    let id = create_giveaway(
        &mut store,
        String::from("t"),
        String::from("p"),
        user(1, "owner"),
    )
    .unwrap();
    for uid in 10..15 {
        let joined = write_participant(&mut store, id, user(uid, "u")).unwrap();
        assert!(matches!(joined, JoinOutcome::Joined { .. }));
    }
    match draw_winners(&store, id, 2).unwrap() {
        DrawOutcome::Winners(w) => {
            assert_eq!(w.len(), 2);
            assert!(w[0].id != w[1].id);
            assert!(w.iter().all(|u| (10..15).contains(&u.id)));
        },
        DrawOutcome::NoParticipants => panic!("expected winners"),
    }
    // The draw retains the record: the participant list is unchanged.
    let g = store.get(id).unwrap().unwrap();
    assert_eq!(g.get_participants().len(), 5);
}

#[test]
fn full_count_draw_is_permutation() {
    let mut store = fresh_store();
    let id = create_giveaway(
        &mut store,
        String::from("t"),
        String::from("p"),
        user(1, "owner"),
    )
    .unwrap();
    for uid in 10..15 {
        write_participant(&mut store, id, user(uid, "u")).unwrap();
    }
    match draw_winners(&store, id, 100).unwrap() {
        DrawOutcome::Winners(w) => {
            let mut ids: Vec<u64> = w.iter().map(|u| u.id).collect();
            ids.sort();
            assert_eq!(ids, vec![10, 11, 12, 13, 14]);
        },
        DrawOutcome::NoParticipants => panic!("expected winners"),
    }
    // A reroll can draw the same giveaway again: the record is retained.
    match draw_winners(&store, id, 100).unwrap() {
        DrawOutcome::Winners(w) => {
            let mut ids: Vec<u64> = w.iter().map(|u| u.id).collect();
            ids.sort();
            assert_eq!(ids, vec![10, 11, 12, 13, 14]);
        },
        DrawOutcome::NoParticipants => panic!("expected winners"),
    }
}

#[test]
fn whole_lifecycle_scenario() {
    let mut store = fresh_store();
    let id = create_giveaway(
        &mut store,
        String::from("Win a prize"),
        String::from("photo-ref"),
        user(1, "owner"),
    )
    .unwrap();

    let listed = list_giveaways(&store).unwrap();
    assert_eq!(listed.len(), 1);
    assert_eq!(listed[0].0, id);
    assert_eq!(listed[0].1.get_text(), "Win a prize");
    assert!(listed[0].1.get_participants().is_empty());

    publish_giveaway(&mut store, id, String::from("@promo"), MessageRef { message_id: 55 })
        .unwrap();
    let g = store.get(id).unwrap().unwrap();
    assert_eq!(g.group_id, "@promo");
    assert_eq!(*g.get_message(), Some(MessageRef { message_id: 55 }));

    for uid in [100, 200, 300] {
        let joined = write_participant(&mut store, id, user(uid, "member")).unwrap();
        assert!(matches!(joined, JoinOutcome::Joined { .. }));
    }
    let g = store.get(id).unwrap().unwrap();
    let mut seen: Vec<u64> = g.get_participants().iter().map(|u| u.id).collect();
    assert_eq!(seen.len(), 3);
    seen.sort();
    seen.dedup();
    assert_eq!(seen.len(), 3);

    match draw_winners(&store, id, 5).unwrap() {
        DrawOutcome::Winners(w) => {
            let mut ids: Vec<u64> = w.iter().map(|u| u.id).collect();
            ids.sort();
            assert_eq!(ids, vec![100, 200, 300]);
        },
        DrawOutcome::NoParticipants => panic!("expected winners"),
    }

    // The record is retained until the organizer finalizes; the
    // finishing choice cancels it.
    let g = store.get(id).unwrap().unwrap();
    assert_eq!(g.get_participants().len(), 3);
    cancel_giveaway(&mut store, id).unwrap();
    assert!(store.get(id).unwrap().is_none());
}

#[test]
fn draw_request_text_is_parsed_and_drawn() {
    let mut store = fresh_store();
    let id = create_giveaway(
        &mut store,
        String::from("t"),
        String::from("p"),
        user(1, "owner"),
    )
    .unwrap();
    for uid in [10, 11, 12] {
        write_participant(&mut store, id, user(uid, "u")).unwrap();
    }
    match handle_draw_request(&store, "nonsense") {
        Err(AppErrors::InvalidInput) => {},
        _ => panic!("expected InvalidInput"),
    }
    assert!(store.get(id).unwrap().is_some());
    let request = format!("{} 2", uuid_to_string(id));
    match handle_draw_request(&store, &request).unwrap() {
        DrawOutcome::Winners(w) => assert_eq!(w.len(), 2),
        DrawOutcome::NoParticipants => panic!("expected winners"),
    }
    // The drawn record stays until it is finalized.
    assert_eq!(store.get(id).unwrap().unwrap().get_participants().len(), 3);
    cancel_giveaway(&mut store, id).unwrap();
    assert!(store.get(id).unwrap().is_none());
}
