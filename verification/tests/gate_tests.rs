use giveaway_core::gate::{write_participant, JoinOutcome};
use giveaway_core::lifecycle::create_giveaway;
use giveaway_core::models::User;
use giveaway_core::store::RHashMap;

fn user(id: u64) -> User {
    User { id, username: None, first_name: String::from("member") }
}

#[test]
fn join_on_missing_giveaway_is_silent_noop() {
    let mut store = RHashMap::new(String::from("giveaway:1"));
    let r = write_participant(&mut store, 4242, user(7)).unwrap();
    assert!(matches!(r, JoinOutcome::GiveawayMissing));
}

#[test]
fn repeated_joins_change_participants_at_most_once() {
    let mut store = RHashMap::new(String::from("giveaway:1"));
    let id = create_giveaway(
        &mut store,
        String::from("t"),
        String::from("p"),
        user(1),
    )
    .unwrap();

    match write_participant(&mut store, id, user(7)).unwrap() {
        JoinOutcome::Joined { count } => assert_eq!(count, 1),
        _ => panic!("expected a join"),
    }
    for _ in 0..3 {
        match write_participant(&mut store, id, user(7)).unwrap() {
            JoinOutcome::AlreadyJoined { count } => assert_eq!(count, 1),
            _ => panic!("expected the join to be refused"),
        }
        let g = store.get(id).unwrap().unwrap();
        assert_eq!(g.get_participants().len(), 1);
        assert_eq!(g.get_participants()[0].id, 7);
    }
}

#[test]
fn same_id_different_display_fields_still_refused() {
    let mut store = RHashMap::new(String::from("giveaway:1"));
    let id = create_giveaway(
        &mut store,
        String::from("t"),
        String::from("p"),
        user(1),
    )
    .unwrap();
    write_participant(&mut store, id, user(7)).unwrap();
    let same_identity = User {
        id: 7,
        username: Some(String::from("renamed")),
        first_name: String::from("other"),
    };
    match write_participant(&mut store, id, same_identity).unwrap() {
        JoinOutcome::AlreadyJoined { count } => assert_eq!(count, 1),
        _ => panic!("membership goes by identity"),
    }
}

#[test]
fn distinct_identities_all_join() {
    let mut store = RHashMap::new(String::from("giveaway:1"));
    let id = create_giveaway(
        &mut store,
        String::from("t"),
        String::from("p"),
        user(1),
    )
    .unwrap();
    for (expected, uid) in (1..=4).zip([5u64, 6, 7, 8]) {
        match write_participant(&mut store, id, user(uid)).unwrap() {
            JoinOutcome::Joined { count } => assert_eq!(count, expected),
            _ => panic!("expected a join"),
        }
    }
    let g = store.get(id).unwrap().unwrap();
    let ids: Vec<u64> = g.get_participants().iter().map(|u| u.id).collect();
    assert_eq!(ids, vec![5, 6, 7, 8]);
}
