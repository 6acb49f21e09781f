use giveaway_core::ids::uuid_to_string;
use giveaway_core::models::{Giveaway, MessageRef, User};
use giveaway_core::render::{
    format_user_mention, get_giveaway_content, join_button_label, participant_lines,
};
use giveaway_core::store::RHashMap;

const SAMPLE_ID: u128 = 0xa1a2a3a4b1b2c1c2d1d2d3d4d5d6d7d8;

fn owner() -> User {
    User { id: 9, username: Some(String::from("boss")), first_name: String::from("Boss") }
}

#[test]
fn store_get_all_returns_every_pair_once() {
    let mut store = RHashMap::new(String::from("giveaway:9"));
    store
        .insert(1, Giveaway::new(String::from("a"), String::from("pa"), owner()), None)
        .unwrap();
    store
        .insert(2, Giveaway::new(String::from("b"), String::from("pb"), owner()), Some(60_000))
        .unwrap();
    let mut all = store.get_all().unwrap();
    all.sort_by_key(|p| p.0);
    assert_eq!(all.len(), 2);
    assert_eq!(all[0].0, 1);
    assert_eq!(all[0].1.get_text(), "a");
    assert_eq!(all[1].0, 2);
    assert_eq!(all[1].1.get_text(), "b");
}

#[test]
fn store_insert_overwrites_in_place() {
    let mut store = RHashMap::new(String::from("giveaway:9"));
    store
        .insert(1, Giveaway::new(String::from("old"), String::from("p"), owner()), None)
        .unwrap();
    store
        .insert(1, Giveaway::new(String::from("new"), String::from("p"), owner()), None)
        .unwrap();
    assert_eq!(store.get_all().unwrap().len(), 1);
    assert_eq!(store.get(1).unwrap().unwrap().get_text(), "new");
}

#[test]
fn store_remove_missing_field_is_noop() {
    let mut store = RHashMap::new(String::from("giveaway:9"));
    assert!(store.remove(123).is_ok());
    store
        .insert(1, Giveaway::new(String::from("a"), String::from("p"), owner()), None)
        .unwrap();
    assert!(store.remove(123).is_ok());
    assert_eq!(store.get_all().unwrap().len(), 1);
}

#[test]
fn store_keeps_its_key() {
    let store = RHashMap::new(String::from("giveaway:9"));
    assert_eq!(store.get_key(), "giveaway:9");
}

#[test]
fn mention_uses_username_when_present() {
    assert_eq!(format_user_mention(&owner()), "@boss");
}

#[test]
fn mention_links_id_when_username_missing() {
    let u = User { id: 42, username: None, first_name: String::from("Ann") };
    assert_eq!(format_user_mention(&u), "<a href=\"tg://user?id=42\">Ann</a>");
}

#[test]
fn join_label_shows_count() {
    assert_eq!(join_button_label(0), "Take part (0)");
    assert_eq!(join_button_label(17), "Take part (17)");
}

#[test]
fn content_for_unpublished_record() {
    let g = Giveaway::new(String::from("Win"), String::from("p"), owner());
    let content = get_giveaway_content(SAMPLE_ID, &g);
    assert_eq!(
        content,
        format!(
            "ID: {}\nOwner: @boss\nText: Win\nParticipants: 0",
            uuid_to_string(SAMPLE_ID)
        )
    );
}

#[test]
fn content_for_published_record() {
    let mut g = Giveaway::new(String::from("Win"), String::from("p"), owner());
    g.add_group_id(String::from("@promo"));
    g.set_message(MessageRef { message_id: 3 });
    g.add_participant(User { id: 5, username: None, first_name: String::from("A") });
    let content = get_giveaway_content(SAMPLE_ID, &g);
    assert_eq!(
        content,
        format!(
            "ID: {}\nOwner: @boss\nText: Win\nParticipants: 1\nGroup: @promo",
            uuid_to_string(SAMPLE_ID)
        )
    );
}

#[test]
fn participant_lines_are_numbered_from_one() {
    let mut g = Giveaway::new(String::from("Win"), String::from("p"), owner());
    g.add_participant(User { id: 5, username: Some(String::from("ann")), first_name: String::from("Ann") });
    g.add_participant(User { id: 6, username: None, first_name: String::from("Ben") });
    assert_eq!(participant_lines(&g), vec![String::from("1. ann"), String::from("2. Ben")]);
}

#[test]
fn record_membership_goes_by_identity() {
    let mut g = Giveaway::new(String::from("Win"), String::from("p"), owner());
    let ann = User { id: 5, username: Some(String::from("ann")), first_name: String::from("Ann") };
    assert!(!g.check_user(&ann));
    g.add_participant(ann);
    let same_id = User { id: 5, username: None, first_name: String::from("other") };
    assert!(g.check_user(&same_id));
    let other = User { id: 6, username: None, first_name: String::from("Ben") };
    assert!(!g.check_user(&other));
}

#[test]
fn record_getters_reflect_fields() {
    let g = Giveaway::new(String::from("Win"), String::from("p"), owner());
    assert_eq!(g.get_owner().id, 9);
    assert_eq!(g.get_text(), "Win");
    assert_eq!(g.get_photo(), "p");
    assert!(g.get_message().is_none());
    let copy = g.duplicate();
    assert_eq!(copy.get_text(), "Win");
    assert_eq!(copy.get_participants().len(), 0);
}

#[test]
fn record_invariant_check_is_exact() {
    let good = Giveaway::new(String::from("Win"), String::from("p"), owner());
    assert!(good.is_well_formed());

    let mut joined = Giveaway::new(String::from("Win"), String::from("p"), owner());
    joined.add_participant(User { id: 5, username: None, first_name: String::from("A") });
    joined.add_participant(User { id: 6, username: None, first_name: String::from("B") });
    assert!(joined.is_well_formed());

    let duplicated = Giveaway {
        text: String::from("Win"),
        group_id: String::new(),
        message: None,
        photo: String::from("p"),
        owner: owner(),
        participants: vec![
            User { id: 5, username: None, first_name: String::from("A") },
            User { id: 5, username: Some(String::from("renamed")), first_name: String::from("B") },
        ],
    };
    assert!(!duplicated.is_well_formed());

    let half_published = Giveaway {
        text: String::from("Win"),
        group_id: String::from("@promo"),
        message: None,
        photo: String::from("p"),
        owner: owner(),
        participants: vec![],
    };
    assert!(!half_published.is_well_formed());
}
