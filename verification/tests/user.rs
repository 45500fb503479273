use event_sourcing::entities::user::{User, UserCommand, UserEvent, UserId, UserName};
use event_sourcing::errors::CommandRejected;
use event_sourcing::handler::{apply, handle, CommandHandler, EventApplicator};
use event_sourcing::markers::{Aggregate, Event};

fn name_of(user: &User) -> String {
    user.name().as_str().to_string()
}

#[test]
fn create_accepts_create_command() {
    let user = User::create(UserCommand::Create { name: "Test User 1".to_string() }).unwrap();
    assert_eq!(name_of(&user), "Test User 1");
}

#[test]
fn create_rejects_change_name_command() {
    let r = User::create(UserCommand::ChangeName { name: "Test User 2".to_string() });
    let rejection: CommandRejected = r.unwrap_err();
    assert_eq!(rejection.attachment.as_deref(), Some("Invalid command"));
}

#[test]
fn create_with_id_uses_the_given_id() {
    let user = User::create_with_id(
        UserCommand::Create { name: "Alice".to_string() },
        UserId::new(5),
    )
    .unwrap();
    assert_eq!(user.id().value(), 5);
    assert_eq!(name_of(&user), "Alice");
    let r = User::create_with_id(UserCommand::ChangeName { name: "Bob".to_string() }, UserId::new(5));
    assert_eq!(r.unwrap_err().attachment.as_deref(), Some("Invalid command"));
}

#[test]
fn handling_create_publishes_created_with_own_id_and_name() {
    let user = User::create_with_id(UserCommand::Create { name: "Alice".to_string() }, UserId::new(9)).unwrap();
    match user.handle(UserCommand::Create { name: "ignored".to_string() }).unwrap() {
        UserEvent::Created { id, name } => {
            assert_eq!(id.value(), 9);
            assert_eq!(name.as_str(), "Alice");
        }
        other => panic!("unexpected event {:?}", other),
    }
}

#[test]
fn handling_change_name_publishes_changed_name() {
    let user = User::create_with_id(UserCommand::Create { name: "Alice".to_string() }, UserId::new(9)).unwrap();
    match user.handle(UserCommand::ChangeName { name: "Bob".to_string() }).unwrap() {
        UserEvent::ChangedName { id, name } => {
            assert_eq!(id.value(), 9);
            assert_eq!(name.as_str(), "Bob");
        }
        other => panic!("unexpected event {:?}", other),
    }
    // handling does not change the user
    assert_eq!(name_of(&user), "Alice");
}

#[test]
fn applying_created_changes_nothing() {
    let mut user = User::create_with_id(UserCommand::Create { name: "Alice".to_string() }, UserId::new(3)).unwrap();
    user.apply(UserEvent::Created { id: UserId::new(3), name: UserName::new("Other".to_string()) });
    assert_eq!(user.id().value(), 3);
    assert_eq!(name_of(&user), "Alice");
}

#[test]
fn applying_changed_name_renames_and_keeps_id() {
    let mut user = User::create_with_id(UserCommand::Create { name: "Alice".to_string() }, UserId::new(3)).unwrap();
    user.apply(UserEvent::ChangedName { id: UserId::new(77), name: UserName::new("Bob".to_string()) });
    assert_eq!(user.id().value(), 3);
    assert_eq!(name_of(&user), "Bob");
}

#[test]
fn startup_flow() {
    let input = UserCommand::Create { name: "Test User 1".to_string() };
    let mut user = User::create(input.clone()).unwrap();
    let event = handle(&user, input).unwrap();
    apply(&mut user, event);
    assert_eq!(name_of(&user), "Test User 1");
    let event = handle(&user, UserCommand::ChangeName { name: "Test User 2".to_string() }).unwrap();
    apply(&mut user, event);
    assert_eq!(name_of(&user), "Test User 2");
}

#[test]
fn replaying_events_ends_with_last_rename() {
    let mut user = User::create_with_id(UserCommand::Create { name: "A".to_string() }, UserId::new(1)).unwrap();
    let events = vec![
        UserEvent::ChangedName { id: UserId::new(1), name: UserName::new("B".to_string()) },
        UserEvent::Created { id: UserId::new(1), name: UserName::new("Z".to_string()) },
        UserEvent::ChangedName { id: UserId::new(1), name: UserName::new("C".to_string()) },
        UserEvent::Created { id: UserId::new(1), name: UserName::new("Y".to_string()) },
    ];
    for e in events {
        user.apply(e);
    }
    assert_eq!(user.id().value(), 1);
    assert_eq!(name_of(&user), "C");
}

#[test]
fn aggregate_id_is_decimal_user_id() {
    let user = User::create_with_id(UserCommand::Create { name: "A".to_string() }, UserId::new(-42)).unwrap();
    assert_eq!(Aggregate::id(&user).as_str(), "-42");
}

#[test]
fn registry_key_of_user_events() {
    assert_eq!(<UserEvent as Event>::REGISTRY_KEY, "user-event");
}

#[test]
fn clones_are_equal_in_content() {
    let user = User::create_with_id(UserCommand::Create { name: "A".to_string() }, UserId::new(2)).unwrap();
    let copy = user.clone();
    assert_eq!(copy.id().value(), 2);
    assert_eq!(name_of(&copy), "A");
}

#[test]
fn replaying_in_two_runs_equals_one_run() {
    let events = || {
        vec![
            UserEvent::ChangedName { id: UserId::new(1), name: UserName::new("B".to_string()) },
            UserEvent::ChangedName { id: UserId::new(1), name: UserName::new("C".to_string()) },
            UserEvent::Created { id: UserId::new(1), name: UserName::new("D".to_string()) },
        ]
    };
    let start = || User::create_with_id(UserCommand::Create { name: "A".to_string() }, UserId::new(1)).unwrap();
    let mut whole = start();
    for e in events() {
        whole.apply(e);
    }
    let mut split = start();
    let mut all = events();
    let second = all.split_off(1);
    for e in all {
        split.apply(e);
    }
    for e in second {
        split.apply(e);
    }
    assert_eq!(name_of(&whole), name_of(&split));
    assert_eq!(whole.id().value(), split.id().value());
}

#[test]
fn created_user_id_is_a_representable_moment() {
    let user = User::create(UserCommand::Create { name: "A".to_string() }).unwrap();
    assert!(time::OffsetDateTime::from_unix_timestamp_nanos(user.id().value()).is_ok());
    let id = UserId::generate();
    assert!(time::OffsetDateTime::from_unix_timestamp_nanos(id.value()).is_ok());
}
