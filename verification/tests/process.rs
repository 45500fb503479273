use event_sourcing::entities::user::{User, UserCommand, UserId};
use event_sourcing::errors::ChannelDropped;
use event_sourcing::process::{entrust, journal_position, Context, NonblockingReceptor};

fn alice() -> User {
    User::create_with_id(UserCommand::Create { name: "Alice".to_string() }, UserId::new(11)).unwrap()
}

#[test]
fn context_starts_at_given_seq() {
    assert_eq!(Context::new(0).seq(), 0);
    assert_eq!(Context::new(41).seq(), 41);
}

#[test]
fn delivered_reply_advances_seq() {
    let mut ctx = Context::new(0);
    assert_eq!(ctx.advance(true), Ok(()));
    assert_eq!(ctx.advance(true), Ok(()));
    assert_eq!(ctx.seq(), 2);
}

#[test]
fn dropped_reply_keeps_seq() {
    let mut ctx = Context::new(5);
    assert_eq!(ctx.advance(false), Err(ChannelDropped));
    assert_eq!(ctx.seq(), 5);
    assert_eq!(ctx.advance(true), Ok(()));
    assert_eq!(ctx.advance(false), Err(ChannelDropped));
    assert_eq!(ctx.advance(true), Ok(()));
    assert_eq!(ctx.seq(), 7);
}

#[test]
fn journal_position_is_entity_id_and_current_seq() {
    let user = alice();
    let ctx = Context::new(3);
    let (id, seq) = journal_position(&user, &ctx);
    assert_eq!(id.as_str(), "11");
    assert_eq!(seq, 3);
}

#[test]
fn entrust_applies_accepted_commands() {
    let mut user = alice();
    let r = entrust(&mut user, UserCommand::ChangeName { name: "Bob".to_string() });
    assert!(r.is_none());
    assert_eq!(user.name().as_str(), "Bob");
    assert_eq!(user.id().value(), 11);
}

#[test]
fn nonblocking_receptor_runs_its_command() {
    let mut user = alice();
    let receptor = NonblockingReceptor { command: UserCommand::ChangeName { name: "Carol".to_string() } };
    assert!(receptor.apply(&mut user).is_none());
    assert_eq!(user.name().as_str(), "Carol");
    let receptor = NonblockingReceptor { command: UserCommand::Create { name: "Dan".to_string() } };
    assert!(receptor.apply(&mut user).is_none());
    assert_eq!(user.name().as_str(), "Carol");
}
