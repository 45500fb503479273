//! The user aggregate: created by a `Create` command, renamed by `ChangeName`.

use crate::clock::{self, utc_timestamp_text};
use crate::errors::{invalid_command_text, CommandRejected};
use crate::handler::{CommandHandler, EventApplicator};
use crate::identifier::{decimal_string, decimal_text, EntityId};
use crate::markers::{Aggregate, Command, Event};
use vstd::prelude::*;

verus! {

/// The identifier of a user.
#[derive(Debug, Clone, Copy, PartialEq, Eq, Structural, Hash)]
pub struct UserId {
    value: i128,
}

impl View for UserId {
    type V = int;

    closed spec fn view(&self) -> int {
        self.value as int
    }
}

impl UserId {
    /// The identifier with the given number.
    pub fn new(value: i128) -> (id: UserId)
        ensures
            id@ == value as int,
    {
        UserId { value }
    }

    /// A fresh identifier, taken from the wall clock at the moment of the
    /// call: the number of nanoseconds since the Unix epoch of a moment that
    /// `time` can represent.
    pub fn generate() -> (id: UserId)
        ensures
            utc_timestamp_text(id@ as i128) is Some,
    {
        UserId { value: clock::now_unix_nanos() }
    }

    /// The number of this identifier.
    pub fn value(&self) -> (v: i128)
        ensures
            v as int == self@,
    {
        self.value
    }

    /// The identifier in its textual form: the number in decimal.
    pub fn to_entity_id(&self) -> (id: EntityId)
        ensures
            id@ == decimal_text(self@),
    {
        EntityId::new(decimal_string(self.value))
    }
}

/// The name of a user.
#[derive(Debug)]
pub struct UserName {
    value: String,
}

impl View for UserName {
    type V = Seq<char>;

    closed spec fn view(&self) -> Seq<char> {
        self.value@
    }
}

impl Clone for UserName {
    fn clone(&self) -> (c: Self)
        ensures
            c == *self,
    {
        UserName { value: self.value.clone() }
    }
}

impl UserName {
    /// The name with the given text.
    pub fn new(value: String) -> (name: UserName)
        ensures
            name@ == value@,
    {
        UserName { value }
    }

    /// The text of the name.
    pub fn as_str(&self) -> (s: &str)
        ensures
            s@ == self@,
    {
        self.value.as_str()
    }
}

/// What a user is, mathematically: an identifier and a name.
pub struct UserView {
    pub id: int,
    pub name: Seq<char>,
}

/// What a user event is, mathematically.
pub enum UserEventView {
    Created { id: int, name: Seq<char> },
    ChangedName { id: int, name: Seq<char> },
}

impl UserEventView {
    /// The user the event belongs to.
    pub open spec fn id(self) -> int {
        match self {
            UserEventView::Created { id, .. } => id,
            UserEventView::ChangedName { id, .. } => id,
        }
    }
}

impl UserView {
    /// The event that handling `command` publishes for this user.
    pub open spec fn event_for(self, command: UserCommand) -> UserEventView {
        match command {
            UserCommand::Create { .. } => UserEventView::Created { id: self.id, name: self.name },
            UserCommand::ChangeName { name } => UserEventView::ChangedName {
                id: self.id,
                name: name@,
            },
        }
    }

    /// This user after `event` has been applied.
    pub open spec fn after(self, event: UserEventView) -> UserView {
        match event {
            UserEventView::Created { .. } => self,
            UserEventView::ChangedName { name, .. } => UserView { id: self.id, name },
        }
    }
}

/// A user.
#[derive(Debug)]
pub struct User {
    id: UserId,
    name: UserName,
}

impl View for User {
    type V = UserView;

    closed spec fn view(&self) -> UserView {
        UserView { id: self.id@, name: self.name@ }
    }
}

impl Clone for User {
    fn clone(&self) -> (c: Self)
        ensures
            c == *self,
    {
        User { id: self.id, name: self.name.clone() }
    }
}

/// The requests a user accepts.
#[derive(Debug)]
pub enum UserCommand {
    Create { name: String },
    ChangeName { name: String },
}

impl Clone for UserCommand {
    fn clone(&self) -> (c: Self)
        ensures
            c == *self,
    {
        match self {
            UserCommand::Create { name } => UserCommand::Create { name: name.clone() },
            UserCommand::ChangeName { name } => UserCommand::ChangeName { name: name.clone() },
        }
    }
}

impl Command for UserCommand {

}

/// The facts that happen to a user.
#[derive(Debug)]
pub enum UserEvent {
    Created { id: UserId, name: UserName },
    ChangedName { id: UserId, name: UserName },
}

impl View for UserEvent {
    type V = UserEventView;

    open spec fn view(&self) -> UserEventView {
        match self {
            UserEvent::Created { id, name } => UserEventView::Created { id: id@, name: name@ },
            UserEvent::ChangedName { id, name } => UserEventView::ChangedName {
                id: id@,
                name: name@,
            },
        }
    }
}

impl Clone for UserEvent {
    fn clone(&self) -> (c: Self)
        ensures
            c == *self,
    {
        match self {
            UserEvent::Created { id, name } => UserEvent::Created { id: *id, name: name.clone() },
            UserEvent::ChangedName { id, name } => UserEvent::ChangedName {
                id: *id,
                name: name.clone(),
            },
        }
    }
}

impl Event for UserEvent {
    const REGISTRY_KEY: &'static str = "user-event";
}

impl User {
    /// The identifier of this user.
    pub fn id(&self) -> (id: &UserId)
        ensures
            id@ == self@.id,
    {
        &self.id
    }

    /// The name of this user.
    pub fn name(&self) -> (name: &UserName)
        ensures
            name@ == self@.name,
    {
        &self.name
    }

    /// Creates a user with the given identifier from a `Create` command;
    /// any other command is rejected.
    pub fn create_with_id(command: UserCommand, id: UserId) -> (r: Result<User, CommandRejected>)
        ensures
            match command {
                UserCommand::Create { name } => r is Ok && r->Ok_0@ == (UserView {
                    id: id@,
                    name: name@,
                }),
                UserCommand::ChangeName { .. } => r is Err && r->Err_0.attachment is Some
                    && r->Err_0.attachment->0@ == invalid_command_text(),
            },
    {
        match command {
            UserCommand::Create { name } => Ok(User { id, name: UserName::new(name) }),
            UserCommand::ChangeName { .. } => Err(CommandRejected::invalid_command()),
        }
    }

    /// Creates a user with a fresh identifier from a `Create` command;
    /// any other command is rejected.
    pub fn create(command: UserCommand) -> (r: Result<User, CommandRejected>)
        ensures
            match command {
                UserCommand::Create { name } => r is Ok && r->Ok_0@.name == name@
                    && utc_timestamp_text(r->Ok_0@.id as i128) is Some,
                UserCommand::ChangeName { .. } => r is Err && r->Err_0.attachment is Some
                    && r->Err_0.attachment->0@ == invalid_command_text(),
            },
    {
        match command {
            UserCommand::Create { .. } => {
                let id = UserId::generate();
                User::create_with_id(command, id)
            },
            UserCommand::ChangeName { .. } => Err(CommandRejected::invalid_command()),
        }
    }
}

impl Aggregate for User {
    open spec fn entity_id(&self) -> Seq<char> {
        decimal_text(self@.id)
    }

    fn id(&self) -> (id: EntityId) {
        self.id.to_entity_id()
    }
}

impl CommandHandler<UserCommand> for User {
    type Event = UserEvent;

    type Rejection = CommandRejected;

    closed spec fn outcome(&self, command: UserCommand) -> Result<UserEvent, CommandRejected> {
        match command {
            UserCommand::Create { .. } => Ok(UserEvent::Created { id: self.id, name: self.name }),
            UserCommand::ChangeName { name } => Ok(
                UserEvent::ChangedName { id: self.id, name: UserName { value: name } },
            ),
        }
    }

    /// Decides, from the current state, which event `command` publishes.
    /// No command is rejected.
    fn handle(&self, command: UserCommand) -> (r: Result<UserEvent, CommandRejected>)
        ensures
            r is Ok,
            r->Ok_0@ == self@.event_for(command),
    {
        match command {
            UserCommand::Create { .. } => Ok(
                UserEvent::Created { id: self.id, name: self.name.clone() },
            ),
            UserCommand::ChangeName { name } => Ok(
                UserEvent::ChangedName { id: self.id, name: UserName { value: name } },
            ),
        }
    }
}

impl EventApplicator<UserEvent> for User {
    closed spec fn applied(&self, event: UserEvent) -> User {
        match event {
            UserEvent::Created { .. } => *self,
            UserEvent::ChangedName { name, .. } => User { id: self.id, name },
        }
    }

    /// Moves the state forward: a rename replaces the name, a creation changes nothing.
    fn apply(&mut self, event: UserEvent)
        ensures
            final(self)@ == old(self)@.after(event@),
    {
        match event {
            UserEvent::Created { .. } => {},
            UserEvent::ChangedName { name, .. } => {
                self.name = name;
            },
        }
    }
}

/// What the trait-level outcome of handling a command is, in terms of views.
pub broadcast proof fn lemma_user_outcome(user: User, command: UserCommand)
    ensures
        #[trigger] user.outcome(command) is Ok,
        user.outcome(command)->Ok_0@ == user@.event_for(command),
{
}

/// What the trait-level state after applying an event is, in terms of views.
pub broadcast proof fn lemma_user_applied(user: User, event: UserEvent)
    ensures
        (#[trigger] user.applied(event))@ == user@.after(event@),
{
}

/// The state reached by applying a run of events, one after another.
pub open spec fn replay(user: UserView, events: Seq<UserEventView>) -> UserView
    decreases events.len(),
{
    if events.len() == 0 {
        user
    } else {
        replay(user, events.drop_last()).after(events.last())
    }
}

/// The name that a run of events leaves: that of its last rename, or the
/// starting name when it holds none.
pub open spec fn last_name(name: Seq<char>, events: Seq<UserEventView>) -> Seq<char>
    decreases events.len(),
{
    if events.len() == 0 {
        name
    } else {
        match events.last() {
            UserEventView::ChangedName { name: renamed, .. } => renamed,
            UserEventView::Created { .. } => last_name(name, events.drop_last()),
        }
    }
}

/// Every event that a user publishes carries that user's identifier.
pub proof fn lemma_events_carry_id(user: UserView, command: UserCommand)
    ensures
        user.event_for(command).id() == user.id,
{
}

/// Applying any event leaves the identifier of the user as it was.
pub proof fn lemma_apply_keeps_id(user: UserView, event: UserEventView)
    ensures
        user.after(event).id == user.id,
{
}

/// Handling a command and applying the event it publishes: a rename gives
/// the user the new name, a creation leaves the user as it was.
pub proof fn lemma_handle_then_apply(user: UserView, command: UserCommand)
    ensures
        user.after(user.event_for(command)) == (match command {
            UserCommand::Create { .. } => user,
            UserCommand::ChangeName { name } => UserView { id: user.id, name: name@ },
        }),
{
}

/// A user created from `Create { name }` publishes, for that same command,
/// the event `Created` with its own identifier and that name, and applying
/// it changes nothing.
pub proof fn lemma_create_then_handle(name: String, id: UserId)
    ensures
        ({
            let user = UserView { id: id@, name: name@ };
            let command = UserCommand::Create { name };
            &&& user.event_for(command) == UserEventView::Created { id: id@, name: name@ }
            &&& user.after(user.event_for(command)) == user
        }),
{
}

/// Replaying a run of events keeps the identifier and ends with the name of
/// the last rename in the run.
pub proof fn lemma_replay(user: UserView, events: Seq<UserEventView>)
    ensures
        replay(user, events) == (UserView { id: user.id, name: last_name(user.name, events) }),
    decreases events.len(),
{
    if events.len() > 0 {
        lemma_replay(user, events.drop_last());
    }
}

/// Replaying two runs one after the other is replaying them joined.
pub proof fn lemma_replay_concat(user: UserView, first: Seq<UserEventView>, second: Seq<UserEventView>)
    ensures
        replay(replay(user, first), second) == replay(user, first + second),
    decreases second.len(),
{
    if second.len() == 0 {
        assert(first + second =~= first);
    } else {
        lemma_replay_concat(user, first, second.drop_last());
        assert((first + second).drop_last() =~= first + second.drop_last());
    }
}

} // verus!
