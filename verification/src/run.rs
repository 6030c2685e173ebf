//! The course of the service: what it does next after each thing that happens.
use vstd::prelude::*;

use crate::command::{opt_icon, Command, CommandModel, UpdateModel};
use crate::inner::{opt_text, Inner, InnerModel};
use crate::service::{
    announcements, bus_name, bus_name_text, first_state, updated, ServiceStart, Signal, Step,
};

verus! {

/// Where the service stands.
#[derive(Debug, Clone, Copy, PartialEq, Eq, Structural)]
pub enum Stage {
    /// Connects to the session bus.
    Connecting,
    /// Asks for its bus name.
    Naming,
    /// Registers the tray with the watcher.
    Registering,
    /// Takes commands.
    Serving,
    /// Is done.
    Ended,
}

/// Something that happens to the service.
#[derive(Debug)]
pub enum Event {
    /// The connection was made, or failed.
    Connected(bool),
    /// The bus gave the name, or refused it.
    Named(bool),
    /// The watcher took the registration, or refused it.
    Registered(bool),
    /// A command came, or (`None`) no more commands will come.
    Received(Option<Command>),
}

/// What the service does next.
#[derive(Debug)]
pub enum Action {
    /// Connects to the session bus.
    Connect,
    /// Asks the bus for this name.
    RequestName(String),
    /// Registers this name with the watcher.
    Register(String),
    /// Waits for a command.
    Receive,
    /// Announces these, in order, and waits for a command.
    Announce(Vec<Signal>),
    /// Closes the connection and ends.
    Close,
    /// Ends.
    Stop,
}

/// The content of an [`Event`].
pub ghost enum EventContent {
    Connected(bool),
    Named(bool),
    Registered(bool),
    Received(Option<CommandModel>),
}

/// The content of an [`Action`].
pub ghost enum ActionContent {
    Connect,
    RequestName(Seq<char>),
    Register(Seq<char>),
    Receive,
    Announce(Seq<Signal>),
    Close,
    Stop,
}

impl View for Event {
    type V = EventContent;

    open spec fn view(&self) -> EventContent {
        match *self {
            Event::Connected(ok) => EventContent::Connected(ok),
            Event::Named(ok) => EventContent::Named(ok),
            Event::Registered(ok) => EventContent::Registered(ok),
            Event::Received(Some(command)) => EventContent::Received(Some(command@)),
            Event::Received(None) => EventContent::Received(None),
        }
    }
}

impl View for Action {
    type V = ActionContent;

    open spec fn view(&self) -> ActionContent {
        match *self {
            Action::Connect => ActionContent::Connect,
            Action::RequestName(name) => ActionContent::RequestName(name@),
            Action::Register(name) => ActionContent::Register(name@),
            Action::Receive => ActionContent::Receive,
            Action::Announce(signals) => ActionContent::Announce(signals@),
            Action::Close => ActionContent::Close,
            Action::Stop => ActionContent::Stop,
        }
    }
}

/// The update in an event, if the event is an update that comes while the service serves.
pub open spec fn taken(stage: Stage, event: EventContent) -> Option<UpdateModel> {
    match (stage, event) {
        (Stage::Serving, EventContent::Received(Some(CommandModel::Update(update)))) => Some(
            update,
        ),
        _ => None,
    }
}

/// Whether an event ends the commands of a service that serves.
pub open spec fn closing(stage: Stage, event: EventContent) -> bool {
    stage is Serving && (event == EventContent::Received(None) || event == EventContent::Received(
        Some(CommandModel::Shutdown),
    ))
}

/// The stage after an event. Without a connection the service ends. Without its name or its
/// registration it goes on: the watcher may still find it. It serves until its commands end. An
/// event that belongs to another stage changes nothing.
pub open spec fn next_stage(stage: Stage, event: EventContent) -> Stage {
    match (stage, event) {
        (Stage::Connecting, EventContent::Connected(true)) => Stage::Naming,
        (Stage::Connecting, EventContent::Connected(false)) => Stage::Ended,
        (Stage::Naming, EventContent::Named(_)) => Stage::Registering,
        (Stage::Registering, EventContent::Registered(_)) => Stage::Serving,
        _ => if closing(stage, event) {
            Stage::Ended
        } else {
            stage
        },
    }
}

/// What is to be done in a stage.
pub open spec fn work(stage: Stage, name: Seq<char>) -> ActionContent {
    match stage {
        Stage::Connecting => ActionContent::Connect,
        Stage::Naming => ActionContent::RequestName(name),
        Stage::Registering => ActionContent::Register(name),
        Stage::Serving => ActionContent::Receive,
        Stage::Ended => ActionContent::Stop,
    }
}

/// The state after an event: only an update that comes while the service serves changes it.
pub open spec fn next_state(state: InnerModel, stage: Stage, event: EventContent) -> InnerModel {
    match taken(stage, event) {
        Some(update) => updated(state, update),
        None => state,
    }
}

/// What is done after an event: an update is announced, the end of the commands closes the
/// connection, and otherwise the work of the next stage is done.
pub open spec fn next_action(
    state: InnerModel,
    stage: Stage,
    name: Seq<char>,
    event: EventContent,
) -> ActionContent {
    if taken(stage, event) is Some {
        ActionContent::Announce(announcements(next_state(state, stage, event).revision))
    } else if closing(stage, event) {
        ActionContent::Close
    } else {
        work(next_stage(stage, event), name)
    }
}

/// The service.
#[derive(Debug)]
pub struct Service {
    pub stage: Stage,
    pub name: String,
}

impl Service {
    /// A service that has done nothing yet, for the tray of this process, and the state that it
    /// shows.
    pub fn new(pid: u32, start: ServiceStart) -> (res: (Service, Inner))
        ensures
            res.0.stage == Stage::Connecting,
            res.0.name@ == bus_name_text(pid, start.id.0@),
            res.1@ == first_state(
                start.id.0@,
                opt_icon(start.icon),
                opt_text(start.tooltip),
                opt_text(start.title),
            ),
    {
        let name = bus_name(pid, &start.id);
        (Service { stage: Stage::Connecting, name }, Inner::start(start))
    }

    /// The work of the stage.
    pub fn action(&self) -> (res: Action)
        ensures
            res@ == work(self.stage, self.name@),
    {
        match self.stage {
            Stage::Connecting => Action::Connect,
            Stage::Naming => Action::RequestName(self.name.clone()),
            Stage::Registering => Action::Register(self.name.clone()),
            Stage::Serving => Action::Receive,
            Stage::Ended => Action::Stop,
        }
    }

    /// Learns what has happened, and tells what to do next. The revision must not be used up when
    /// a menu comes.
    pub fn step(&mut self, inner: &mut Inner, event: Event) -> (res: Action)
        requires
            taken(old(self).stage, event@) matches Some(update) ==> update.menu is Some ==> old(
                inner,
            ).revision < u32::MAX,
        ensures
            final(self).stage == next_stage(old(self).stage, event@),
            final(self).name == old(self).name,
            final(inner)@ == next_state(old(inner)@, old(self).stage, event@),
            res@ == next_action(old(inner)@, old(self).stage, old(self).name@, event@),
    {
        match event {
            Event::Connected(true) => {
                if self.stage == Stage::Connecting {
                    self.stage = Stage::Naming;
                }
                self.action()
            },
            Event::Connected(false) => {
                if self.stage == Stage::Connecting {
                    self.stage = Stage::Ended;
                }
                self.action()
            },
            Event::Named(_) => {
                if self.stage == Stage::Naming {
                    self.stage = Stage::Registering;
                }
                self.action()
            },
            Event::Registered(_) => {
                if self.stage == Stage::Registering {
                    self.stage = Stage::Serving;
                }
                self.action()
            },
            Event::Received(received) => {
                if self.stage == Stage::Serving {
                    match inner.handle(received) {
                        Step::Announce(signals) => Action::Announce(signals),
                        Step::Close => {
                            self.stage = Stage::Ended;
                            Action::Close
                        },
                    }
                } else {
                    self.action()
                }
            },
        }
    }
}

/// The service ends only when it cannot connect or when its commands end, and then for good.
pub proof fn only_these_end_the_service(stage: Stage, event: EventContent)
    ensures
        next_stage(stage, event) is Ended <==> {
            ||| stage is Ended
            ||| stage is Connecting && event == EventContent::Connected(false)
            ||| closing(stage, event)
        },
{
}

/// Once connected, the service asks for its name, registers the same name, and then takes
/// commands, whether or not it got the name and was registered.
pub proof fn connected_service_serves(
    state: InnerModel,
    name: Seq<char>,
    named: bool,
    registered: bool,
)
    ensures
        ({
            let connected = EventContent::Connected(true);
            let first = next_stage(Stage::Connecting, connected);
            let second = next_stage(first, EventContent::Named(named));
            let third = next_stage(second, EventContent::Registered(registered));
            &&& next_action(state, Stage::Connecting, name, connected)
                == ActionContent::RequestName(name)
            &&& next_action(state, first, name, EventContent::Named(named))
                == ActionContent::Register(name)
            &&& next_action(state, second, name, EventContent::Registered(registered))
                == ActionContent::Receive
            &&& third is Serving
        }),
{
}

/// What the bus shows changes only with an update, and every change of it is announced.
pub proof fn changes_are_announced(
    state: InnerModel,
    stage: Stage,
    name: Seq<char>,
    event: EventContent,
)
    requires
        next_state(state, stage, event) != state,
    ensures
        taken(stage, event) is Some,
        next_stage(stage, event) is Serving,
        next_action(state, stage, name, event) == ActionContent::Announce(
            announcements(next_state(state, stage, event).revision),
        ),
{
}

/// A service that has ended does nothing any more.
pub proof fn ended_service_stays_ended(state: InnerModel, name: Seq<char>, event: EventContent)
    ensures
        next_stage(Stage::Ended, event) is Ended,
        next_state(state, Stage::Ended, event) == state,
        next_action(state, Stage::Ended, name, event) is Stop,
{
}

/// While the service serves, every update is taken and announced, the end of the commands closes
/// the connection and ends the service, and nothing else does anything.
pub proof fn a_serving_service(state: InnerModel, name: Seq<char>, update: UpdateModel)
    ensures
        ({
            let update_comes = EventContent::Received(Some(CommandModel::Update(update)));
            let next = updated(state, update);
            &&& next_stage(Stage::Serving, update_comes) is Serving
            &&& next_state(state, Stage::Serving, update_comes) == next
            &&& next_action(state, Stage::Serving, name, update_comes) == ActionContent::Announce(
                seq![
                    Signal::NewIcon,
                    Signal::NewToolTip,
                    Signal::NewTitle,
                    Signal::LayoutUpdated { revision: next.revision, parent: 0 },
                ],
            )
        }),
        forall|end: EventContent|
            end == EventContent::Received(None) || end == EventContent::Received(
                Some(CommandModel::Shutdown),
            ) ==> {
                &&& #[trigger] next_stage(Stage::Serving, end) is Ended
                &&& next_state(state, Stage::Serving, end) == state
                &&& next_action(state, Stage::Serving, name, end) is Close
            },
        forall|event: EventContent|
            event !is Received ==> {
                &&& #[trigger] next_stage(Stage::Serving, event) is Serving
                &&& next_state(state, Stage::Serving, event) == state
                &&& next_action(state, Stage::Serving, name, event) is Receive
            },
{
}

/// Before it serves the service has one thing to do at a time: it connects, asks for its name and
/// registers it. It goes on only when it hears how that went, and what it shows does not change.
pub proof fn a_starting_service(state: InnerModel, name: Seq<char>, event: EventContent)
    ensures
        next_state(state, Stage::Connecting, event) == state,
        next_state(state, Stage::Naming, event) == state,
        next_state(state, Stage::Registering, event) == state,
        event !is Connected ==> next_stage(Stage::Connecting, event) is Connecting && next_action(
            state,
            Stage::Connecting,
            name,
            event,
        ) is Connect,
        event == EventContent::Connected(false) ==> next_stage(Stage::Connecting, event) is Ended
            && next_action(state, Stage::Connecting, name, event) is Stop,
        event == EventContent::Connected(true) ==> next_stage(Stage::Connecting, event) is Naming,
        event is Named ==> next_stage(Stage::Naming, event) is Registering,
        event !is Named ==> next_stage(Stage::Naming, event) is Naming && next_action(
            state,
            Stage::Naming,
            name,
            event,
        ) == ActionContent::RequestName(name),
        event is Registered ==> next_stage(Stage::Registering, event) is Serving,
        event !is Registered ==> next_stage(Stage::Registering, event) is Registering
            && next_action(state, Stage::Registering, name, event) == ActionContent::Register(name),
{
}

/// The content of an action and of an event is what it holds.
pub proof fn actions_and_events_are_seen_as_they_are(action: Action, event: Event)
    ensures
        action matches Action::Announce(signals) ==> action@ == ActionContent::Announce(signals@),
        action matches Action::RequestName(name) ==> action@ == ActionContent::RequestName(name@),
        action matches Action::Register(name) ==> action@ == ActionContent::Register(name@),
        action is Connect <==> action@ is Connect,
        action is Receive <==> action@ is Receive,
        action is Close <==> action@ is Close,
        action is Stop <==> action@ is Stop,
        event matches Event::Connected(ok) ==> event@ == EventContent::Connected(ok),
        event matches Event::Named(ok) ==> event@ == EventContent::Named(ok),
        event matches Event::Registered(ok) ==> event@ == EventContent::Registered(ok),
        event matches Event::Received(Some(command)) ==> event@ == EventContent::Received(
            Some(command@),
        ),
        event matches Event::Received(None) ==> event@ == EventContent::Received(None),
{
}

} // verus!
