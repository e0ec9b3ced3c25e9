use crate::errors::ApplicationError;
use vstd::prelude::*;

verus! {

/// The clients that have registered, in the order in which they did. A
/// client is known by its place in that order. Its entry stays for good and
/// says whether the client is still served.
pub struct ClientState {
    clients: Vec<bool>,
}

/// The places of the entries that are still served, in rising order.
pub open spec fn served(clients: Seq<bool>) -> Seq<usize>
    decreases clients.len(),
{
    if clients.len() == 0 {
        Seq::empty()
    } else if clients.last() {
        served(clients.drop_last()).push((clients.len() - 1) as usize)
    } else {
        served(clients.drop_last())
    }
}

impl View for ClientState {
    type V = Seq<bool>;

    closed spec fn view(&self) -> Seq<bool> {
        self.clients@
    }
}

impl ClientState {
    /// A registry without clients.
    pub fn new() -> (state: ClientState)
        ensures
            state@ == Seq::<bool>::empty(),
    {
        ClientState { clients: Vec::new() }
    }

    /// Registers one more client and gives its place. The entries of the
    /// clients before it stay as they are.
    pub fn add_client(&mut self) -> (client: usize)
        ensures
            final(self)@ == old(self)@.push(true),
            client == old(self)@.len(),
    {
        let client: usize = self.clients.len();
        self.clients.push(true);
        client
    }

    /// Ends the service of a client. Nothing changes for a place that no
    /// client has.
    pub fn release(&mut self, client: usize)
        ensures
            final(self)@ == if client < old(self)@.len() {
                old(self)@.update(client as int, false)
            } else {
                old(self)@
            },
    {
        if client < self.clients.len() {
            self.clients[client] = false;
        }
    }

    /// How many clients have registered so far.
    pub fn len(&self) -> (count: usize)
        ensures
            count == self@.len(),
    {
        self.clients.len()
    }

    /// Whether `client` has registered and is still served.
    pub fn is_served(&self, client: usize) -> (yes: bool)
        ensures
            yes == (client < self@.len() && self@[client as int]),
    {
        client < self.clients.len() && self.clients[client]
    }

    /// The clients that are still served, in the order in which they
    /// registered.
    pub fn recipients(&self) -> (clients: Vec<usize>)
        ensures
            clients@ == served(self@),
    {
        let mut clients: Vec<usize> = Vec::new();
        let mut i: usize = 0;
        while i < self.clients.len()
            invariant
                i <= self.clients.len(),
                clients@ == served(self.clients@.take(i as int)),
            decreases self.clients.len() - i,
        {
            assert(self.clients@.take(i + 1).drop_last() == self.clients@.take(i as int));
            if self.clients[i] {
                clients.push(i);
            }
            i += 1;
        }
        assert(self.clients@.take(i as int) == self.clients@);
        clients
    }
}

/// What reaches the hub.
#[derive(Debug, Clone, PartialEq, Eq)]
pub enum HubEvent {
    /// The console session handed over a line of the console.
    Console(String),
    /// A client session submitted a line for the console.
    Client(String),
    /// The console session is gone: nothing more will come from it.
    ConsoleClosed,
    /// Nothing more will come from any client session.
    ClientsClosed,
    /// A line could not be handed to the console session.
    ConsoleSendFailed(String),
}

/// What the hub asks for in answer to an event.
#[derive(Debug, Clone, PartialEq, Eq)]
pub enum HubAction {
    /// Hand a copy of the line to each of the clients, each in a delivery of
    /// its own.
    Broadcast { message: String, recipients: Vec<usize> },
    /// Hand the line to the console session.
    Forward(String),
    /// The hub has ended, with an error unless a side has just closed.
    Stop(Option<ApplicationError>),
    /// Nothing: the hub ended before.
    Idle,
}

/// A `HubAction` with its texts and recipients as sequences.
pub enum HubActionView {
    Broadcast { message: Seq<char>, recipients: Seq<usize> },
    Forward(Seq<char>),
    Stop(Option<ApplicationError>),
    Idle,
}

impl View for HubAction {
    type V = HubActionView;

    open spec fn view(&self) -> HubActionView {
        match *self {
            HubAction::Broadcast { message, recipients } => HubActionView::Broadcast {
                message: message@,
                recipients: recipients@,
            },
            HubAction::Forward(message) => HubActionView::Forward(message@),
            HubAction::Stop(error) => HubActionView::Stop(error),
            HubAction::Idle => HubActionView::Idle,
        }
    }
}

/// The hub between the console session and the client sessions: it hands
/// every line of the console to all clients, and every line of a client to
/// the console.
pub struct Hub {
    /// The clients that the hub hands the console's lines to.
    pub client_state: ClientState,
    /// Whether the hub still runs: it does until a side closes or fails.
    pub running: bool,
}

/// What a hub is made of: the entries of its clients, and whether it still
/// runs.
pub struct HubView {
    pub clients: Seq<bool>,
    pub running: bool,
}

impl View for Hub {
    type V = HubView;

    open spec fn view(&self) -> HubView {
        HubView { clients: self.client_state@, running: self.running }
    }
}

/// What one event does to a hub, and what the hub asks for.
pub open spec fn hub_step(hub: HubView, event: HubEvent) -> (HubView, HubActionView) {
    if !hub.running {
        (hub, HubActionView::Idle)
    } else {
        match event {
            HubEvent::Console(message) => (
                hub,
                HubActionView::Broadcast { message: message@, recipients: served(hub.clients) },
            ),
            HubEvent::Client(message) => (hub, HubActionView::Forward(message@)),
            HubEvent::ConsoleClosed => (
                HubView { running: false, ..hub },
                HubActionView::Stop(None),
            ),
            HubEvent::ClientsClosed => (
                HubView { running: false, ..hub },
                HubActionView::Stop(None),
            ),
            HubEvent::ConsoleSendFailed(detail) => (
                HubView { running: false, ..hub },
                HubActionView::Stop(Some(ApplicationError::SendError(detail))),
            ),
        }
    }
}

impl Hub {
    /// A running hub without clients.
    pub fn new() -> (hub: Hub)
        ensures
            hub@ == (HubView { clients: Seq::empty(), running: true }),
    {
        Hub { client_state: ClientState::new(), running: true }
    }

    /// Takes one event and says what is to be done.
    pub fn process(&mut self, event: HubEvent) -> (action: HubAction)
        ensures
            (final(self)@, action@) == hub_step(old(self)@, event),
    {
        if !self.running {
            return HubAction::Idle;
        }
        match event {
            HubEvent::Console(message) => {
                let recipients = self.client_state.recipients();
                HubAction::Broadcast { message, recipients }
            },
            HubEvent::Client(message) => HubAction::Forward(message),
            HubEvent::ConsoleClosed => {
                self.running = false;
                HubAction::Stop(None)
            },
            HubEvent::ClientsClosed => {
                self.running = false;
                HubAction::Stop(None)
            },
            HubEvent::ConsoleSendFailed(detail) => {
                self.running = false;
                HubAction::Stop(Some(ApplicationError::SendError(detail)))
            },
        }
    }
}

/// What a hub asks for, event by event.
pub open spec fn hub_run(hub: HubView, events: Seq<HubEvent>) -> Seq<HubActionView>
    decreases events.len(),
{
    if events.len() == 0 {
        Seq::empty()
    } else {
        seq![hub_step(hub, events[0]).1] + hub_run(hub_step(hub, events[0]).0, events.drop_first())
    }
}

/// The lines that the actions hand to `client`, in order.
pub open spec fn deliveries(actions: Seq<HubActionView>, client: usize) -> Seq<Seq<char>>
    decreases actions.len(),
{
    if actions.len() == 0 {
        Seq::empty()
    } else {
        let rest = deliveries(actions.drop_first(), client);
        match actions[0] {
            HubActionView::Broadcast { message, recipients } => if recipients.contains(client) {
                seq![message] + rest
            } else {
                rest
            },
            _ => rest,
        }
    }
}

/// The lines that the actions hand to the console session, in order.
pub open spec fn forwards(actions: Seq<HubActionView>) -> Seq<Seq<char>>
    decreases actions.len(),
{
    if actions.len() == 0 {
        Seq::empty()
    } else {
        let rest = forwards(actions.drop_first());
        match actions[0] {
            HubActionView::Forward(message) => seq![message] + rest,
            _ => rest,
        }
    }
}

/// The lines of the console among the events, in order.
pub open spec fn console_lines(events: Seq<HubEvent>) -> Seq<Seq<char>>
    decreases events.len(),
{
    if events.len() == 0 {
        Seq::empty()
    } else {
        let rest = console_lines(events.drop_first());
        match events[0] {
            HubEvent::Console(message) => seq![message@] + rest,
            _ => rest,
        }
    }
}

/// The lines of clients among the events, in order.
pub open spec fn client_lines(events: Seq<HubEvent>) -> Seq<Seq<char>>
    decreases events.len(),
{
    if events.len() == 0 {
        Seq::empty()
    } else {
        let rest = client_lines(events.drop_first());
        match events[0] {
            HubEvent::Client(message) => seq![message@] + rest,
            _ => rest,
        }
    }
}

/// Whether every event is a line, of the console or of a client.
pub open spec fn only_lines(events: Seq<HubEvent>) -> bool {
    forall|i: int|
        0 <= i < events.len() ==> (#[trigger] events[i] is Console || events[i] is Client)
}

/// What a hub is after the events.
pub open spec fn hub_after(hub: HubView, events: Seq<HubEvent>) -> HubView
    decreases events.len(),
{
    if events.len() == 0 {
        hub
    } else {
        hub_after(hub_step(hub, events[0]).0, events.drop_first())
    }
}

/// No event adds or removes a client, and a hub that has stopped stays
/// stopped: the clients change by registering and releasing alone.
pub proof fn lemma_events_keep_clients(hub: HubView, events: Seq<HubEvent>)
    ensures
        hub_after(hub, events).clients == hub.clients,
        !hub.running ==> !hub_after(hub, events).running,
        only_lines(events) ==> hub_after(hub, events).running == hub.running,
    decreases events.len(),
{
    if events.len() > 0 {
        let rest = events.drop_first();
        lemma_events_keep_clients(hub_step(hub, events[0]).0, rest);
        if only_lines(events) {
            assert(events[0] is Console || events[0] is Client);
            assert forall|i: int| 0 <= i < rest.len() implies (#[trigger] rest[i] is Console
                || rest[i] is Client) by {
                assert(rest[i] == events[i + 1]);
            }
        }
    }
}

/// A place is among the served ones exactly when its entry says so.
pub proof fn lemma_served_contains(clients: Seq<bool>, client: usize)
    requires
        clients.len() <= usize::MAX,
    ensures
        served(clients).contains(client) <==> (client < clients.len() && clients[client as int]),
    decreases clients.len(),
{
    if clients.len() > 0 {
        lemma_served_contains(clients.drop_last(), client);
        let rest = served(clients.drop_last());
        let last = (clients.len() - 1) as usize;
        if clients.last() {
            assert(forall|i: int| 0 <= i < rest.len() ==> rest.push(last)[i] == rest[i]);
            if rest.contains(client) {
                let i = choose|i: int| 0 <= i < rest.len() && rest[i] == client;
                assert(rest.push(last)[i] == client);
            }
            if client == last {
                assert(rest.push(last)[rest.len() as int] == client);
            }
        }
    }
}

/// Fan-out: while a hub runs, each client that is served is handed every
/// line of the console, in the order in which the console sent them, however
/// many clients there are and whatever clients submit in between.
pub proof fn lemma_broadcast_fan_out(hub: HubView, events: Seq<HubEvent>, client: usize)
    requires
        hub.running,
        only_lines(events),
        hub.clients.len() <= usize::MAX,
        client < hub.clients.len(),
        hub.clients[client as int],
    ensures
        deliveries(hub_run(hub, events), client) == console_lines(events),
    decreases events.len(),
{
    if events.len() > 0 {
        let rest = events.drop_first();
        assert(events[0] is Console || events[0] is Client);
        assert(only_lines(rest)) by {
            assert forall|i: int| 0 <= i < rest.len() implies (#[trigger] rest[i] is Console
                || rest[i] is Client) by {
                assert(rest[i] == events[i + 1]);
            }
        }
        lemma_served_contains(hub.clients, client);
        lemma_broadcast_fan_out(hub, rest, client);
        let actions = hub_run(hub, events);
        assert(actions.drop_first() == hub_run(hub, rest));
    }
}

/// No loss: while a hub runs, the console session is handed every line
/// that a client submits, once each, in the order in which they reach the
/// hub.
pub proof fn lemma_multiplex_no_loss(hub: HubView, events: Seq<HubEvent>)
    requires
        hub.running,
        only_lines(events),
    ensures
        forwards(hub_run(hub, events)) == client_lines(events),
    decreases events.len(),
{
    if events.len() > 0 {
        let rest = events.drop_first();
        assert(events[0] is Console || events[0] is Client);
        assert(only_lines(rest)) by {
            assert forall|i: int| 0 <= i < rest.len() implies (#[trigger] rest[i] is Console
                || rest[i] is Client) by {
                assert(rest[i] == events[i + 1]);
            }
        }
        lemma_multiplex_no_loss(hub, rest);
        let actions = hub_run(hub, events);
        assert(actions.drop_first() == hub_run(hub, rest));
    }
}

/// A place that no client has, or whose client is served no more, is handed
/// nothing.
pub proof fn lemma_unserved_gets_nothing(hub: HubView, events: Seq<HubEvent>, client: usize)
    requires
        hub.clients.len() <= usize::MAX,
        !(client < hub.clients.len() && hub.clients[client as int]),
    ensures
        deliveries(hub_run(hub, events), client) == Seq::<Seq<char>>::empty(),
    decreases events.len(),
{
    if events.len() > 0 {
        lemma_served_contains(hub.clients, client);
        lemma_unserved_gets_nothing(hub_step(hub, events[0]).0, events.drop_first(), client);
        let actions = hub_run(hub, events);
        assert(actions.drop_first() == hub_run(hub_step(hub, events[0]).0, events.drop_first()));
    }
}

/// Nothing leaves a hub that has stopped.
pub proof fn lemma_stopped_hub_is_silent(hub: HubView, events: Seq<HubEvent>, client: usize)
    requires
        !hub.running,
    ensures
        deliveries(hub_run(hub, events), client) == Seq::<Seq<char>>::empty(),
        forwards(hub_run(hub, events)) == Seq::<Seq<char>>::empty(),
    decreases events.len(),
{
    if events.len() > 0 {
        lemma_stopped_hub_is_silent(hub, events.drop_first(), client);
        let actions = hub_run(hub, events);
        assert(actions.drop_first() == hub_run(hub, events.drop_first()));
    }
}

} // verus!
