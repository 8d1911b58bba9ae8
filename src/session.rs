use vstd::prelude::*;

use crate::connect::{
    classify_connect, device_address, not_text_message, reachable, route_address,
    says_already_connected, should_launch, test_network, unexpected_message, BrokerError,
    ConnectOutcome, InterfaceAddr, NetworkEndpoint, POLL_ATTEMPTS, POLL_INTERVAL_MS,
};
use crate::model::{ZBBError, ZBBErrorView};
use crate::net::Ipv4Addr;
use crate::text::{decimal, port_matches, push_decimal, string_of, trim, utf8_chars, utf8_text};

verus! {

/// Where a switch of one device to network debugging stands.
#[derive(Clone, Copy, Debug, PartialEq, Eq, Structural)]
pub enum Phase {
    /// Waiting for the bridge server to answer; `launched` once it was started.
    Opening { launched: bool },
    /// Waiting for the bridge server to be started.
    Launching,
    /// Waiting for the device's configured debug port.
    ReadingPort,
    /// Waiting for the mode-switch command to finish.
    Switching,
    /// Pausing before the next read of the device list; `polls` reads made so far.
    Waiting { polls: u8 },
    /// Waiting for read number `polls` of the device list.
    Polling { polls: u8 },
    /// Waiting for the device's route table.
    ReadingRoute,
    /// Waiting for the local interfaces, to check that `device` is reachable.
    CheckingNetwork { device: Ipv4Addr },
    /// Waiting for the bridge to connect to `device`.
    Connecting { device: Ipv4Addr },
    /// The switch has ended, and its result was handed out.
    Finished,
}

/// A command run on the device through the bridge.
#[derive(Clone, Copy, Debug, PartialEq, Eq, Structural)]
pub enum ShellCommand {
    /// `getprop service.adb.tcp.port`: the configured network debug port.
    ReadPort,
    /// `ip route`: the device's route table.
    ReadRoute,
}

/// What the caller is to do next for a switch.
#[derive(Debug)]
pub enum Action {
    /// Open a session with the bridge server.
    OpenBroker,
    /// Start the bridge server in the background.
    LaunchBroker,
    /// Run a command on the device and report its output.
    Shell(ShellCommand),
    /// Run the bridge executable with `switch_mode_args`.
    SwitchMode,
    /// Pause for the given number of milliseconds.
    Sleep(u64),
    /// Read the list of visible devices.
    ListDevices,
    /// Read the addresses of the local network interfaces.
    ListInterfaces,
    /// Ask the bridge to connect to the endpoint.
    Connect(NetworkEndpoint),
    /// The switch is over, with this result.
    Finish(Result<NetworkEndpoint, ZBBError>),
}

/// An `Action` with the texts in it as character sequences.
pub enum ActionView {
    OpenBroker,
    LaunchBroker,
    Shell(ShellCommand),
    SwitchMode,
    Sleep(u64),
    ListDevices,
    ListInterfaces,
    Connect(NetworkEndpoint),
    Finish(Result<NetworkEndpoint, ZBBErrorView>),
}

impl View for Action {
    type V = ActionView;

    open spec fn view(&self) -> ActionView {
        match self {
            Action::OpenBroker => ActionView::OpenBroker,
            Action::LaunchBroker => ActionView::LaunchBroker,
            Action::Shell(c) => ActionView::Shell(*c),
            Action::SwitchMode => ActionView::SwitchMode,
            Action::Sleep(ms) => ActionView::Sleep(*ms),
            Action::ListDevices => ActionView::ListDevices,
            Action::ListInterfaces => ActionView::ListInterfaces,
            Action::Connect(ep) => ActionView::Connect(*ep),
            Action::Finish(Ok(ep)) => ActionView::Finish(Ok(*ep)),
            Action::Finish(Err(e)) => ActionView::Finish(Err(e@)),
        }
    }
}

/// What the caller reports back after carrying out an action.
#[derive(Clone, Debug)]
pub enum Event {
    /// The bridge session is open.
    Opened,
    /// A bridge call failed.
    BrokerFailed(BrokerError),
    /// The bridge server was started.
    Launched,
    /// The standard output of a command run on the device.
    Output(Vec<u8>),
    /// The mode-switch command ran.
    Switched,
    /// The mode-switch command could not be run; the text is the error's message.
    SpawnFailed(String),
    /// The pause is over.
    Slept,
    /// The identifiers of the visible devices.
    Devices(Vec<String>),
    /// The addresses of the local network interfaces.
    Interfaces(Vec<InterfaceAddr>),
    /// The local interfaces could not be read; the text is the error's message.
    InterfacesFailed(String),
    /// The bridge connected to the device.
    Connected,
}

/// Whether `serial` is among the identifiers.
pub open spec fn listed(ids: Seq<String>, serial: Seq<char>) -> bool {
    exists|i: int| 0 <= i < ids.len() && (#[trigger] ids[i])@ == serial
}

/// The action that ends a switch with an error.
pub open spec fn fail(e: ZBBErrorView) -> (Phase, ActionView) {
    (Phase::Finished, ActionView::Finish(Err(e)))
}

/// The next phase, and the next action, of the switch of device `serial` to
/// network debugging on `port`, when `event` arrives in `phase`.
pub open spec fn next(phase: Phase, serial: Seq<char>, port: u16, event: Event) -> (Phase, ActionView) {
    match (phase, event) {
        (Phase::Opening { launched }, Event::Opened) => (
            Phase::ReadingPort,
            ActionView::Shell(ShellCommand::ReadPort),
        ),
        (Phase::Opening { launched }, Event::BrokerFailed(e)) => if !launched && e is Io {
            (Phase::Launching, ActionView::LaunchBroker)
        } else {
            fail(ZBBErrorView::ADB(e.message()))
        },
        (Phase::Launching, Event::Launched) => (
            Phase::Opening { launched: true },
            ActionView::OpenBroker,
        ),
        (Phase::ReadingPort, Event::Output(out)) => match utf8_text(out@) {
            None => fail(ZBBErrorView::Other(not_text_message())),
            Some(t) => if trim(t) == decimal(port as nat) {
                (Phase::ReadingRoute, ActionView::Shell(ShellCommand::ReadRoute))
            } else {
                (Phase::Switching, ActionView::SwitchMode)
            },
        },
        (Phase::Switching, Event::Switched) => (
            Phase::Waiting { polls: 0 },
            ActionView::Sleep(POLL_INTERVAL_MS),
        ),
        (Phase::Switching, Event::SpawnFailed(t)) => fail(ZBBErrorView::IO(t@)),
        (Phase::Waiting { polls }, Event::Slept) => if polls < POLL_ATTEMPTS {
            (Phase::Polling { polls: (polls + 1) as u8 }, ActionView::ListDevices)
        } else {
            fail(ZBBErrorView::Other(unexpected_message()))
        },
        (Phase::Polling { polls }, Event::Devices(ids)) => if listed(ids@, serial) || polls
            >= POLL_ATTEMPTS {
            (Phase::ReadingRoute, ActionView::Shell(ShellCommand::ReadRoute))
        } else {
            (Phase::Waiting { polls }, ActionView::Sleep(POLL_INTERVAL_MS))
        },
        (Phase::ReadingRoute, Event::Output(out)) => match utf8_text(out@) {
            None => fail(ZBBErrorView::Other(not_text_message())),
            Some(t) => match route_address(t) {
                Ok(x) => (Phase::CheckingNetwork { device: x }, ActionView::ListInterfaces),
                Err(e) => fail(e),
            },
        },
        (Phase::CheckingNetwork { device }, Event::Interfaces(l)) => if reachable(l@, device) {
            (
                Phase::Connecting { device },
                ActionView::Connect(NetworkEndpoint { ip: device, port }),
            )
        } else {
            fail(ZBBErrorView::NotInSameNetwork)
        },
        (Phase::CheckingNetwork { device }, Event::InterfacesFailed(t)) => fail(
            ZBBErrorView::Other(t@),
        ),
        (Phase::Connecting { device }, Event::Connected) => (
            Phase::Finished,
            ActionView::Finish(Ok(NetworkEndpoint { ip: device, port })),
        ),
        (Phase::Connecting { device }, Event::BrokerFailed(e)) => if e is Protocol
            && says_already_connected(e.message()) {
            (Phase::Finished, ActionView::Finish(Ok(NetworkEndpoint { ip: device, port })))
        } else {
            fail(ZBBErrorView::ADB(e.message()))
        },
        (Phase::ReadingPort, Event::BrokerFailed(e)) => fail(ZBBErrorView::ADB(e.message())),
        (Phase::Polling { polls }, Event::BrokerFailed(e)) => fail(ZBBErrorView::ADB(e.message())),
        (Phase::ReadingRoute, Event::BrokerFailed(e)) => fail(ZBBErrorView::ADB(e.message())),
        _ => fail(ZBBErrorView::Other(unexpected_message())),
    }
}

/// The switch of one device to network debugging, driven one event at a time.
pub struct Session {
    pub serial: String,
    pub port: u16,
    pub phase: Phase,
}

impl Session {
    /// A switch of device `serial` to port `port`; its first action is to
    /// open the bridge session.
    pub fn new(serial: String, port: u16) -> (r: (Session, Action))
        ensures
            r.0.serial == serial,
            r.0.port == port,
            r.0.phase == (Phase::Opening { launched: false }),
            r.1@ == ActionView::OpenBroker,
    {
        (Session { serial, port, phase: Phase::Opening { launched: false } }, Action::OpenBroker)
    }

    fn finish(&mut self, e: ZBBError) -> (r: Action)
        ensures
            final(self).serial == old(self).serial,
            final(self).port == old(self).port,
            (final(self).phase, r@) == fail(e@),
    {
        self.phase = Phase::Finished;
        Action::Finish(Err(e))
    }

    /// Takes in what came of the last action and gives the next one.
    pub fn step(&mut self, event: Event) -> (r: Action)
        ensures
            final(self).serial == old(self).serial,
            final(self).port == old(self).port,
            (final(self).phase, r@) == next(old(self).phase, old(self).serial@, old(self).port, event),
    {
        let phase = self.phase;
        match (phase, event) {
            (Phase::Opening { launched }, Event::Opened) => {
                self.phase = Phase::ReadingPort;
                Action::Shell(ShellCommand::ReadPort)
            },
            (Phase::Opening { launched }, Event::BrokerFailed(e)) => {
                if should_launch(&e, launched) {
                    self.phase = Phase::Launching;
                    Action::LaunchBroker
                } else {
                    self.finish(e.into_error())
                }
            },
            (Phase::Launching, Event::Launched) => {
                self.phase = Phase::Opening { launched: true };
                Action::OpenBroker
            },
            (Phase::ReadingPort, Event::Output(out)) => {
                match utf8_chars(out) {
                    None => self.finish(
                        ZBBError::Other("device output is not valid UTF-8".to_string()),
                    ),
                    Some(text) => {
                        if port_matches(&text, self.port) {
                            self.phase = Phase::ReadingRoute;
                            Action::Shell(ShellCommand::ReadRoute)
                        } else {
                            self.phase = Phase::Switching;
                            Action::SwitchMode
                        }
                    },
                }
            },
            (Phase::Switching, Event::Switched) => {
                self.phase = Phase::Waiting { polls: 0 };
                Action::Sleep(POLL_INTERVAL_MS)
            },
            (Phase::Switching, Event::SpawnFailed(t)) => self.finish(ZBBError::IO(t)),
            (Phase::Waiting { polls }, Event::Slept) => {
                if polls < POLL_ATTEMPTS {
                    self.phase = Phase::Polling { polls: polls + 1 };
                    Action::ListDevices
                } else {
                    self.finish(ZBBError::Other("unexpected event".to_string()))
                }
            },
            (Phase::Polling { polls }, Event::Devices(ids)) => {
                if polls >= POLL_ATTEMPTS || is_listed(&ids, &self.serial) {
                    self.phase = Phase::ReadingRoute;
                    Action::Shell(ShellCommand::ReadRoute)
                } else {
                    self.phase = Phase::Waiting { polls };
                    Action::Sleep(POLL_INTERVAL_MS)
                }
            },
            (Phase::ReadingRoute, Event::Output(out)) => {
                match utf8_chars(out) {
                    None => self.finish(
                        ZBBError::Other("device output is not valid UTF-8".to_string()),
                    ),
                    Some(text) => match device_address(&text) {
                        Ok(x) => {
                            self.phase = Phase::CheckingNetwork { device: x };
                            Action::ListInterfaces
                        },
                        Err(e) => self.finish(e),
                    },
                }
            },
            (Phase::CheckingNetwork { device }, Event::Interfaces(l)) => {
                match test_network(device, &l) {
                    Ok(()) => {
                        self.phase = Phase::Connecting { device };
                        Action::Connect(NetworkEndpoint { ip: device, port: self.port })
                    },
                    Err(e) => self.finish(e),
                }
            },
            (Phase::CheckingNetwork { device }, Event::InterfacesFailed(t)) => self.finish(
                ZBBError::Other(t),
            ),
            (Phase::Connecting { device }, Event::Connected) => {
                self.phase = Phase::Finished;
                Action::Finish(Ok(NetworkEndpoint { ip: device, port: self.port }))
            },
            (Phase::Connecting { device }, Event::BrokerFailed(e)) => {
                match classify_connect(Err(e)) {
                    ConnectOutcome::Failed(x) => self.finish(x),
                    _ => {
                        self.phase = Phase::Finished;
                        Action::Finish(Ok(NetworkEndpoint { ip: device, port: self.port }))
                    },
                }
            },
            (Phase::ReadingPort, Event::BrokerFailed(e)) => self.finish(e.into_error()),
            (Phase::Polling { polls }, Event::BrokerFailed(e)) => self.finish(e.into_error()),
            (Phase::ReadingRoute, Event::BrokerFailed(e)) => self.finish(e.into_error()),
            _ => self.finish(ZBBError::Other("unexpected event".to_string())),
        }
    }
}

/// Whether `serial` is among the identifiers.
pub fn is_listed(ids: &Vec<String>, serial: &String) -> (r: bool)
    ensures
        r == listed(ids@, serial@),
{
    let mut i: usize = 0;
    while i < ids.len()
        invariant
            i <= ids@.len(),
            forall|k: int| 0 <= k < i ==> (#[trigger] ids@[k])@ != serial@,
        decreases ids@.len() - i,
    {
        if ids[i] == *serial {
            return true;
        }
        i = i + 1;
    }
    false
}

/// The phase reached, and the actions given in order, when `events` arrive
/// one after another from `phase` on.
pub open spec fn run(phase: Phase, serial: Seq<char>, port: u16, events: Seq<Event>) -> (
    Phase,
    Seq<ActionView>,
)
    decreases events.len(),
{
    if events.len() == 0 {
        (phase, Seq::empty())
    } else {
        let (p, a) = next(phase, serial, port, events[0]);
        let (q, rest) = run(p, serial, port, events.drop_first());
        (q, seq![a] + rest)
    }
}

/// An action that belongs to switching the device's mode or to waiting for it.
pub open spec fn is_mode_switch_work(a: ActionView) -> bool {
    a is SwitchMode || a is Sleep || a is ListDevices
}

/// A phase that comes after the configured port was read.
pub open spec fn past_mode_switch(p: Phase) -> bool {
    p is ReadingRoute || p is CheckingNetwork || p is Connecting || p is Finished
}

proof fn lemma_no_mode_switch_after(phase: Phase, serial: Seq<char>, port: u16, events: Seq<Event>)
    requires
        past_mode_switch(phase),
    ensures
        forall|i: int|
            0 <= i < run(phase, serial, port, events).1.len() ==> !is_mode_switch_work(
                #[trigger] run(phase, serial, port, events).1[i],
            ),
    decreases events.len(),
{
    if events.len() > 0 {
        let (p, a) = next(phase, serial, port, events[0]);
        lemma_no_mode_switch_after(p, serial, port, events.drop_first());
        let acts = run(phase, serial, port, events).1;
        let rest = run(p, serial, port, events.drop_first()).1;
        assert(acts == seq![a] + rest);
        assert forall|i: int| 0 <= i < acts.len() implies !is_mode_switch_work(#[trigger] acts[i]) by {
            if i > 0 {
                assert(acts[i] == rest[i - 1]);
            }
        }
    }
}

/// When the device already reports the requested port, the route table is
/// read next, and no mode switch, pause or device-list read follows, whatever
/// comes after.
pub proof fn lemma_fast_path(
    serial: Seq<char>,
    port: u16,
    output: Vec<u8>,
    rest: Seq<Event>,
)
    requires
        utf8_text(output@) matches Some(t) && trim(t) == decimal(port as nat),
    ensures
        ({
            let acts = run(Phase::ReadingPort, serial, port, seq![Event::Output(output)] + rest).1;
            &&& acts[0] == ActionView::Shell(ShellCommand::ReadRoute)
            &&& forall|i: int| 0 <= i < acts.len() ==> !is_mode_switch_work(#[trigger] acts[i])
        }),
{
    let events = seq![Event::Output(output)] + rest;
    assert(events.drop_first() =~= rest);
    lemma_no_mode_switch_after(Phase::ReadingRoute, serial, port, rest);
    let acts = run(Phase::ReadingPort, serial, port, events).1;
    let tail = run(Phase::ReadingRoute, serial, port, rest).1;
    assert(acts == seq![ActionView::Shell(ShellCommand::ReadRoute)] + tail);
    assert forall|i: int| 0 <= i < acts.len() implies !is_mode_switch_work(#[trigger] acts[i]) by {
        if i > 0 {
            assert(acts[i] == tail[i - 1]);
        }
    }
}

/// The events of a wait for a device that switched its mode: the switch
/// command ran, then five pauses each followed by a device list.
pub open spec fn poll_events(lists: Seq<Vec<String>>) -> Seq<Event> {
    seq![
        Event::Switched,
        Event::Slept,
        Event::Devices(lists[0]),
        Event::Slept,
        Event::Devices(lists[1]),
        Event::Slept,
        Event::Devices(lists[2]),
        Event::Slept,
        Event::Devices(lists[3]),
        Event::Slept,
        Event::Devices(lists[4]),
    ]
}

/// Five times a one-second pause and a read of the device list, then the
/// read of the route table.
pub open spec fn poll_actions() -> Seq<ActionView> {
    seq![
        ActionView::Sleep(1000),
        ActionView::ListDevices,
        ActionView::Sleep(1000),
        ActionView::ListDevices,
        ActionView::Sleep(1000),
        ActionView::ListDevices,
        ActionView::Sleep(1000),
        ActionView::ListDevices,
        ActionView::Sleep(1000),
        ActionView::ListDevices,
        ActionView::Shell(ShellCommand::ReadRoute),
    ]
}

/// A device that never shows up again is looked for exactly five times, each
/// time after a one-second pause, and the switch then goes on to read the
/// device's route table.
pub proof fn lemma_poll_bound(serial: Seq<char>, port: u16, lists: Seq<Vec<String>>)
    requires
        lists.len() == 5,
        forall|i: int| 0 <= i < 5 ==> !listed((#[trigger] lists[i])@, serial),
    ensures
        run(Phase::Switching, serial, port, poll_events(lists)) == (Phase::ReadingRoute, poll_actions()),
{
    assert(!listed(lists[0]@, serial));
    assert(!listed(lists[1]@, serial));
    assert(!listed(lists[2]@, serial));
    assert(!listed(lists[3]@, serial));
    assert(!listed(lists[4]@, serial));
    let e = poll_events(lists);
    reveal_with_fuel(run, 12);
    assert(e.drop_first().drop_first().drop_first().drop_first().drop_first().drop_first()
        .drop_first().drop_first().drop_first().drop_first().drop_first() =~= Seq::<Event>::empty());
    assert(run(Phase::Switching, serial, port, e).1 =~= poll_actions());
}

proof fn lemma_no_launch_from(phase: Phase, serial: Seq<char>, port: u16, events: Seq<Event>)
    requires
        phase != (Phase::Opening { launched: false }),
    ensures
        forall|i: int|
            0 <= i < run(phase, serial, port, events).1.len() ==> !(
            #[trigger] run(phase, serial, port, events).1[i] is LaunchBroker),
    decreases events.len(),
{
    if events.len() > 0 {
        let (p, a) = next(phase, serial, port, events[0]);
        lemma_no_launch_from(p, serial, port, events.drop_first());
        let acts = run(phase, serial, port, events).1;
        let rest = run(p, serial, port, events.drop_first()).1;
        assert(acts == seq![a] + rest);
        assert forall|i: int| 0 <= i < acts.len() implies !(#[trigger] acts[i] is LaunchBroker) by {
            if i > 0 {
                assert(acts[i] == rest[i - 1]);
            }
        }
    }
}

/// The bridge server is started at most once in a switch: only the answer to
/// the first attempt to open a session can ask for it.
pub proof fn lemma_single_launch(serial: Seq<char>, port: u16, events: Seq<Event>)
    ensures
        forall|i: int|
            1 <= i < run(Phase::Opening { launched: false }, serial, port, events).1.len() ==> !(
            #[trigger] run(Phase::Opening { launched: false }, serial, port, events).1[i] is LaunchBroker),
{
    if events.len() > 0 {
        let start = Phase::Opening { launched: false };
        let (p, a) = next(start, serial, port, events[0]);
        lemma_no_launch_from(p, serial, port, events.drop_first());
        let acts = run(start, serial, port, events).1;
        let rest = run(p, serial, port, events.drop_first()).1;
        assert(acts == seq![a] + rest);
        assert forall|i: int| 1 <= i < acts.len() implies !(#[trigger] acts[i] is LaunchBroker) by {
            assert(acts[i] == rest[i - 1]);
        }
    }
}

impl ShellCommand {
    /// The command line run on the device.
    pub fn argv(&self) -> (r: Vec<String>)
        ensures
            r.deep_view() == match self {
                ShellCommand::ReadPort => seq!["getprop"@, "service.adb.tcp.port"@],
                ShellCommand::ReadRoute => seq!["ip"@, "route"@],
            },
    {
        match self {
            ShellCommand::ReadPort => {
                let v = vec!["getprop".to_string(), "service.adb.tcp.port".to_string()];
                assert(v.deep_view() =~= seq!["getprop"@, "service.adb.tcp.port"@]);
                v
            },
            ShellCommand::ReadRoute => {
                let v = vec!["ip".to_string(), "route".to_string()];
                assert(v.deep_view() =~= seq!["ip"@, "route"@]);
                v
            },
        }
    }
}

/// The arguments of the bridge executable that switch device `serial` to
/// network debugging on `port`: `-s <serial> tcpip <port>`.
pub fn switch_mode_args(serial: &String, port: u16) -> (r: Vec<String>)
    ensures
        r.deep_view() == seq!["-s"@, serial@, "tcpip"@, decimal(port as nat)],
{
    let mut digits: Vec<char> = Vec::new();
    push_decimal(port, &mut digits);
    assert(digits@ =~= decimal(port as nat));
    let v = vec!["-s".to_string(), serial.clone(), "tcpip".to_string(), string_of(&digits)];
    assert(v.deep_view() =~= seq!["-s"@, serial@, "tcpip"@, decimal(port as nat)]);
    v
}

/// The switch commits to an address only after checking it: it asks the bridge
/// to connect, or hands out an endpoint as its result, only for an address that
/// shares a subnet with a local interface, and the step that moves it towards
/// connecting is the one that received those interfaces.
pub proof fn lemma_commit_only_reachable(phase: Phase, serial: Seq<char>, port: u16, event: Event)
    ensures
        ({
            let (p, a) = next(phase, serial, port, event);
            &&& p matches Phase::Connecting { device } ==> (phase == (Phase::CheckingNetwork {
                device,
            }) && (event matches Event::Interfaces(l) && reachable(l@, device)))
            &&& a matches ActionView::Connect(ep) ==> (phase == (Phase::CheckingNetwork {
                device: ep.ip,
            }) && ep.port == port && (event matches Event::Interfaces(l) && reachable(l@, ep.ip)))
            &&& a matches ActionView::Finish(Ok(ep)) ==> (phase == (Phase::Connecting {
                device: ep.ip,
            }) && ep.port == port)
        }),
{
}

} // verus!
