use vstd::prelude::*;

use crate::model::{ZBBError, ZBBErrorView};
use crate::net::{dotted, is_match, lemma_dotted_injective, parse_ipv4, same_subnet, Ipv4Addr};
use crate::route::{route_source, route_source_text};
use crate::text::{contains, find_in, text_chars, utf8_chars, utf8_text};

verus! {

/// How many times the device list is read while waiting for a device to come back.
pub const POLL_ATTEMPTS: u8 = 5;

/// The pause before each read of the device list, in milliseconds.
pub const POLL_INTERVAL_MS: u64 = 1000;

/// A network address of a device: its IPv4 address and debug port.
#[derive(Clone, Copy, Debug, PartialEq, Eq, Structural)]
pub struct NetworkEndpoint {
    pub ip: Ipv4Addr,
    pub port: u16,
}

/// One address of a local network interface. A field is `None` where the
/// address, or its netmask, has no IPv4 form.
#[derive(Clone, Copy, Debug, PartialEq, Eq, Structural)]
pub struct InterfaceAddr {
    pub ip: Option<Ipv4Addr>,
    pub netmask: Option<Ipv4Addr>,
}

/// Whether some local IPv4 address shares a subnet with `device` under that
/// address's own netmask.
pub open spec fn reachable(interfaces: Seq<InterfaceAddr>, device: Ipv4Addr) -> bool {
    exists|i: int|
        0 <= i < interfaces.len() && (#[trigger] interfaces[i]).ip is Some
            && interfaces[i].netmask is Some && same_subnet(
            interfaces[i].ip->0,
            device,
            interfaces[i].netmask->0,
        )
}

/// Checks that `other` lies in a subnet of one of the local interfaces;
/// addresses without an IPv4 form are passed over.
pub fn test_network(other: Ipv4Addr, interfaces: &Vec<InterfaceAddr>) -> (r: Result<(), ZBBError>)
    ensures
        r is Ok == reachable(interfaces@, other),
        r is Err ==> r == Err::<(), ZBBError>(ZBBError::NotInSameNetwork),
{
    let mut i: usize = 0;
    while i < interfaces.len()
        invariant
            i <= interfaces@.len(),
            forall|k: int|
                0 <= k < i ==> !((#[trigger] interfaces@[k]).ip is Some && interfaces@[k].netmask is Some
                    && same_subnet(interfaces@[k].ip->0, other, interfaces@[k].netmask->0)),
        decreases interfaces@.len() - i,
    {
        let entry = interfaces[i];
        if let Some(ip) = entry.ip {
            if let Some(netmask) = entry.netmask {
                if is_match(ip, other, netmask) {
                    return Ok(());
                }
            }
        }
        i = i + 1;
    }
    Err(ZBBError::NotInSameNetwork)
}

/// The message given when a device's output is not valid UTF-8.
pub open spec fn not_text_message() -> Seq<char> {
    "device output is not valid UTF-8"@
}

/// The message given when the route table's source address is no IPv4 address.
pub open spec fn bad_address_message() -> Seq<char> {
    "invalid IPv4 address in route table"@
}

/// The message given when an event does not fit the step it arrives at.
pub open spec fn unexpected_message() -> Seq<char> {
    "unexpected event"@
}

/// The device address that the text of an `ip route` table gives.
pub open spec fn route_address(text: Seq<char>) -> Result<Ipv4Addr, ZBBErrorView> {
    match route_source(text) {
        None => Err(ZBBErrorView::NotInANetwork),
        Some(t) => if exists|x: Ipv4Addr| dotted(x) == t {
            Ok(choose|x: Ipv4Addr| dotted(x) == t)
        } else {
            Err(ZBBErrorView::Other(bad_address_message()))
        },
    }
}

/// The address of the device, read from the text of its `ip route` table.
pub fn device_address(text: &Vec<char>) -> (r: Result<Ipv4Addr, ZBBError>)
    ensures
        match r {
            Ok(x) => route_address(text@) == Ok::<Ipv4Addr, ZBBErrorView>(x),
            Err(e) => route_address(text@) == Err::<Ipv4Addr, ZBBErrorView>(e@),
        },
{
    match route_source_text(text) {
        None => Err(ZBBError::NotInANetwork),
        Some(token) => match parse_ipv4(&token) {
            Some(x) => {
                proof {
                    let y = choose|y: Ipv4Addr| dotted(y) == token@;
                    lemma_dotted_injective(x, y);
                }
                Ok(x)
            },
            None => Err(ZBBError::Other("invalid IPv4 address in route table".to_string())),
        },
    }
}

/// The address of the device, read from the raw output of its `ip route`
/// table, as the upward interface hands it out: in dotted-decimal text.
pub fn get_ip(output: Vec<u8>) -> (r: Result<String, ZBBError>)
    ensures
        match utf8_text(output@) {
            None => r matches Err(ZBBError::Other(m)) && m@ == not_text_message(),
            Some(t) => match route_source(t) {
                Some(a) => r matches Ok(s) && s@ == a,
                None => r == Err::<String, ZBBError>(ZBBError::NotInANetwork),
            },
        },
{
    match utf8_chars(output) {
        None => Err(ZBBError::Other("device output is not valid UTF-8".to_string())),
        Some(text) => match route_source_text(&text) {
            Some(a) => Ok(crate::text::string_of(&a)),
            None => Err(ZBBError::NotInANetwork),
        },
    }
}

/// What a call to the bridge server failed with: an input/output failure to
/// reach it, or an error that it reported. The text is the error's message.
#[derive(Clone, Debug)]
pub enum BrokerError {
    Io(String),
    Protocol(String),
}

impl BrokerError {
    pub open spec fn message(&self) -> Seq<char> {
        match self {
            BrokerError::Io(t) => t@,
            BrokerError::Protocol(t) => t@,
        }
    }

    /// The error handed to callers: the bridge's message.
    pub fn into_error(self) -> (r: ZBBError)
        ensures
            r@ == ZBBErrorView::ADB(self.message()),
    {
        match self {
            BrokerError::Io(t) => ZBBError::ADB(t),
            BrokerError::Protocol(t) => ZBBError::ADB(t),
        }
    }
}

/// The phrase with which the bridge reports that a device is connected already.
pub open spec fn already_connected_phrase() -> Seq<char> {
    seq!['a', 'l', 'r', 'e', 'a', 'd', 'y', ' ', 'c', 'o', 'n', 'n', 'e', 'c', 't', 'e', 'd']
}

/// Whether an error message of the bridge says that the device is connected already.
pub open spec fn says_already_connected(message: Seq<char>) -> bool {
    contains(message, already_connected_phrase())
}

/// The result of asking the bridge to connect to a network device.
#[derive(Clone, Debug)]
pub enum ConnectOutcome {
    Connected,
    AlreadyConnected,
    Failed(ZBBError),
}

/// Sorts the bridge's answer to a connect request; an error reported by the
/// bridge that says the device is connected already counts as a connection.
pub fn classify_connect(result: Result<(), BrokerError>) -> (r: ConnectOutcome)
    ensures
        match result {
            Ok(()) => r is Connected,
            Err(e) => if e is Protocol && says_already_connected(e.message()) {
                r is AlreadyConnected
            } else {
                r matches ConnectOutcome::Failed(x) && x@ == ZBBErrorView::ADB(e.message())
            },
        },
{
    match result {
        Ok(()) => ConnectOutcome::Connected,
        Err(BrokerError::Io(t)) => ConnectOutcome::Failed(ZBBError::ADB(t)),
        Err(e) => {
            let text = match &e {
                BrokerError::Io(t) => text_chars(t),
                BrokerError::Protocol(t) => text_chars(t),
            };
            let phrase = vec!['a', 'l', 'r', 'e', 'a', 'd', 'y', ' ', 'c', 'o', 'n', 'n', 'e', 'c', 't', 'e', 'd'];
            assert(phrase@ =~= already_connected_phrase());
            if find_in(&text, &phrase) {
                ConnectOutcome::AlreadyConnected
            } else {
                ConnectOutcome::Failed(e.into_error())
            }
        },
    }
}

/// Whether a failed attempt to open a bridge session calls for starting the
/// bridge server: only an input/output failure does, and only before the
/// server was started once.
pub fn should_launch(error: &BrokerError, launched: bool) -> (r: bool)
    ensures
        r == (!launched && error is Io),
{
    !launched && matches!(error, BrokerError::Io(_))
}

/// The message given for text that is no IPv4 address.
pub open spec fn invalid_address_message(text: Seq<char>) -> Seq<char> {
    "Invalid ip address: "@ + text
}

/// Reads a dotted-decimal IPv4 address.
pub fn parse_address(text: &String) -> (r: Result<Ipv4Addr, ZBBError>)
    ensures
        match r {
            Ok(x) => dotted(x) == text@,
            Err(e) => (forall|x: Ipv4Addr| dotted(x) != text@) && e@ == ZBBErrorView::Other(
                invalid_address_message(text@),
            ),
        },
{
    let chars = text_chars(text);
    match parse_ipv4(&chars) {
        Some(x) => Ok(x),
        None => Err(ZBBError::Other("Invalid ip address: ".to_string().concat(text.as_str()))),
    }
}

} // verus!
