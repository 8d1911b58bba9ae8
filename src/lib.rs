//! Device connectivity: subnet matching, parsing of what devices print, and
//! the decision logic that moves an Android device from USB debugging to
//! network debugging while the caller carries out each step.

pub mod connect;
pub mod device;
pub mod model;
pub mod net;
pub mod route;
pub mod session;
pub mod text;
pub mod window;

pub use connect::{
    classify_connect, device_address, get_ip, parse_address, should_launch, test_network,
    BrokerError, ConnectOutcome, InterfaceAddr, NetworkEndpoint, POLL_ATTEMPTS, POLL_INTERVAL_MS,
};
pub use device::{get_battery_level, is_running, is_screen_on, output_text, parse_i32};
pub use model::{
    find_binary, BinaryLocation, LocalDevice, LocalDeviceLong, LocalDeviceState, Paths, ScrCpy,
    ZBBError,
};
pub use net::{is_match, parse_ipv4, Ipv4Addr};
pub use session::{switch_mode_args, Action, Event, Phase, Session, ShellCommand};
pub use window::{
    client_area, get_window_position, move_request, set_window_position, FrameReport, MoveReport,
    Position, Rect, WindowError,
};
