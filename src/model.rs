use vstd::prelude::*;

verus! {

/// Connection state of a device as the debug bridge reports it.
#[derive(Clone, Copy, Debug, PartialEq, Eq, Structural)]
pub enum LocalDeviceState {
    /// The device is not connected to the bridge or is not responding.
    Offline,
    /// The device is connected to the bridge server; this does not imply that
    /// the Android system has finished booting.
    Device,
    /// There is no device connected.
    NoDevice,
    /// The device is being authorized.
    Authorizing,
    /// The device is unauthorized.
    Unauthorized,
}

/// A device with every field that the bridge's long listing gives.
#[derive(Clone, Debug)]
pub struct LocalDeviceLong {
    /// Unique device identifier.
    pub identifier: String,
    /// Connection state of the device.
    pub state: LocalDeviceState,
    /// USB port used by the device.
    pub usb: String,
    /// Product code.
    pub product: String,
    /// Device model.
    pub model: String,
    /// Device code.
    pub device: String,
    /// Transport identifier.
    pub transport_id: u32,
}

/// A device as one enumeration saw it.
#[derive(Clone, Debug)]
pub struct LocalDevice {
    /// Unique device identifier.
    pub identifier: String,
    /// Connection state of the device.
    pub state: LocalDeviceState,
}

impl LocalDevice {
    pub fn new(identifier: String, state: LocalDeviceState) -> (r: LocalDevice)
        ensures
            r.identifier == identifier,
            r.state == state,
    {
        LocalDevice { identifier, state }
    }
}

/// Where the debug-bridge and mirroring executables were found, if anywhere.
#[derive(Clone, Debug)]
pub struct Paths {
    pub adb: Option<String>,
    pub scrcpy: Option<String>,
}

impl Paths {
    pub fn new(adb: Option<String>, scrcpy: Option<String>) -> (r: Self)
        ensures
            r.adb == adb,
            r.scrcpy == scrcpy,
    {
        Self { adb, scrcpy }
    }

    /// The path of the debug-bridge executable.
    pub fn adb_path(&self) -> (r: Result<String, ZBBError>)
        ensures
            match self.adb {
                Some(p) => r == Ok::<String, ZBBError>(p),
                None => r matches Err(ZBBError::ADB(m)) && m@ == missing_binary_message(),
            },
    {
        match &self.adb {
            Some(p) => Ok(p.clone()),
            None => Err(ZBBError::ADB("ADB nicht gefunden".to_string())),
        }
    }

    /// The path of the mirroring executable.
    pub fn scrcpy_path(&self) -> (r: Result<String, ZBBError>)
        ensures
            match self.scrcpy {
                Some(p) => r == Ok::<String, ZBBError>(p),
                None => r matches Err(ZBBError::ADB(m)) && m@ == missing_binary_message(),
            },
    {
        match &self.scrcpy {
            Some(p) => Ok(p.clone()),
            None => Err(ZBBError::ADB("ADB nicht gefunden".to_string())),
        }
    }
}

/// The message given when an executable was not found.
pub open spec fn missing_binary_message() -> Seq<char> {
    "ADB nicht gefunden"@
}

/// What a call into the device layer can fail with.
#[derive(Clone, Debug, PartialEq, Eq)]
pub enum ZBBError {
    /// The debug bridge reported an error; the text is its message.
    ADB(String),
    /// A local input/output operation failed; the text is its message.
    IO(String),
    /// The device's route table names no source address.
    NotInANetwork,
    /// No local interface shares a subnet with the device.
    NotInSameNetwork,
    /// Anything else, described by the text.
    Other(String),
}

/// A `ZBBError` with its texts as character sequences.
pub enum ZBBErrorView {
    ADB(Seq<char>),
    IO(Seq<char>),
    NotInANetwork,
    NotInSameNetwork,
    Other(Seq<char>),
}

impl View for ZBBError {
    type V = ZBBErrorView;

    open spec fn view(&self) -> ZBBErrorView {
        match self {
            ZBBError::ADB(t) => ZBBErrorView::ADB(t@),
            ZBBError::IO(t) => ZBBErrorView::IO(t@),
            ZBBError::NotInANetwork => ZBBErrorView::NotInANetwork,
            ZBBError::NotInSameNetwork => ZBBErrorView::NotInSameNetwork,
            ZBBError::Other(t) => ZBBErrorView::Other(t@),
        }
    }
}

/// Where an executable is to be taken from.
#[derive(Clone, Debug, PartialEq, Eq)]
pub enum BinaryLocation {
    /// Installed on the search path, under this name.
    Installed(String),
    /// Packaged with the application, at this resource path.
    Packaged(String),
}

/// The resource path of a packaged executable: `scrcpy/<name>`, with `.exe`
/// on Windows.
pub open spec fn packaged_path(name: Seq<char>, windows: bool) -> Seq<char> {
    "scrcpy/"@ + name + if windows {
        ".exe"@
    } else {
        Seq::<char>::empty()
    }
}

/// Where to take executable `name` from: from the search path when it is to
/// be searched and holds the executable, else from the packaged resources.
pub fn find_binary(name: &String, search_path: bool, installed: bool, windows: bool) -> (r:
    BinaryLocation)
    ensures
        search_path && installed ==> (r matches BinaryLocation::Installed(n) && n@ == name@),
        !(search_path && installed) ==> (r matches BinaryLocation::Packaged(p) && p@
            == packaged_path(name@, windows)),
{
    if search_path && installed {
        return BinaryLocation::Installed(name.clone());
    }
    let path = "scrcpy/".to_string().concat(name.as_str());
    if windows {
        BinaryLocation::Packaged(path.concat(".exe"))
    } else {
        proof {
            assert(path@ + Seq::<char>::empty() =~= path@);
        }
        BinaryLocation::Packaged(path)
    }
}

/// The screen-mirroring tool.
pub struct ScrCpy {}

impl ScrCpy {
    /// The arguments that open a mirroring window for device `id`.
    pub fn window_args(id: &String) -> (r: Vec<String>)
        ensures
            r.deep_view() == seq!["-s"@, id@],
    {
        let args = vec!["-s".to_string(), id.clone()];
        assert(args.deep_view() =~= seq!["-s"@, id@]);
        args
    }
}

} // verus!
