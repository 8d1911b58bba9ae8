use vstd::prelude::*;

verus! {

/// Where a window stands on screen, and its size.
#[derive(Clone, Copy, Debug, PartialEq, Eq, Structural)]
pub struct Position {
    pub x: i32,
    pub y: i32,
    pub width: u32,
    pub height: u32,
}

impl Position {
    /// The position at the origin with no size.
    pub fn default() -> (r: Position)
        ensures
            r == (Position { x: 0, y: 0, width: 0, height: 0 }),
    {
        Position { x: 0, y: 0, width: 0, height: 0 }
    }
}

/// Why a window's position could not be read or set.
#[derive(Clone, Debug, PartialEq, Eq)]
pub enum WindowError {
    /// No window belongs to the process.
    NotFound,
    /// Anything else, described by the text.
    Other(String),
}

/// A rectangle by its edges, in screen coordinates.
#[derive(Clone, Copy, Debug, PartialEq, Eq, Structural)]
pub struct Rect {
    pub left: i32,
    pub top: i32,
    pub right: i32,
    pub bottom: i32,
}

/// What the window system reported when asked for a process's window.
#[derive(Clone, Copy, Debug, PartialEq, Eq, Structural)]
pub enum FrameReport {
    /// The display could not be opened.
    NoDisplay,
    /// No window of the process was found.
    NotFound,
    /// The window's placement could not be read.
    NoPlacement,
    /// The window is minimized.
    Minimized,
    /// The window's rectangles could not be read.
    NoRects,
    /// The outer rectangle of the window, and its client area relative to itself.
    Rects { window: Rect, client: Rect },
    /// The window's geometry as the window system gives it.
    Geometry(Position),
}

/// `v / 2` rounded towards zero, as Rust's integer division rounds.
pub open spec fn half_toward_zero(v: int) -> int {
    if v >= 0 {
        v / 2
    } else {
        -((-v) / 2)
    }
}

/// The visible area of a window: the outer rectangle without the side
/// borders, the bottom border and the title bar. Each side border is half of
/// what the outer width has beyond the client width; the title bar is what the
/// outer height has beyond the client height, less one border.
pub open spec fn inner_edges(window: Rect, client: Rect) -> (int, int, int, int) {
    let border = half_toward_zero((window.right - window.left) - client.right);
    let header = ((window.bottom - window.top) - client.bottom) - border;
    (window.left + border, window.top + header, window.right - border, window.bottom - border)
}

pub open spec fn fits_i32(v: int) -> bool {
    i32::MIN <= v <= i32::MAX
}

/// The message given when the visible area does not fit the coordinate range.
pub open spec fn out_of_range_message() -> Seq<char> {
    "window rectangle out of range"@
}

/// The visible area of a window from its outer rectangle and its client area.
pub fn client_area(window: Rect, client: Rect) -> (r: Result<Rect, WindowError>)
    ensures
        ({
            let (l, t, ri, b) = inner_edges(window, client);
            if fits_i32(l) && fits_i32(t) && fits_i32(ri) && fits_i32(b) {
                r == Ok::<Rect, WindowError>(
                    Rect { left: l as i32, top: t as i32, right: ri as i32, bottom: b as i32 },
                )
            } else {
                r matches Err(WindowError::Other(m)) && m@ == out_of_range_message()
            }
        }),
{
    let spare: i64 = (window.right as i64 - window.left as i64) - client.right as i64;
    let border: i64 = if spare >= 0 {
        spare / 2
    } else {
        -((-spare) / 2)
    };
    let header: i64 = ((window.bottom as i64 - window.top as i64) - client.bottom as i64) - border;
    let l: i64 = window.left as i64 + border;
    let t: i64 = window.top as i64 + header;
    let ri: i64 = window.right as i64 - border;
    let b: i64 = window.bottom as i64 - border;
    let lo: i64 = i32::MIN as i64;
    let hi: i64 = i32::MAX as i64;
    if lo <= l && l <= hi && lo <= t && t <= hi && lo <= ri && ri <= hi && lo <= b && b <= hi {
        Ok(Rect { left: l as i32, top: t as i32, right: ri as i32, bottom: b as i32 })
    } else {
        Err(WindowError::Other("window rectangle out of range".to_string()))
    }
}

/// The position of a rectangle: its top-left corner and its extent, the
/// extent taken modulo 2^32 as an unsigned cast takes it.
pub open spec fn position_of(rect: Rect) -> Position {
    Position {
        x: rect.left,
        y: rect.top,
        width: (rect.right - rect.left) as u32,
        height: (rect.bottom - rect.top) as u32,
    }
}

pub fn rect_position(rect: Rect) -> (r: Position)
    ensures
        r == position_of(rect),
{
    let w: i64 = rect.right as i64 - rect.left as i64;
    let h: i64 = rect.bottom as i64 - rect.top as i64;
    Position {
        x: rect.left,
        y: rect.top,
        width: #[verifier::truncate] (w as u32),
        height: #[verifier::truncate] (h as u32),
    }
}

/// The position of a process's window, from what the window system reported.
pub fn get_window_position(report: FrameReport) -> (r: Result<Position, WindowError>)
    ensures
        match report {
            FrameReport::NoDisplay => r matches Err(WindowError::Other(m)) && m@
                == "Failed to open display"@,
            FrameReport::NotFound => r matches Err(WindowError::NotFound),
            FrameReport::NoPlacement => r matches Err(WindowError::Other(m)) && m@
                == "Failed to get window placement"@,
            FrameReport::Minimized => r matches Err(WindowError::Other(m)) && m@
                == "Window is minimized"@,
            FrameReport::NoRects => r matches Err(WindowError::Other(m)) && m@
                == "Failed to get window rect"@,
            FrameReport::Rects { window, client } => {
                let (l, t, ri, b) = inner_edges(window, client);
                if fits_i32(l) && fits_i32(t) && fits_i32(ri) && fits_i32(b) {
                    r == Ok::<Position, WindowError>(
                        position_of(
                            Rect { left: l as i32, top: t as i32, right: ri as i32, bottom: b as i32 },
                        ),
                    )
                } else {
                    r matches Err(WindowError::Other(m)) && m@ == out_of_range_message()
                }
            },
            FrameReport::Geometry(p) => r == Ok::<Position, WindowError>(p),
        },
{
    match report {
        FrameReport::NoDisplay => Err(WindowError::Other("Failed to open display".to_string())),
        FrameReport::NotFound => Err(WindowError::NotFound),
        FrameReport::NoPlacement => Err(
            WindowError::Other("Failed to get window placement".to_string()),
        ),
        FrameReport::Minimized => Err(WindowError::Other("Window is minimized".to_string())),
        FrameReport::NoRects => Err(WindowError::Other("Failed to get window rect".to_string())),
        FrameReport::Rects { window, client } => match client_area(window, client) {
            Ok(rect) => Ok(rect_position(rect)),
            Err(e) => Err(e),
        },
        FrameReport::Geometry(p) => Ok(p),
    }
}

/// The arguments for the window system's move-and-resize call: the corner,
/// then the size cast to signed as the call takes it.
pub fn move_request(pos: Position) -> (r: (i32, i32, i32, i32))
    ensures
        r == (pos.x, pos.y, pos.width as i32, pos.height as i32),
{
    (pos.x, pos.y, #[verifier::truncate] (pos.width as i32), #[verifier::truncate] (
    pos.height as i32))
}

/// What the window system reported when asked to move a process's window.
#[derive(Clone, Copy, Debug, PartialEq, Eq, Structural)]
pub enum MoveReport {
    /// The display could not be opened.
    NoDisplay,
    /// No window of the process was found.
    NotFound,
    /// The window was moved.
    Moved,
    /// The window system refused the move.
    Refused,
    /// This platform offers no way to move another process's window.
    Unsupported,
}

/// The result of moving a process's window, from what the window system reported.
pub fn set_window_position(report: MoveReport) -> (r: Result<(), WindowError>)
    ensures
        match report {
            MoveReport::NoDisplay => r matches Err(WindowError::Other(m)) && m@
                == "Failed to open display"@,
            MoveReport::NotFound => r matches Err(WindowError::NotFound),
            MoveReport::Moved => r is Ok,
            MoveReport::Refused => r matches Err(WindowError::Other(m)) && m@
                == "Failed to set window position"@,
            MoveReport::Unsupported => r matches Err(WindowError::Other(m)) && m@
                == "Setting window position is not implemented on macOS"@,
        },
{
    match report {
        MoveReport::NoDisplay => Err(WindowError::Other("Failed to open display".to_string())),
        MoveReport::NotFound => Err(WindowError::NotFound),
        MoveReport::Moved => Ok(()),
        MoveReport::Refused => Err(WindowError::Other("Failed to set window position".to_string())),
        MoveReport::Unsupported => Err(
            WindowError::Other("Setting window position is not implemented on macOS".to_string()),
        ),
    }
}

} // verus!
