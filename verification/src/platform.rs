use vstd::prelude::*;

verus! {

/// Info returned by the display server.
#[derive(Clone, Debug)]
pub struct DisplayInfo {
    pub width: u32,
    pub height: u32,
    pub stride: u32,
    pub bpp: u8,
    pub connected: bool,
}

/// The geometry of a display buffer.
pub struct DisplayBuffer {
    pub width: u32,
    pub height: u32,
    pub stride: u32,
}

/// A relative mouse event.
#[derive(Clone, Copy, Debug)]
pub struct MouseEvent {
    pub dx: i32,
    pub dy: i32,
    pub buttons: u8,
}

/// What is known of a display connection: the display's info.
pub struct Platform {
    info: DisplayInfo,
}

impl Platform {
    /// A connection to a display described by `info`.
    pub fn from_info(info: DisplayInfo) -> (p: Self)
        ensures
            p.info_view() == info,
    {
        Platform { info }
    }

    /// The display's info.
    pub closed spec fn info_view(&self) -> DisplayInfo {
        self.info
    }

    pub fn info(&self) -> (i: &DisplayInfo)
        ensures
            *i == self.info_view(),
    {
        &self.info
    }
}

} // verus!
