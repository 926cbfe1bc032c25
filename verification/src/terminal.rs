//! The extent of the screen, as the editor knows it.
use vstd::prelude::*;

verus! {

/// The width and height of the screen in cells.
#[derive(Clone, Copy, Debug, PartialEq, Eq)]
pub struct Size {
    pub width: u16,
    pub height: u16,
}

/// The screen that the editor lays its text out for.
pub struct Terminal {
    size: Size,
}

impl View for Terminal {
    type V = Size;

    closed spec fn view(&self) -> Size {
        self.size
    }
}

impl Terminal {
    /// A screen of `width` by `height` cells.
    pub fn new(width: u16, height: u16) -> (terminal: Terminal)
        ensures
            terminal@ == (Size { width, height }),
    {
        Terminal { size: Size { width, height } }
    }

    /// The extent of the screen.
    pub fn size(&self) -> (size: &Size)
        ensures
            *size == self@,
    {
        &self.size
    }

    /// Takes note that the screen now has `width` by `height` cells.
    pub fn resize(&mut self, width: u16, height: u16)
        ensures
            final(self)@ == (Size { width, height }),
    {
        self.size.width = width;
        self.size.height = height;
    }
}

} // verus!
