//! Border appearance settings, owned by the dispatch loop and threaded
//! explicitly through the handlers; updated only by the three border
//! commands.

use vstd::prelude::*;

verus! {

#[derive(Debug, Clone, Copy, PartialEq, Eq, Structural)]
pub struct Config {
    /// Border width applied to managed windows.
    pub border_width: u32,
    /// Border color of unfocused windows.
    pub border_color: u32,
    /// Border color of the focused window.
    pub focused_border_color: u32,
}

impl Default for Config {
    fn default() -> (c: Self)
        ensures
            c == (Config { border_width: 0, border_color: 0xcccccc, focused_border_color: 0x00ccff }),
    {
        Config { border_width: 0, border_color: 0xcccccc, focused_border_color: 0x00ccff }
    }
}

} // verus!
