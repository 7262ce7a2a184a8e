//! The fixed set of terminal image transfer protocols a painting
//! backend may be asked to use.

use vstd::prelude::*;

verus! {

/// How image pixel data is to be transmitted to the terminal: detect
/// the capability automatically, or use one named protocol.
#[derive(Clone, Copy, Debug, PartialEq, Eq, Structural)]
pub enum ImageProtocol {
    Auto,
    Halfblocks,
    Sixel,
    Kitty,
    Iterm2,
}

impl Default for ImageProtocol {
    /// The default is automatic detection.
    fn default() -> (p: ImageProtocol)
        ensures
            p == ImageProtocol::Auto,
    {
        ImageProtocol::Auto
    }
}

} // verus!
