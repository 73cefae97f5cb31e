//! Styles: the visual attributes that a run of cells shares.

use vstd::prelude::*;

verus! {

/// The visual attributes of a cell. Colours are packed as `0xRRGGBBAA`.
///
/// Two styles are the same exactly when all their attributes are the same;
/// this is the equality by which a row is split into fragments.
#[derive(Clone, Copy, Debug, PartialEq, Eq, Structural)]
pub struct Style {
    pub foreground: Option<u32>,
    pub background: Option<u32>,
    pub special: Option<u32>,
    pub reverse: bool,
    pub italic: bool,
    pub bold: bool,
    pub strikethrough: bool,
    pub underline: bool,
    pub undercurl: bool,
    pub blend: u8,
}

} // verus!
