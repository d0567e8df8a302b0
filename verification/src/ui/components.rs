//! The look of the framed boxes of the screen.
use vstd::prelude::*;

verus! {

/// How a box of the screen is drawn.
pub enum BlockLook {
    /// A titled box framed on every side, drawn in the given colour.
    Framed { title: String, color: [u8; 3] },
    /// A titled box without a frame, drawn in the given colour.
    Bare { title: String, color: [u8; 3] },
    /// A box with no title, no frame and the default colours.
    Plain,
}

/// The box of kind `kind` with the given title and colour: kind 0 is framed,
/// kind 1 has no frame, any other kind is plain.
pub fn create_block(title: &str, border_color: [u8; 3], kind: u8) -> (b: BlockLook)
    ensures
        kind == 0 ==> (b matches BlockLook::Framed { title: t, color } && t@ == title@ && color
            == border_color),
        kind == 1 ==> (b matches BlockLook::Bare { title: t, color } && t@ == title@ && color
            == border_color),
        kind > 1 ==> b is Plain,
{
    if kind == 0 {
        BlockLook::Framed { title: title.to_owned(), color: border_color }
    } else if kind == 1 {
        BlockLook::Bare { title: title.to_owned(), color: border_color }
    } else {
        BlockLook::Plain
    }
}

} // verus!
