//! Colors and draw styles as the core computes them.
//!
//! The renderer is an external collaborator: the core only decides which RGB
//! value (or fallback) a glyph gets, and whether its foreground is set. The
//! grayscale transform for revealed-but-not-visible tiles lives on `Camera`.

use vstd::prelude::*;

verus! {

/// A terminal color as far as the core reasons about it: an RGB triple, the
/// neutral gray fallback, or the terminal default.
#[derive(Clone, Copy, PartialEq, Eq, Structural, Debug)]
pub enum TermColor {
    Rgb(u8, u8, u8),
    Gray,
    Reset,
}

/// A draw style: an optional foreground color.
#[derive(Clone, Copy, PartialEq, Eq, Structural, Debug)]
pub struct TermStyle {
    pub fg: Option<TermColor>,
}

impl TermStyle {
    /// Style with the given foreground color.
    pub fn fg(color: TermColor) -> (r: TermStyle)
        ensures
            r.fg == Some(color),
    {
        TermStyle { fg: Some(color) }
    }
}

impl Default for TermStyle {
    /// Style with no foreground set.
    fn default() -> (r: TermStyle)
        ensures
            r.fg is None,
    {
        TermStyle { fg: None }
    }
}

} // verus!
