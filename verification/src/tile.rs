//! Tiles: a terrain kind plus an optional structure.
//!
//! Walkability and sight-blocking are resolved dynamically: a structure on the
//! tile overrides the terrain's defaults.

use vstd::prelude::*;

use crate::color::TermColor;
use crate::structure::Structure;

verus! {

/// The terrain of one map cell.
#[derive(Clone, Copy, PartialEq, Eq, Structural, Debug)]
pub enum TileKind {
    Grass,
    Water,
}

impl TileKind {
    /// The glyph the renderer should use for the terrain.
    pub open spec fn spec_symbol(&self) -> Seq<char> {
        match self {
            TileKind::Grass => ","@,
            TileKind::Water => "~"@,
        }
    }

    /// The glyph the renderer should use for the terrain.
    pub fn symbol(&self) -> (r: &'static str)
        ensures
            r@ == self.spec_symbol(),
    {
        match self {
            TileKind::Grass => ",",
            TileKind::Water => "~",
        }
    }

    /// The color the renderer should use for the terrain.
    pub open spec fn spec_color(&self) -> TermColor {
        match self {
            TileKind::Grass => TermColor::Rgb(0, 102, 0),
            TileKind::Water => TermColor::Rgb(51, 102, 204),
        }
    }

    /// The color the renderer should use for the terrain.
    pub fn color(&self) -> (r: TermColor)
        ensures
            r == self.spec_color(),
    {
        match self {
            TileKind::Grass => TermColor::Rgb(0, 102, 0),
            TileKind::Water => TermColor::Rgb(51, 102, 204),
        }
    }

    /// Every bare terrain kind is walkable.
    pub fn is_walkable(&self) -> (r: bool)
        ensures
            r,
    {
        true
    }
}

/// One map cell: terrain plus an optional structure.
#[derive(Clone, Copy, PartialEq, Eq, Structural, Debug)]
pub struct Tile {
    pub kind: TileKind,
    pub structure: Option<Structure>,
}

impl Tile {
    /// A bare tile of the given terrain.
    pub fn new(kind: TileKind) -> (r: Tile)
        ensures
            r.kind == kind,
            r.structure is None,
    {
        Tile { kind, structure: Option::None }
    }

    /// Whether an entity may stand here: the structure decides when present,
    /// the terrain otherwise.
    pub open spec fn spec_walkable(&self) -> bool {
        match self.structure {
            Some(s) => s.spec_walkable(),
            None => true,
        }
    }

    /// Whether the tile blocks line of sight: only a structure can.
    pub open spec fn spec_block_sight(&self) -> bool {
        match self.structure {
            Some(s) => s.spec_block_sight(),
            None => false,
        }
    }

    /// Whether an entity may stand here.
    pub fn walkable(&self) -> (r: bool)
        ensures
            r == self.spec_walkable(),
    {
        match &self.structure {
            Some(s) => s.walkable(),
            None => self.kind.is_walkable(),
        }
    }

    /// Whether the tile blocks line of sight.
    pub fn block_sight(&self) -> (r: bool)
        ensures
            r == self.spec_block_sight(),
    {
        match &self.structure {
            Some(s) => s.block_sight(),
            None => false,
        }
    }

    /// Puts a structure on the tile, replacing any present one.
    pub fn add_structure(&mut self, structure: Structure)
        ensures
            final(self).kind == old(self).kind,
            final(self).structure == Some(structure),
    {
        self.structure = Option::Some(structure);
    }

    /// The glyph the renderer should use: the structure's when present.
    pub open spec fn spec_symbol(&self) -> Seq<char> {
        match self.structure {
            Some(s) => s.spec_symbol(),
            None => self.kind.spec_symbol(),
        }
    }

    /// The glyph the renderer should use.
    pub fn symbol(&self) -> (r: &'static str)
        ensures
            r@ == self.spec_symbol(),
    {
        match &self.structure {
            Some(s) => s.symbol(),
            None => self.kind.symbol(),
        }
    }

    /// The color the renderer should use: the structure's when present.
    pub open spec fn spec_color(&self) -> TermColor {
        match self.structure {
            Some(s) => s.spec_color(),
            None => self.kind.spec_color(),
        }
    }

    /// The color the renderer should use.
    pub fn color(&self) -> (r: TermColor)
        ensures
            r == self.spec_color(),
    {
        match &self.structure {
            Some(s) => s.color(),
            None => self.kind.color(),
        }
    }
}

} // verus!
