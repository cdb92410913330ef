//! Interactive structures occupying tiles: walls, doors, chests, stairs.
//!
//! A structure overrides its tile's walkability and sight-blocking. Structure
//! kinds form a closed sum type dispatched by pattern match; interaction
//! reports a layer displacement instead of moving the actor itself, so the
//! movement resolver stays the single authority over positions.

use vstd::prelude::*;

use crate::color::TermColor;
use crate::logger::Logger;
use vstd::string::StringExecFns;

verus! {

/// A plain wall: blocks movement and sight; interacting does nothing.
#[derive(Clone, Copy, PartialEq, Eq, Structural, Debug)]
pub struct Wall {}

/// A door: open doors are walkable and see-through; interacting toggles them.
#[derive(Clone, Copy, PartialEq, Eq, Structural, Debug)]
pub struct Door {
    pub is_open: bool,
}

/// A chest: walkability of a wall, sight of open ground; interacting only
/// announces itself (its contents are outside the core's scope).
#[derive(Clone, Copy, PartialEq, Eq, Structural, Debug)]
pub struct Chest {
    pub is_open: bool,
}

/// Stairs: walkable, see-through; interacting displaces the actor one layer.
#[derive(Clone, Copy, PartialEq, Eq, Structural, Debug)]
pub struct Stairs {
    pub goes_up: bool,
}

impl Door {
    /// A closed door.
    pub fn new() -> (r: Door)
        ensures
            !r.is_open,
    {
        Door { is_open: false }
    }
}

impl Chest {
    /// A closed chest.
    pub fn new() -> (r: Chest)
        ensures
            !r.is_open,
    {
        Chest { is_open: false }
    }
}

impl Stairs {
    /// Stairs leading up or down.
    pub fn new(goes_up: bool) -> (r: Stairs)
        ensures
            r.goes_up == goes_up,
    {
        Stairs { goes_up }
    }
}

/// The closed set of structure kinds.
#[derive(Clone, Copy, PartialEq, Eq, Structural, Debug)]
pub enum Structure {
    Wall(Wall),
    Door(Door),
    Chest(Chest),
    Stairs(Stairs),
}

impl Structure {
    /// Whether the structure blocks line of sight.
    pub open spec fn spec_block_sight(&self) -> bool {
        match self {
            Structure::Wall(_) => true,
            Structure::Door(d) => !d.is_open,
            Structure::Chest(_) => false,
            Structure::Stairs(_) => false,
        }
    }

    /// Whether an entity may stand on the structure's tile.
    pub open spec fn spec_walkable(&self) -> bool {
        match self {
            Structure::Wall(_) => false,
            Structure::Door(d) => d.is_open,
            Structure::Chest(_) => false,
            Structure::Stairs(_) => true,
        }
    }

    /// The glyph the renderer should use for the structure.
    pub open spec fn spec_symbol(&self) -> Seq<char> {
        match self {
            Structure::Wall(_) => "#"@,
            Structure::Door(d) => if d.is_open {
                "="@
            } else {
                "|"@
            },
            Structure::Chest(_) => "c"@,
            Structure::Stairs(s) => if s.goes_up {
                "<"@
            } else {
                ">"@
            },
        }
    }

    /// Whether the structure blocks line of sight.
    pub fn block_sight(&self) -> (r: bool)
        ensures
            r == self.spec_block_sight(),
    {
        match self {
            Structure::Wall(_) => true,
            Structure::Door(d) => !d.is_open,
            Structure::Chest(_) => false,
            Structure::Stairs(_) => false,
        }
    }

    /// Whether an entity may stand on the structure's tile.
    pub fn walkable(&self) -> (r: bool)
        ensures
            r == self.spec_walkable(),
    {
        match self {
            Structure::Wall(_) => false,
            Structure::Door(d) => d.is_open,
            Structure::Chest(_) => false,
            Structure::Stairs(_) => true,
        }
    }

    /// The glyph the renderer should use for the structure.
    pub fn symbol(&self) -> (r: &'static str)
        ensures
            r@ == self.spec_symbol(),
    {
        match self {
            Structure::Wall(_) => "#",
            Structure::Door(d) => if d.is_open {
                "="
            } else {
                "|"
            },
            Structure::Chest(_) => "c",
            Structure::Stairs(s) => if s.goes_up {
                "<"
            } else {
                ">"
            },
        }
    }

    /// The color the renderer should use for the structure.
    pub open spec fn spec_color(&self) -> TermColor {
        match self {
            Structure::Wall(_) => TermColor::Rgb(150, 150, 150),
            _ => TermColor::Rgb(95, 65, 33),
        }
    }

    /// The color the renderer should use for the structure.
    pub fn color(&self) -> (r: TermColor)
        ensures
            r == self.spec_color(),
    {
        match self {
            Structure::Wall(_) => TermColor::Rgb(150, 150, 150),
            Structure::Door(_) => TermColor::Rgb(95, 65, 33),
            Structure::Chest(_) => TermColor::Rgb(95, 65, 33),
            Structure::Stairs(_) => TermColor::Rgb(95, 65, 33),
        }
    }

    /// The state of the structure after one interaction.
    pub open spec fn spec_after_interact(&self) -> Structure {
        match self {
            Structure::Door(d) => Structure::Door(Door { is_open: !d.is_open }),
            _ => *self,
        }
    }

    /// The layer displacement an interaction asks of the actor, if any.
    pub open spec fn spec_interact_displacement(&self) -> Option<i32> {
        match self {
            Structure::Stairs(s) => if s.goes_up {
                Some(1i32)
            } else {
                Some(-1i32)
            },
            _ => None,
        }
    }

    /// The messages an interaction emits.
    pub open spec fn spec_interact_messages(&self) -> Seq<Seq<char>> {
        match self {
            Structure::Door(d) => if d.is_open {
                seq!["close door"@]
            } else {
                seq!["open door"@]
            },
            Structure::Chest(_) => seq!["open the chest"@],
            _ => Seq::empty(),
        }
    }

    /// Resolves one interaction: doors toggle, chests announce themselves,
    /// stairs ask the movement resolver for a layer displacement.
    pub fn interact(&mut self, logger: &mut Logger) -> (displacement: Option<i32>)
        ensures
            *final(self) == old(self).spec_after_interact(),
            displacement == old(self).spec_interact_displacement(),
            crate::logger::logs_extended_by(
                old(logger).logs@,
                final(logger).logs@,
                old(self).spec_interact_messages(),
            ),
            final(logger).max_displayed() == old(logger).max_displayed(),
    {
        match *self {
            Structure::Wall(_) => Option::None,
            Structure::Door(d) => {
                if d.is_open {
                    logger.push_message(String::from_str("close door"));
                } else {
                    logger.push_message(String::from_str("open door"));
                }
                *self = Structure::Door(Door { is_open: !d.is_open });
                Option::None
            },
            Structure::Chest(_) => {
                logger.push_message(String::from_str("open the chest"));
                Option::None
            },
            Structure::Stairs(s) => {
                if s.goes_up {
                    Some(1)
                } else {
                    Some(-1)
                }
            },
        }
    }
}

} // verus!
