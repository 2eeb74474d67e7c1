//! Where an entity stands and which way it faces.

use vstd::prelude::*;

verus! {

/// A facing direction, as the angle value that travels on the wire.
#[derive(Clone, Copy, Debug, PartialEq, Eq, Structural)]
pub struct Heading(pub u16);

/// A point inside one region of the world.
///
/// The three coordinates are kept as the raw 32-bit patterns that the
/// protocol carries. Nothing in this library does arithmetic on them: a
/// position is only stored, copied and handed on.
#[derive(Clone, Copy, Debug, PartialEq, Eq, Structural)]
pub struct LocalPosition {
    pub region: u16,
    pub x: u32,
    pub y: u32,
    pub z: u32,
}

/// World-space location plus heading.
#[derive(Clone, Copy, Debug, PartialEq, Eq, Structural)]
pub struct Position {
    pub location: LocalPosition,
    pub rotation: Heading,
}

} // verus!
