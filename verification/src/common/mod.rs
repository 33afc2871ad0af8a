//! Common structures and enumerations needed for the whole library.

use vstd::prelude::*;

pub mod backend;
pub mod events;
pub mod requirements;
pub mod resources;
pub mod tasks;

verus! {

/// Offset of a 2D element.
#[derive(Debug, Clone, Copy, PartialEq, Eq, Structural)]
pub struct Offset2D {
    pub x: u32,
    pub y: u32,
}

impl From<(u32, u32)> for Offset2D {
    fn from(tuple: (u32, u32)) -> (offset: Self) {
        Self { x: tuple.0, y: tuple.1 }
    }
}

impl vstd::std_specs::convert::FromSpecImpl<(u32, u32)> for Offset2D {
    open spec fn obeys_from_spec() -> bool {
        true
    }

    open spec fn from_spec(tuple: (u32, u32)) -> Self {
        Offset2D { x: tuple.0, y: tuple.1 }
    }
}

/// Extension of a 2D element.
#[derive(Debug, Clone, Copy, PartialEq, Eq, Structural)]
pub struct Extent2D {
    pub width: u32,
    pub height: u32,
}

impl From<(u32, u32)> for Extent2D {
    fn from(tuple: (u32, u32)) -> (extent: Self) {
        Self { width: tuple.0, height: tuple.1 }
    }
}

impl vstd::std_specs::convert::FromSpecImpl<(u32, u32)> for Extent2D {
    open spec fn obeys_from_spec() -> bool {
        true
    }

    open spec fn from_spec(tuple: (u32, u32)) -> Self {
        Extent2D { width: tuple.0, height: tuple.1 }
    }
}

/// Area of a 2D element.
#[derive(Debug, Clone, Copy, PartialEq, Eq, Structural)]
pub struct Area2D {
    pub offset: Offset2D,
    pub extent: Extent2D,
}

impl From<(Offset2D, Extent2D)> for Area2D {
    fn from(tuple: (Offset2D, Extent2D)) -> (area: Self) {
        Self { offset: tuple.0, extent: tuple.1 }
    }
}

impl vstd::std_specs::convert::FromSpecImpl<(Offset2D, Extent2D)> for Area2D {
    open spec fn obeys_from_spec() -> bool {
        true
    }

    open spec fn from_spec(tuple: (Offset2D, Extent2D)) -> Self {
        Area2D { offset: tuple.0, extent: tuple.1 }
    }
}

impl From<((u32, u32), Extent2D)> for Area2D {
    fn from(tuple: ((u32, u32), Extent2D)) -> (area: Self) {
        Self { offset: Offset2D { x: tuple.0.0, y: tuple.0.1 }, extent: tuple.1 }
    }
}

impl vstd::std_specs::convert::FromSpecImpl<((u32, u32), Extent2D)> for Area2D {
    open spec fn obeys_from_spec() -> bool {
        true
    }

    open spec fn from_spec(tuple: ((u32, u32), Extent2D)) -> Self {
        Area2D { offset: Offset2D { x: tuple.0.0, y: tuple.0.1 }, extent: tuple.1 }
    }
}

impl From<(Offset2D, (u32, u32))> for Area2D {
    fn from(tuple: (Offset2D, (u32, u32))) -> (area: Self) {
        Self { offset: tuple.0, extent: Extent2D { width: tuple.1.0, height: tuple.1.1 } }
    }
}

impl vstd::std_specs::convert::FromSpecImpl<(Offset2D, (u32, u32))> for Area2D {
    open spec fn obeys_from_spec() -> bool {
        true
    }

    open spec fn from_spec(tuple: (Offset2D, (u32, u32))) -> Self {
        Area2D { offset: tuple.0, extent: Extent2D { width: tuple.1.0, height: tuple.1.1 } }
    }
}

impl From<(u32, u32, u32, u32)> for Area2D {
    fn from(tuple: (u32, u32, u32, u32)) -> (area: Self) {
        Self {
            offset: Offset2D { x: tuple.0, y: tuple.1 },
            extent: Extent2D { width: tuple.2, height: tuple.3 },
        }
    }
}

impl vstd::std_specs::convert::FromSpecImpl<(u32, u32, u32, u32)> for Area2D {
    open spec fn obeys_from_spec() -> bool {
        true
    }

    open spec fn from_spec(tuple: (u32, u32, u32, u32)) -> Self {
        Area2D {
            offset: Offset2D { x: tuple.0, y: tuple.1 },
            extent: Extent2D { width: tuple.2, height: tuple.3 },
        }
    }
}

} // verus!
