use vstd::prelude::*;

use crate::level::placement::TileProperties;
use crate::math::IVec2;
use crate::phys::terrain::PoleType;
use crate::tilemap::TileTextureIndex;

verus! {

/// What a tile is, as far as physics and editing are concerned.
#[derive(Clone, Copy, Debug, PartialEq, Eq, Structural)]
pub enum TileKind {
    Square,
    Slope,
    Pole(PoleType),
    Platform,
}

/// The tile sheet image that shows a tile kind.
pub open spec fn kind_texture(k: TileKind) -> u32 {
    match k {
        TileKind::Square => 0,
        TileKind::Slope => 1,
        TileKind::Pole(PoleType::Vertical) => 2,
        TileKind::Pole(PoleType::Horizontal) => 3,
        TileKind::Pole(PoleType::Combined) => 4,
        TileKind::Platform => 5,
    }
}

/// The tile kind that a tile sheet image (0 to 5) shows.
pub open spec fn texture_kind(id: u32) -> TileKind {
    if id == 0 {
        TileKind::Square
    } else if id == 1 {
        TileKind::Slope
    } else if id == 2 {
        TileKind::Pole(PoleType::Vertical)
    } else if id == 3 {
        TileKind::Pole(PoleType::Horizontal)
    } else if id == 4 {
        TileKind::Pole(PoleType::Combined)
    } else {
        TileKind::Platform
    }
}

impl TileKind {
    pub fn is_pole(&self) -> (r: Option<PoleType>)
        ensures
            r == (match *self {
                TileKind::Pole(p) => Some(p),
                _ => None,
            }),
    {
        match self {
            TileKind::Pole(kind) => Some(*kind),
            _ => None,
        }
    }

    pub fn is_platform(&self) -> (r: bool)
        ensures
            r == (*self == TileKind::Platform),
    {
        matches!(self, TileKind::Platform)
    }

    pub fn is_solid(&self) -> (r: bool)
        ensures
            r == (*self == TileKind::Square),
    {
        matches!(self, TileKind::Square)
    }

    pub fn is_slope(&self) -> (r: bool)
        ensures
            r == (*self == TileKind::Slope),
    {
        matches!(self, TileKind::Slope)
    }

    /// Vertical offset, in pixels, of the tile's collider from the tile's
    /// center: platforms sit 5 pixels up.
    pub fn offset_y(&self) -> (r: i32)
        ensures
            r == (if *self == TileKind::Platform { 5i32 } else { 0i32 }),
    {
        match self {
            TileKind::Platform => 5,
            _ => 0,
        }
    }

    pub fn name(&self) -> (r: String)
        ensures
            *self == TileKind::Square ==> r@ == "Square"@,
            *self == TileKind::Slope ==> r@ == "Slope"@,
            *self is Pole ==> r@ == "Pole"@,
            *self == TileKind::Platform ==> r@ == "Platform"@,
    {
        match self {
            TileKind::Square => "Square".to_owned(),
            TileKind::Slope => "Slope".to_owned(),
            TileKind::Pole(_) => "Pole".to_owned(),
            TileKind::Platform => "Platform".to_owned(),
        }
    }

    /// The tile sheet image that shows this kind of tile.
    pub fn into_texture_index(self) -> (r: TileTextureIndex)
        ensures
            r.0 == kind_texture(self),
    {
        let id: u32 = match self {
            TileKind::Square => 0,
            TileKind::Slope => 1,
            TileKind::Pole(kind) => match kind {
                PoleType::Vertical => 2,
                PoleType::Horizontal => 3,
                PoleType::Combined => 4,
            },
            TileKind::Platform => 5,
        };
        TileTextureIndex(id)
    }

    /// The kind of tile that a tile sheet image shows; only images 0 to 5
    /// stand for tiles.
    pub fn from_texture_index(value: TileTextureIndex) -> (r: TileKind)
        requires
            value.0 <= 5,
        ensures
            r == texture_kind(value.0),
    {
        match value.0 {
            0 => TileKind::Square,
            1 => TileKind::Slope,
            2 => TileKind::Pole(PoleType::Vertical),
            3 => TileKind::Pole(PoleType::Horizontal),
            4 => TileKind::Pole(PoleType::Combined),
            _ => TileKind::Platform,
        }
    }
}

/// Converting a tile kind to its image and back gives the same kind; every
/// image from 0 to 5 comes from exactly one kind.
pub proof fn law_texture_round_trip(k: TileKind, id: u32)
    ensures
        kind_texture(k) <= 5,
        texture_kind(kind_texture(k)) == k,
        id <= 5 ==> kind_texture(texture_kind(id)) == id,
{
}

/// The shape of a tile's collider, in pixels, centered on the tile.
#[derive(Clone, Copy, Debug, PartialEq, Eq, Structural)]
pub enum ColliderShape {
    /// A box of the given width and height.
    Cuboid(i32, i32),
    /// A triangle with the three given corners.
    Triangle(IVec2, IVec2, IVec2),
    /// A vertical and a horizontal box on top of each other (their sizes).
    Cross(IVec2, IVec2),
}

/// The signs of the two legs of a slope: positive unless flipped.
pub open spec fn slope_dir(x_flip: bool, y_flip: bool) -> (i32, i32) {
    (if x_flip { -1i32 } else { 1i32 }, if y_flip { -1i32 } else { 1i32 })
}

/// The collider of a tile: full boxes for squares, a right triangle in the
/// corner that the flip picks for slopes, thin boxes for poles and platforms.
pub open spec fn spec_collider_shape(id: u32, x_flip: bool, y_flip: bool) -> ColliderShape {
    let (dx, dy) = slope_dir(x_flip, y_flip);
    if id == 0 {
        ColliderShape::Cuboid(16, 16)
    } else if id == 1 {
        ColliderShape::Triangle(
            IVec2 { x: (8 * dx) as i32, y: (-8 * dy) as i32 },
            IVec2 { x: (-8 * dx) as i32, y: (8 * dy) as i32 },
            IVec2 { x: (-8 * dx) as i32, y: (-8 * dy) as i32 },
        )
    } else if id == 2 {
        ColliderShape::Cuboid(4, 16)
    } else if id == 3 {
        ColliderShape::Cuboid(16, 4)
    } else if id == 4 {
        ColliderShape::Cross(IVec2 { x: 4, y: 16 }, IVec2 { x: 16, y: 4 })
    } else {
        ColliderShape::Cuboid(16, 4)
    }
}

/// The collider shape of a tile; only images 0 to 5 stand for tiles.
pub fn collider_shape(value: &TileProperties) -> (r: ColliderShape)
    requires
        value.id.0 <= 5,
    ensures
        r == spec_collider_shape(value.id.0, value.flip.x, value.flip.y),
{
    let dx: i32 = if value.flip.x { -1 } else { 1 };
    let dy: i32 = if value.flip.y { -1 } else { 1 };
    let size: i32 = 16;
    // the corner of the triangle's right angle
    let corner = IVec2 { x: -8 * dx, y: -8 * dy };
    match value.id.0 {
        0 => ColliderShape::Cuboid(16, 16),
        1 => ColliderShape::Triangle(
            IVec2 { x: corner.x + size * dx, y: corner.y },
            IVec2 { x: corner.x, y: corner.y + size * dy },
            corner,
        ),
        2 => ColliderShape::Cuboid(4, 16),
        3 => ColliderShape::Cuboid(16, 4),
        4 => ColliderShape::Cross(IVec2 { x: 4, y: 16 }, IVec2 { x: 16, y: 4 }),
        _ => ColliderShape::Cuboid(16, 4),
    }
}

/// The shape with every x coordinate negated.
pub open spec fn mirror_x(c: ColliderShape) -> ColliderShape {
    match c {
        ColliderShape::Triangle(a, b, r) => ColliderShape::Triangle(
            IVec2 { x: (-a.x) as i32, y: a.y },
            IVec2 { x: (-b.x) as i32, y: b.y },
            IVec2 { x: (-r.x) as i32, y: r.y },
        ),
        _ => c,
    }
}

/// The shape with every y coordinate negated.
pub open spec fn mirror_y(c: ColliderShape) -> ColliderShape {
    match c {
        ColliderShape::Triangle(a, b, r) => ColliderShape::Triangle(
            IVec2 { x: a.x, y: (-a.y) as i32 },
            IVec2 { x: b.x, y: (-b.y) as i32 },
            IVec2 { x: r.x, y: (-r.y) as i32 },
        ),
        _ => c,
    }
}

/// An unmirrored slope's collider is the right triangle filling the tile's
/// lower right half, its right angle at the bottom-left corner (-8, -8) and
/// its legs along the bottom and left edges. Mirroring the tile
/// horizontally mirrors the collider's x coordinates only, mirroring it
/// vertically its y coordinates only; every other tile's collider ignores
/// the mirroring.
pub proof fn law_slope_collider_follows_flips(id: u32, x_flip: bool, y_flip: bool)
    ensures
        spec_collider_shape(1, false, false) == ColliderShape::Triangle(
            IVec2 { x: 8i32, y: -8i32 },
            IVec2 { x: -8i32, y: 8i32 },
            IVec2 { x: -8i32, y: -8i32 },
        ),
        spec_collider_shape(1, !x_flip, y_flip) == mirror_x(spec_collider_shape(1, x_flip, y_flip)),
        spec_collider_shape(1, x_flip, !y_flip) == mirror_y(spec_collider_shape(1, x_flip, y_flip)),
        id != 1 ==> spec_collider_shape(id, x_flip, y_flip) == spec_collider_shape(id, false, false),
{
}

} // verus!
