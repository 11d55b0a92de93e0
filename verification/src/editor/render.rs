//! Drawing the level into the map image: each tile's pixels go into an RGBA
//! buffer with a depth buffer that keeps the front-most sub-layer, and the
//! finished image is shaded with the active palette.

use vstd::prelude::*;

use crate::editor::palette::{palette_color, Palette, Rgba};
use crate::editor::tiles::{color_pixel, decode_color, known_color, Material, TilePixel, TILE_SIZE};
use crate::level::layer::Layer;
use crate::level::placement::{StorageAccess, StorageView};
use crate::editor::tools::slope::{image_known, solid, solid_at};
use crate::level::tile::TileKind;
use crate::tilemap::{neighbor, spec_neighbor, TileFlip, TilePos, TileStorage, TilemapSize};

verus! {

/// The color a pixel direction is drawn in.
pub open spec fn direction_rgba(p: TilePixel) -> Rgba {
    match p {
        TilePixel::Up => Rgba { r: 0, g: 0, b: 255, a: 255 },
        TilePixel::Neutral => Rgba { r: 0, g: 255, b: 0, a: 255 },
        TilePixel::Down => Rgba { r: 255, g: 0, b: 0, a: 255 },
        TilePixel::Transparent => Rgba { r: 0, g: 0, b: 0, a: 0 },
    }
}

pub fn direction_color(p: TilePixel) -> (c: Rgba)
    ensures
        c == direction_rgba(p),
{
    match p {
        TilePixel::Up => Rgba { r: 0, g: 0, b: 255, a: 255 },
        TilePixel::Neutral => Rgba { r: 0, g: 255, b: 0, a: 255 },
        TilePixel::Down => Rgba { r: 255, g: 0, b: 0, a: 255 },
        TilePixel::Transparent => Rgba { r: 0, g: 0, b: 0, a: 0 },
    }
}

/// The direction of pixel `rpos` of a tile of kind `kind` on sub-layer
/// `sub_layer`: squares and slopes take it from the material, given which
/// neighbours are there; poles and platforms are flat.
pub open spec fn tile_pixel(
    material: Material,
    kind: TileKind,
    sub_layer: int,
    rpos: int,
    flip: TileFlip,
    neighbors: Seq<bool>,
) -> TilePixel {
    match kind {
        TileKind::Square => material.block.pixel(sub_layer, rpos, neighbors),
        TileKind::Slope => material.slope.pixel(sub_layer, rpos, flip, neighbors),
        _ => TilePixel::Neutral,
    }
}

/// The material can draw pixel `rpos` of the tile: enough neighbours are
/// given, and a slope's two quarter images do not both cover the pixel.
pub open spec fn pixel_drawable(
    material: Material,
    kind: TileKind,
    sub_layer: int,
    rpos: int,
    flip: TileFlip,
    neighbors: Seq<bool>,
) -> bool {
    match kind {
        TileKind::Square => neighbors.len() >= 9,
        TileKind::Slope => neighbors.len() >= 2 && material.slope.quarters_disjoint(sub_layer, rpos, flip, neighbors),
        _ => true,
    }
}

fn pixel_of(material: &Material, kind: TileKind, sub_layer: usize, rpos: usize, flip: TileFlip, neighbors: &Vec<bool>) -> (r: TilePixel)
    requires
        material.block.well_formed(),
        material.slope.well_formed(),
        rpos < 400,
        pixel_drawable(*material, kind, sub_layer as int, rpos as int, flip, neighbors@),
    ensures
        r == tile_pixel(*material, kind, sub_layer as int, rpos as int, flip, neighbors@),
{
    match kind {
        TileKind::Square => {
            proof { material.block.lemma_well_formed_readable(sub_layer as int, rpos as int, neighbors@); }
            material.block.get_pixel(sub_layer, rpos, neighbors)
        },
        TileKind::Slope => {
            proof { material.slope.lemma_well_formed_readable(sub_layer as int, rpos as int, flip, neighbors@); }
            material.slope.get_pixel(sub_layer, rpos, flip, neighbors)
        },
        _ => TilePixel::Neutral,
    }
}

/// Buffer position of pixel `rpos` of a tile whose first pixel is at
/// `start`, in an image with rows of `row_len` pixels.
pub open spec fn tile_wpos(start: int, row_len: int, rpos: int) -> int {
    start + rpos % 20 + (rpos / 20) * row_len
}

/// Buffer position `w` lies in the 20 x 20 square of the tile at `start`.
pub open spec fn in_tile(start: int, row_len: int, w: int) -> bool {
    start <= w && (w - start) % row_len < 20 && (w - start) / row_len < 20
}

/// The pixel of the tile that buffer position `w` shows.
pub open spec fn tile_rpos(start: int, row_len: int, w: int) -> int {
    (w - start) % row_len + 20 * ((w - start) / row_len)
}

proof fn lemma_tile_wpos(start: int, row_len: int, tx: int, ty: int)
    requires
        row_len >= 20,
        0 <= tx < 20,
        0 <= ty < 20,
    ensures
        tile_wpos(start, row_len, tx + 20 * ty) == start + tx + ty * row_len,
        in_tile(start, row_len, start + tx + ty * row_len),
        tile_rpos(start, row_len, start + tx + ty * row_len) == tx + 20 * ty,
{
    vstd::arithmetic::div_mod::lemma_fundamental_div_mod_converse(tx + 20 * ty, 20, ty, tx);
    vstd::arithmetic::div_mod::lemma_fundamental_div_mod_converse(tx + ty * row_len, row_len, ty, tx);
}

proof fn lemma_in_tile(start: int, row_len: int, w: int)
    requires
        row_len >= 20,
        in_tile(start, row_len, w),
    ensures
        0 <= tile_rpos(start, row_len, w) < 400,
        w == tile_wpos(start, row_len, tile_rpos(start, row_len, w)),
{
    let r = (w - start) % row_len;
    let q = (w - start) / row_len;
    vstd::arithmetic::div_mod::lemma_fundamental_div_mod(w - start, row_len);
    assert(0 <= q) by {
        vstd::arithmetic::div_mod::lemma_div_pos_is_pos(w - start, row_len);
    }
    assert(0 <= r);
    vstd::arithmetic::div_mod::lemma_fundamental_div_mod_converse(r + 20 * q, 20, q, r);
    assert(row_len * q == q * row_len) by (nonlinear_arith);
}

/// The depth buffer after drawing a tile: every pixel of the tile's square
/// whose depth is not in front of `idx` gets depth `idx`.
pub open spec fn drawn_depth(depth: Seq<u8>, start: int, row_len: int, idx: u8) -> Seq<u8> {
    Seq::new(
        depth.len(),
        |w: int|
            if in_tile(start, row_len, w) && depth[w] >= idx {
                idx
            } else {
                depth[w]
            },
    )
}

/// Channel `c` (0 to 3: red, green, blue, alpha) of a color.
pub open spec fn channel(col: Rgba, c: int) -> u8 {
    if c == 0 {
        col.r
    } else if c == 1 {
        col.g
    } else if c == 2 {
        col.b
    } else {
        col.a
    }
}

/// The color buffer after drawing a tile: the pixels that pass the depth
/// test take the color of the tile's pixel there.
pub open spec fn drawn_data(
    data: Seq<u8>,
    depth: Seq<u8>,
    start: int,
    row_len: int,
    idx: u8,
    pixel: spec_fn(int) -> TilePixel,
) -> Seq<u8> {
    Seq::new(
        data.len(),
        |i: int|
            {
                let w = i / 4;
                if in_tile(start, row_len, w) && depth[w] >= idx {
                    channel(direction_rgba(pixel(tile_rpos(start, row_len, w))), i % 4)
                } else {
                    data[i]
                }
            },
    )
}

/// Draws one tile into the image: its 20 x 20 pixels from buffer position
/// `tile_start` on, in rows `20 * map_width` pixels apart, on sub-layer
/// `sub_layer` of layer number `l`. A pixel is drawn only where nothing in
/// front of it was drawn before (depth `sub_layer + 10 * l` or less).
pub fn draw_tile(
    data: &mut Vec<u8>,
    depth: &mut Vec<u8>,
    tile_start: usize,
    map_width: usize,
    sub_layer: usize,
    l: usize,
    kind: TileKind,
    flip: TileFlip,
    neighbors: &Vec<bool>,
    material: &Material,
)
    requires
        map_width >= 1,
        sub_layer + 10 * l < 256,
        tile_start + 19 + 19 * 20 * map_width < old(depth)@.len(),
        old(data)@.len() == 4 * old(depth)@.len(),
        material.block.well_formed(),
        material.slope.well_formed(),
        forall|t: int|
            0 <= t < 400 && old(depth)@[tile_wpos(tile_start as int, 20 * map_width, t)] >= sub_layer + 10 * l
                ==> #[trigger] pixel_drawable(*material, kind, sub_layer as int, t, flip, neighbors@),
    ensures
        final(depth)@ == drawn_depth(old(depth)@, tile_start as int, 20 * map_width, (sub_layer + 10 * l) as u8),
        final(data)@ == drawn_data(
            old(data)@,
            old(depth)@,
            tile_start as int,
            20 * map_width,
            (sub_layer + 10 * l) as u8,
            |t: int| tile_pixel(*material, kind, sub_layer as int, t, flip, neighbors@),
        ),
{
    let ghost start = tile_start as int;
    let n = depth.len();
    assert(20 * map_width <= 19 * 20 * map_width) by (nonlinear_arith)
        requires map_width >= 1;
    let row_len: usize = TILE_SIZE * map_width;
    assert(19 * row_len == 19 * 20 * map_width) by (nonlinear_arith)
        requires row_len == 20 * map_width;
    let ghost depth0 = depth@;
    let ghost data0 = data@;
    let layer_idx: u8 = (sub_layer + l * 10) as u8;
    let ghost pixel = |t: int| tile_pixel(*material, kind, sub_layer as int, t, flip, neighbors@);
    // positions of the tile drawn so far: those before pixel `done`
    let mut ty: usize = 0;
    while ty < TILE_SIZE
        invariant
            ty <= 20,
            row_len == 20 * map_width,
            map_width >= 1,
            tile_start + 19 + 19 * row_len < depth0.len(),
            data0.len() == 4 * depth0.len(),
            layer_idx == sub_layer + 10 * l,
            material.block.well_formed(),
            material.slope.well_formed(),
            forall|t: int|
                0 <= t < 400 && depth0[tile_wpos(start, row_len as int, t)] >= layer_idx
                    ==> #[trigger] pixel_drawable(*material, kind, sub_layer as int, t, flip, neighbors@),
            pixel == (|t: int| tile_pixel(*material, kind, sub_layer as int, t, flip, neighbors@)),
            start == tile_start,
            depth@.len() == depth0.len(),
            data@.len() == data0.len(),
            forall|w: int| 0 <= w < depth0.len() ==> #[trigger] depth@[w] == (if in_tile(start, row_len as int, w)
                && tile_rpos(start, row_len as int, w) < 20 * ty && depth0[w] >= layer_idx {
                layer_idx
            } else {
                depth0[w]
            }),
            forall|i: int| 0 <= i < data0.len() ==> #[trigger] data@[i] == (if in_tile(start, row_len as int, i / 4)
                && tile_rpos(start, row_len as int, i / 4) < 20 * ty && depth0[i / 4] >= layer_idx {
                channel(direction_rgba(pixel(tile_rpos(start, row_len as int, i / 4))), i % 4)
            } else {
                data0[i]
            }),
        decreases 20 - ty,
    {
        let mut tx: usize = 0;
        while tx < TILE_SIZE
            invariant
                ty < 20,
                tx <= 20,
                row_len == 20 * map_width,
                map_width >= 1,
                tile_start + 19 + 19 * row_len < depth0.len(),
                data0.len() == 4 * depth0.len(),
                layer_idx == sub_layer + 10 * l,
                material.block.well_formed(),
                material.slope.well_formed(),
                forall|t: int|
                    0 <= t < 400 && depth0[tile_wpos(start, row_len as int, t)] >= layer_idx
                        ==> #[trigger] pixel_drawable(*material, kind, sub_layer as int, t, flip, neighbors@),
                pixel == (|t: int| tile_pixel(*material, kind, sub_layer as int, t, flip, neighbors@)),
                start == tile_start,
                depth@.len() == depth0.len(),
                data@.len() == data0.len(),
                forall|w: int| 0 <= w < depth0.len() ==> #[trigger] depth@[w] == (if in_tile(start, row_len as int, w)
                    && tile_rpos(start, row_len as int, w) < 20 * ty + tx && depth0[w] >= layer_idx {
                    layer_idx
                } else {
                    depth0[w]
                }),
                forall|i: int| 0 <= i < data0.len() ==> #[trigger] data@[i] == (if in_tile(start, row_len as int, i / 4)
                    && tile_rpos(start, row_len as int, i / 4) < 20 * ty + tx && depth0[i / 4] >= layer_idx {
                    channel(direction_rgba(pixel(tile_rpos(start, row_len as int, i / 4))), i % 4)
                } else {
                    data0[i]
                }),
            decreases 20 - tx,
        {
            let rpos = tx + ty * TILE_SIZE;
            let n = depth.len();
            let dn = data.len();
            proof {
                assert(ty * row_len <= 19 * row_len) by (nonlinear_arith)
                    requires ty <= 19, row_len >= 0;
                lemma_tile_wpos(start, row_len as int, tx as int, ty as int);
                assert(tx + 20 * ty == rpos);
            }
            let wpos = tile_start + tx + ty * row_len;
            let ghost w = wpos as int;
            proof {
                assert forall|v: int| 0 <= v < depth0.len() && in_tile(start, row_len as int, v) && tile_rpos(start, row_len as int, v) == rpos implies v == w by {
                    lemma_in_tile(start, row_len as int, v);
                }
            }
            if depth[wpos] < layer_idx {
                assert(depth@[w] == depth0[w]);
            } else {
                assert(depth@[w] == depth0[w]);
                depth.set(wpos, layer_idx);
                assert(tile_wpos(start, row_len as int, rpos as int) == w);
                let dir = pixel_of(material, kind, sub_layer, rpos, flip, neighbors);
                let color = direction_color(dir);
                let o = wpos * 4;
                data.set(o, color.r);
                data.set(o + 1, color.g);
                data.set(o + 2, color.b);
                data.set(o + 3, color.a);
                proof {
                    assert(o / 4 == w && (o + 1) / 4 == w && (o + 2) / 4 == w && (o + 3) / 4 == w);
                    assert(o % 4 == 0 && (o + 1) % 4 == 1 && (o + 2) % 4 == 2 && (o + 3) % 4 == 3);
                    assert(pixel(rpos as int) == dir);
                }
            }
            proof {
                assert forall|v: int| 0 <= v < depth0.len() && v != w && in_tile(start, row_len as int, v) implies
                    (tile_rpos(start, row_len as int, v) < 20 * ty + tx + 1) == (tile_rpos(start, row_len as int, v) < 20 * ty + tx) by {
                    lemma_in_tile(start, row_len as int, v);
                }
            }
            tx = tx + 1;
        }
        ty = ty + 1;
    }
    proof {
        assert forall|w: int| 0 <= w < depth0.len() && in_tile(start, row_len as int, w) implies tile_rpos(start, row_len as int, w) < 400 by {
            lemma_in_tile(start, row_len as int, w);
        }
    }
    assert(depth@ =~= drawn_depth(depth0, start, 20 * map_width, layer_idx));
    assert(data@ =~= drawn_data(data0, depth0, start, 20 * map_width, layer_idx, pixel));
}

/// Whether `q` is a position of the map holding a tile.
pub open spec fn occupied(map: TileStorage, q: Option<TilePos>) -> bool {
    match q {
        Some(p) => map.entity_at(p) is Some,
        None => false,
    }
}

/// Which of the eight surrounding positions of a square hold a tile, going
/// round from the west: west, north-west, north, north-east, east,
/// south-east, south, south-west, and west once more.
pub open spec fn spec_square_neighbors(map: TileStorage, pos: TilePos, size: TilemapSize) -> Seq<bool> {
    seq![
        occupied(map, spec_neighbor(pos, -1, 0, size)),
        occupied(map, spec_neighbor(pos, -1, 1, size)),
        occupied(map, spec_neighbor(pos, 0, 1, size)),
        occupied(map, spec_neighbor(pos, 1, 1, size)),
        occupied(map, spec_neighbor(pos, 1, 0, size)),
        occupied(map, spec_neighbor(pos, 1, -1, size)),
        occupied(map, spec_neighbor(pos, 0, -1, size)),
        occupied(map, spec_neighbor(pos, -1, -1, size)),
        occupied(map, spec_neighbor(pos, -1, 0, size)),
    ]
}

fn occupied_at(map: &TileStorage, q: Option<TilePos>) -> (r: bool)
    requires
        map.well_formed(),
    ensures
        r == occupied(*map, q),
{
    match q {
        Some(p) => map.get(&p).is_some(),
        None => false,
    }
}

pub fn square_neighbors(map: &TileStorage, pos: &TilePos, size: &TilemapSize) -> (r: Vec<bool>)
    requires
        map.well_formed(),
    ensures
        r@ == spec_square_neighbors(*map, *pos, *size),
{
    let mut r: Vec<bool> = Vec::new();
    r.push(occupied_at(map, neighbor(pos, -1, 0, size)));
    r.push(occupied_at(map, neighbor(pos, -1, 1, size)));
    r.push(occupied_at(map, neighbor(pos, 0, 1, size)));
    r.push(occupied_at(map, neighbor(pos, 1, 1, size)));
    r.push(occupied_at(map, neighbor(pos, 1, 0, size)));
    r.push(occupied_at(map, neighbor(pos, 1, -1, size)));
    r.push(occupied_at(map, neighbor(pos, 0, -1, size)));
    r.push(occupied_at(map, neighbor(pos, -1, -1, size)));
    r.push(occupied_at(map, neighbor(pos, -1, 0, size)));
    assert(r@ =~= spec_square_neighbors(*map, *pos, *size));
    r
}

/// The two positions a slope leans on, by its mirroring: sideways (west,
/// or east when mirrored in x) and up or down (south, or north when
/// mirrored in y).
pub open spec fn slope_sides(pos: TilePos, flip: TileFlip, size: TilemapSize) -> (Option<TilePos>, Option<TilePos>) {
    (spec_neighbor(pos, if flip.x { 1 } else { -1 }, 0, size), spec_neighbor(pos, 0, if flip.y { 1 } else { -1 }, size))
}

/// Whether the two positions a slope leans on hold squares of `layer`.
pub open spec fn spec_slope_neighbors(s: StorageView, pos: TilePos, layer: Layer, flip: TileFlip, size: TilemapSize) -> Seq<bool> {
    let (h, v) = slope_sides(pos, flip, size);
    seq![solid_at(s, h, layer), solid_at(s, v, layer)]
}

pub fn slope_neighbors(tiles: &StorageAccess, pos: &TilePos, layer: Layer, flip: TileFlip, size: &TilemapSize) -> (r: Vec<bool>)
    requires
        tiles@.well_formed(),
        image_known(tiles@, slope_sides(*pos, flip, *size).0, layer),
        image_known(tiles@, slope_sides(*pos, flip, *size).1, layer),
    ensures
        r@ == spec_slope_neighbors(tiles@, *pos, layer, flip, *size),
{
    let dx: i64 = if flip.x { 1 } else { -1 };
    let dy: i64 = if flip.y { 1 } else { -1 };
    let h = solid(tiles, neighbor(pos, dx, 0, size), layer);
    let v = solid(tiles, neighbor(pos, 0, dy, size), layer);
    let mut r: Vec<bool> = Vec::new();
    r.push(h);
    r.push(v);
    assert(r@ =~= spec_slope_neighbors(tiles@, *pos, layer, flip, *size));
    r
}

/// The shaded color of the pixel with color `c` at depth `d`: the palette's
/// shade color of its direction (read back as tile images are: red up,
/// green neutral, blue down) on sub-layer `d % 10` of layer `d / 10`.
pub open spec fn shaded(palette: Palette, c: Rgba, d: u8) -> Rgba {
    palette_color(palette, true, color_pixel(c.r, c.g, c.b, c.a), (d % 10) as int, (d / 10) as int)
}

/// `c` is one of the four colors the map image is drawn in.
pub open spec fn drawn_color(c: Rgba) -> bool {
    known_color(c.r, c.g, c.b, c.a)
}

/// The color of pixel `k` of an RGBA buffer.
pub open spec fn pixel_color(data: Seq<u8>, k: int) -> Rgba {
    Rgba { r: data[4 * k], g: data[4 * k + 1], b: data[4 * k + 2], a: data[4 * k + 3] }
}

/// Shades the drawn image with `palette`: every pixel's direction, read back
/// from its color, takes the palette's shade color for its depth. Every
/// pixel must hold one of the four drawn colors, and a drawn one a depth of
/// one of the thirty sub-layers.
pub fn shade_image(data: &Vec<u8>, depth: &Vec<u8>, palette: &Palette) -> (r: Vec<u8>)
    requires
        data@.len() % 4 == 0,
        depth@.len() >= data@.len() / 4,
        forall|k: int| 0 <= k < data@.len() / 4 ==> #[trigger] drawn_color(pixel_color(data@, k)),
        forall|k: int|
            0 <= k < data@.len() / 4 && #[trigger] pixel_color(data@, k) != (Rgba { r: 0, g: 0, b: 0, a: 0 }) ==> depth@[k] < 30,
    ensures
        r@.len() == data@.len(),
        forall|i: int| 0 <= i < data@.len() ==> #[trigger] r@[i] == channel(shaded(*palette, pixel_color(data@, i / 4), depth@[i / 4]), i % 4),
{
    let n = data.len() / 4;
    let mut r: Vec<u8> = Vec::new();
    let mut k: usize = 0;
    while k < n
        invariant
            n == data@.len() / 4,
            data@.len() % 4 == 0,
            depth@.len() >= n,
            k <= n,
            r@.len() == 4 * k,
            forall|k: int| 0 <= k < data@.len() / 4 ==> #[trigger] drawn_color(pixel_color(data@, k)),
            forall|k: int|
                0 <= k < data@.len() / 4 && #[trigger] pixel_color(data@, k) != (Rgba { r: 0, g: 0, b: 0, a: 0 }) ==> depth@[k] < 30,
            forall|i: int| 0 <= i < 4 * k ==> #[trigger] r@[i] == channel(shaded(*palette, pixel_color(data@, i / 4), depth@[i / 4]), i % 4),
        decreases n - k,
    {
        let dn = data.len();
        assert(4 * k + 3 < dn);
        let o = 4 * k;
        let c = Rgba { r: data[o], g: data[o + 1], b: data[o + 2], a: data[o + 3] };
        assert(c == pixel_color(data@, k as int));
        let d = depth[k];
        assert(drawn_color(c));
        let dir = decode_color(c.r, c.g, c.b, c.a);
        let col = palette.get_shade_color(dir, (d % 10) as usize, (d / 10) as usize);
        r.push(col.r);
        r.push(col.g);
        r.push(col.b);
        r.push(col.a);
        proof {
            assert forall|i: int| 4 * k <= i < 4 * k + 4 implies #[trigger] r@[i] == channel(
                shaded(*palette, pixel_color(data@, i / 4), depth@[i / 4]),
                i % 4,
            ) by {
                assert(i / 4 == k);
            }
        }
        k = k + 1;
    }
    assert(4 * n == data@.len());
    r
}

/// An image of `width` x `height` pixels with nothing drawn: every pixel
/// transparent black, and behind all thirty sub-layers (depth 30).
pub fn blank_image(width: usize, height: usize) -> (r: (Vec<u8>, Vec<u8>))
    requires
        4 * width * height <= usize::MAX,
    ensures
        r.0@ == Seq::new((4 * width * height) as nat, |i: int| 0u8),
        r.1@ == Seq::new((width * height) as nat, |i: int| 30u8),
{
    assert(width * height <= 4 * width * height) by (nonlinear_arith);
    assert(4 * width * height == 4 * (width * height)) by (nonlinear_arith);
    let n = width * height;
    let data: Vec<u8> = vec![0u8; 4 * n];
    let depth: Vec<u8> = vec![30u8; n];
    assert(data@ =~= Seq::new((4 * width * height) as nat, |i: int| 0u8));
    assert(depth@ =~= Seq::new((width * height) as nat, |i: int| 30u8));
    (data, depth)
}

/// Drawing never moves a pixel back: each pixel of the tile ends at the
/// nearer of its depth and the tile's, and pixels outside the tile keep
/// theirs.
pub proof fn law_depth_keeps_front(depth: Seq<u8>, start: int, row_len: int, idx: u8, w: int)
    requires
        0 <= w < depth.len(),
    ensures
        drawn_depth(depth, start, row_len, idx)[w] <= depth[w],
        in_tile(start, row_len, w) ==> drawn_depth(depth, start, row_len, idx)[w] == (if depth[w] < idx {
            depth[w]
        } else {
            idx
        }),
        !in_tile(start, row_len, w) ==> drawn_depth(depth, start, row_len, idx)[w] == depth[w],
{
}

} // verus!
